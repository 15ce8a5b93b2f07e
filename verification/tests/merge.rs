//! The merge operation on concrete records.

use recon_metadata::base::Generic;
use recon_metadata::metadata::Metadata;
use recon_metadata::minimal::Minimal;

fn titles_record(names: &[&str]) -> Metadata {
    let entries: Vec<Generic> = names.iter().map(|n| Ok(n.to_string())).collect();
    Metadata::default().titles(entries)
}

#[test]
fn merge_identity_concrete() {
    let r = titles_record(&["Dune", "Dune Messiah"]).authors(vec![Ok(
        "Frank Herbert".to_string(),
    )]);
    let left = Metadata::default().merge(&r);
    let right = r.merge(&Metadata::default());
    assert_eq!(left, r);
    assert_eq!(right, r);
}

#[test]
fn merge_idempotent_concrete() {
    let r = titles_record(&["Dune"]).publishers(vec![Ok("Ace".to_string())]);
    let twice = r.merge(&r);
    assert_eq!(twice, r);
}

#[test]
fn merge_associative_concrete() {
    let a = titles_record(&["A"]);
    let b = titles_record(&["B", "A"]);
    let c = titles_record(&["C", "B"]);
    let left = a.merge(&b).merge(&c);
    let right = a.merge(&b.merge(&c));
    assert_eq!(left, right);
}

#[test]
fn merge_commutative_same_values() {
    let a = titles_record(&["A", "B"]);
    let b = titles_record(&["B", "C"]);
    let ab = a.merge(&b);
    let ba = b.merge(&a);
    let mut ab_titles: Vec<String> = ab
        .get_titles()
        .iter()
        .map(|e| e.as_ref().unwrap().clone())
        .collect();
    let mut ba_titles: Vec<String> = ba
        .get_titles()
        .iter()
        .map(|e| e.as_ref().unwrap().clone())
        .collect();
    ab_titles.sort();
    ba_titles.sort();
    assert_eq!(ab_titles, vec!["A".to_string(), "B".to_string(), "C".to_string()]);
    assert_eq!(ab_titles, ba_titles);
}

#[test]
fn merge_keeps_both_sides_values() {
    let a = titles_record(&["Dune"]);
    let b = titles_record(&["The Desert Planet"]);
    let m = a.merge(&b);
    assert_eq!(
        m.get_titles(),
        &vec![
            Ok::<String, recon_metadata::ReconError>("Dune".to_string()),
            Ok("The Desert Planet".to_string()),
        ],
    );
}

#[test]
fn merge_drops_right_side_duplicates_only() {
    let a = titles_record(&["A", "B"]);
    let b = titles_record(&["B", "C"]);
    let m = a.merge(&b);
    assert_eq!(
        m.get_titles(),
        &vec![
            Ok::<String, recon_metadata::ReconError>("A".to_string()),
            Ok("B".to_string()),
            Ok("C".to_string()),
        ],
    );
}

#[test]
fn builders_replace_each_field() {
    let md = Metadata::default()
        .titles(vec![Ok("T".to_string())])
        .authors(vec![Ok("A".to_string())])
        .descriptions(vec![Ok("D".to_string())])
        .page_count(vec![Ok(412u16)])
        .publishers(vec![Ok("P".to_string())])
        .languages(vec![Ok("en".to_string())])
        .tags(vec![Ok("fiction".to_string())])
        .cover_images(vec![Ok("c.jpg".to_string())]);
    assert_eq!(md.get_titles().len(), 1);
    assert_eq!(md.get_authors().len(), 1);
    assert_eq!(md.get_descriptions().len(), 1);
    assert_eq!(md.get_page_count(), &vec![Ok(412u16)]);
    assert_eq!(md.get_publishers().len(), 1);
    assert_eq!(md.get_languages().len(), 1);
    assert_eq!(md.get_tags().len(), 1);
    assert_eq!(md.get_cover_images().len(), 1);
    assert!(md.get_isbns().is_empty());
    assert!(md.get_publication_dates().is_empty());
}

#[test]
fn minimal_builders_replace_each_field() {
    let m = Minimal::default()
        .isbns(vec![])
        .titles(vec![Ok("T".to_string())])
        .authors(vec![Ok("A".to_string()), Ok("B".to_string())])
        .descriptions(vec![]);
    assert!(m.get_isbns().is_empty());
    assert_eq!(m.get_titles().len(), 1);
    assert_eq!(m.get_authors().len(), 2);
    assert!(m.get_descriptions().is_empty());
}
