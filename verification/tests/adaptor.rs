//! The field adaptors on plain inputs.

use recon_metadata::adaptor::adapt_identifier_list;
use recon_metadata::adaptor::adapt_number;
use recon_metadata::adaptor::adapt_object_field_list;
use recon_metadata::adaptor::adapt_object_field_list_split;
use recon_metadata::adaptor::adapt_object_values;
use recon_metadata::adaptor::adapt_scalar_string;
use recon_metadata::adaptor::adapt_string_array;
use recon_metadata::ReconError;

#[test]
fn absent_scalar_string_gives_empty() {
    assert!(adapt_scalar_string(None).is_empty());
}

#[test]
fn absent_number_gives_empty() {
    assert!(adapt_number(None).is_empty());
}

#[test]
fn empty_string_array_gives_empty() {
    assert!(adapt_string_array(vec![]).is_empty());
}

#[test]
fn present_scalars_give_singletons() {
    assert_eq!(
        adapt_scalar_string(Some("Dune".to_string())),
        vec![Ok::<String, ReconError>("Dune".to_string())],
    );
    assert_eq!(adapt_number(Some(412)), vec![Ok::<u16, ReconError>(412)]);
}

#[test]
fn string_array_keeps_order_and_drops_duplicates() {
    let r = adapt_string_array(vec!["a".to_string(), "b".to_string(), "a".to_string()]);
    assert_eq!(
        r,
        vec![Ok::<String, ReconError>("a".to_string()), Ok("b".to_string())],
    );
}

#[test]
fn identifier_list_keeps_failures_and_drops_duplicates() {
    let r = adapt_identifier_list(vec![
        "9781534431003".to_string(),
        "junk".to_string(),
        "junk".to_string(),
        "978-1-5344-3100-3".to_string(),
    ]);
    assert_eq!(r.len(), 2);
    assert!(r[0].is_ok());
    assert_eq!(r[1], Err(ReconError::ISBNParse("junk".to_string())));
}

#[test]
fn object_field_list_extracts_and_skips_absent_keys() {
    let maps = vec![
        vec![("name".to_string(), "Frank Herbert".to_string())],
        vec![("url".to_string(), "x".to_string())],
        vec![("name".to_string(), "Kevin J. Anderson".to_string())],
    ];
    let r = adapt_object_field_list(&maps, "name");
    assert_eq!(
        r,
        vec![
            Ok::<String, ReconError>("Frank Herbert".to_string()),
            Ok("Kevin J. Anderson".to_string()),
        ],
    );
}

#[test]
fn object_field_list_split_normalizes_slugs() {
    let maps = vec![vec![(
        "name".to_string(),
        "Fiction, science fiction, general".to_string(),
    )]];
    let r = adapt_object_field_list_split(&maps, "name");
    assert_eq!(
        r,
        vec![
            Ok::<String, ReconError>("fiction".to_string()),
            Ok("science-fiction".to_string()),
            Ok("general".to_string()),
        ],
    );
}

#[test]
fn object_values_keeps_every_value() {
    let map = vec![
        ("small".to_string(), "a.jpg".to_string()),
        ("large".to_string(), "b.jpg".to_string()),
    ];
    let r = adapt_object_values(&map);
    assert_eq!(
        r,
        vec![Ok::<String, ReconError>("a.jpg".to_string()), Ok("b.jpg".to_string())],
    );
}
