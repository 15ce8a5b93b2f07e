//! The orchestration decisions: dispatch, combination, collection.

use recon_metadata::metadata::Metadata;
use recon_metadata::orchestrator;
use recon_metadata::ReconError;
use recon_metadata::Source;

fn record(title: &str) -> Metadata {
    Metadata::default().titles(vec![Ok(title.to_string())])
}

#[test]
fn combine_merges_all_records() {
    let parts = vec![Ok(record("A")), Ok(record("B")), Ok(record("A"))];
    let md = orchestrator::combine_metadata(parts).unwrap();
    assert_eq!(
        md.get_titles(),
        &vec![Ok::<String, ReconError>("A".to_string()), Ok("B".to_string())],
    );
}

#[test]
fn combine_fails_fast_on_one_connection_error() {
    let parts = vec![
        Ok(record("A")),
        Err(ReconError::Connection("provider unreachable".to_string())),
        Ok(record("B")),
    ];
    let r = orchestrator::combine_metadata(parts);
    assert_eq!(
        r.unwrap_err(),
        ReconError::Connection("provider unreachable".to_string()),
    );
}

#[test]
fn combine_of_nothing_is_the_empty_record() {
    let md = orchestrator::combine_metadata(vec![]).unwrap();
    assert_eq!(md, Metadata::default());
}

#[test]
fn collect_keeps_records_apart() {
    let r = orchestrator::collect_all(vec![Ok(record("A")), Ok(record("B"))]).unwrap();
    assert_eq!(r.len(), 2);
    assert_eq!(
        r[0].get_titles(),
        &vec![Ok::<String, ReconError>("A".to_string())],
    );
    assert_eq!(
        r[1].get_titles(),
        &vec![Ok::<String, ReconError>("B".to_string())],
    );
}

#[test]
fn collect_fails_fast_on_the_earliest_error() {
    let r = orchestrator::collect_all(vec![
        Ok(record("A")),
        Err(ReconError::Message("first".to_string())),
        Err(ReconError::Message("second".to_string())),
    ]);
    assert_eq!(r.unwrap_err(), ReconError::Message("first".to_string()));
}

#[test]
fn unsupported_providers_are_refused() {
    let isbn = recon_metadata::isbn::Isbn::parse("9781534431003").unwrap();
    assert_eq!(
        orchestrator::source_isbn_url(&Source::Goodreads, &isbn).unwrap_err(),
        ReconError::UnsupportedProvider(Source::Goodreads),
    );
    assert_eq!(
        orchestrator::source_search_url(&Source::Amazon, "x").unwrap_err(),
        ReconError::UnsupportedProvider(Source::Amazon),
    );
    assert_eq!(
        orchestrator::decode_isbn_response(&Source::Amazon, "{}").unwrap_err(),
        ReconError::UnsupportedProvider(Source::Amazon),
    );
    assert_eq!(
        orchestrator::decode_search_response(&Source::Goodreads, "{}").unwrap_err(),
        ReconError::UnsupportedProvider(Source::Goodreads),
    );
}

#[test]
fn dispatch_reaches_both_decoders() {
    let body = "{\"items\":[]}";
    let md = orchestrator::decode_isbn_response(&Source::GoogleBooks, body).unwrap();
    assert!(md.get_titles().is_empty());
    let md2 = orchestrator::decode_isbn_response(&Source::OpenLibrary, "{}").unwrap();
    assert!(md2.get_titles().is_empty());
    let isbn = recon_metadata::isbn::Isbn::parse("9781534431003").unwrap();
    assert!(orchestrator::source_isbn_url(&Source::GoogleBooks, &isbn).is_ok());
    assert!(orchestrator::source_search_url(&Source::OpenLibrary, "q").is_ok());
}

#[test]
fn scraped_page_parts_make_a_record() {
    let md = recon_metadata::goodreads::from_page_parts(
        vec!["\n  The Way of Kings  \n".to_string()],
        vec!["Brandon Sanderson".to_string()],
        vec!["Fantasy".to_string()],
        vec!["English".to_string()],
        vec!["9780765326355".to_string(), "junk".to_string()],
        vec!["An epic.".to_string()],
        vec!["1007 pages".to_string(), "no digits".to_string()],
    );
    assert_eq!(
        md.get_titles(),
        &vec![Ok::<String, ReconError>("The Way of Kings".to_string())],
    );
    assert_eq!(md.get_isbns().len(), 1);
    assert_eq!(md.get_isbns()[0].as_ref().unwrap().canonical(), "9780765326355");
    assert_eq!(md.get_page_count(), &vec![Ok(1007u16)]);
    assert!(md.get_publishers().is_empty());
    assert!(md.get_publication_dates().is_empty());
}
