//! The record serializer.

use recon_metadata::google_books;
use recon_metadata::json::parse_json;
use recon_metadata::metadata::Metadata;
use recon_metadata::ReconError;

#[test]
fn serializes_a_decoded_record() {
    let j = parse_json(
        "{\"title\":\"Dune\",\"industryIdentifiers\":[{\"identifier\":\"9780441013593\"}],\
         \"pageCount\":412,\"publishedDate\":\"2019-07-16\"}",
    )
    .unwrap();
    let md = google_books::decode_volume(&j).unwrap();
    assert_eq!(
        md.to_json(),
        "{\"isbns\":[\"9780441013593\"],\"titles\":[\"Dune\"],\"authors\":[],\
         \"descriptions\":[],\"page_count\":[\"412\"],\"publishers\":[],\
         \"publication_dates\":[\"2019-07-16\"],\"languages\":[],\"tags\":[],\
         \"cover_images\":[]}",
    );
}

#[test]
fn serializer_escapes_and_skips_failures() {
    let md = Metadata::default()
        .titles(vec![
            Ok("A \"B\"\n".to_string()),
            Err(ReconError::Message("kept out".to_string())),
        ])
        .isbns(vec![Err(ReconError::ISBNParse("junk".to_string()))]);
    assert_eq!(
        md.to_json(),
        "{\"isbns\":[],\"titles\":[\"A \\\"B\\\"\\n\"],\"authors\":[],\"descriptions\":[],\
         \"page_count\":[],\"publishers\":[],\"publication_dates\":[],\"languages\":[],\
         \"tags\":[],\"cover_images\":[]}",
    );
}

#[test]
fn serialized_record_is_valid_json() {
    let md = Metadata::default().titles(vec![Ok("tab\there".to_string())]);
    let text = md.to_json();
    assert!(parse_json(&text).is_some());
}
