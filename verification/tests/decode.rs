//! The provider decoders on concrete response bodies.

use recon_metadata::google_books;
use recon_metadata::json::parse_json;
use recon_metadata::open_library;
use recon_metadata::ReconError;

#[test]
fn decodes_volume_with_only_required_fields() {
    let j = parse_json(
        "{\"title\":\"Dune\",\"industryIdentifiers\":[{\"type\":\"ISBN_13\",\"identifier\":\"9780441013593\"}]}",
    )
    .unwrap();
    let md = google_books::decode_volume(&j).unwrap();
    assert_eq!(
        md.get_titles(),
        &vec![Ok::<String, ReconError>("Dune".to_string())],
    );
    let ids = md.get_isbns();
    assert_eq!(ids.len(), 1);
    let id = ids[0].as_ref().unwrap();
    assert!(id.is_thirteen());
    assert_eq!(id.canonical(), "9780441013593");
    assert!(md.get_authors().is_empty());
    assert!(md.get_descriptions().is_empty());
    assert!(md.get_page_count().is_empty());
    assert!(md.get_publishers().is_empty());
    assert!(md.get_publication_dates().is_empty());
    assert!(md.get_languages().is_empty());
    assert!(md.get_tags().is_empty());
    assert!(md.get_cover_images().is_empty());
}

#[test]
fn keeps_valid_and_invalid_identifiers() {
    let j = parse_json(
        "{\"title\":\"Dune\",\"industryIdentifiers\":[{\"identifier\":\"9780441013593\"},{\"identifier\":\"not-an-isbn\"}]}",
    )
    .unwrap();
    let md = google_books::decode_volume(&j).unwrap();
    let ids = md.get_isbns();
    assert_eq!(ids.len(), 2);
    assert!(ids[0].is_ok());
    assert_eq!(ids[1], Err(ReconError::ISBNParse("not-an-isbn".to_string())));
}

#[test]
fn decodes_optional_volume_fields() {
    let j = parse_json(
        "{\"title\":\"Dune\",\"industryIdentifiers\":[],\"authors\":[\"Frank Herbert\"],\
         \"description\":\"Spice.\",\"pageCount\":412,\"publisher\":\"Ace\",\
         \"publishedDate\":\"2019-07-16\",\"categories\":[\"Fiction\"],\
         \"imageLinks\":{\"smallThumbnail\":\"a.jpg\",\"thumbnail\":\"b.jpg\"},\"language\":\"en\"}",
    )
    .unwrap();
    let md = google_books::decode_volume(&j).unwrap();
    assert_eq!(
        md.get_authors(),
        &vec![Ok::<String, ReconError>("Frank Herbert".to_string())],
    );
    assert_eq!(
        md.get_descriptions(),
        &vec![Ok::<String, ReconError>("Spice.".to_string())],
    );
    assert_eq!(md.get_page_count(), &vec![Ok(412u16)]);
    assert_eq!(
        md.get_publishers(),
        &vec![Ok::<String, ReconError>("Ace".to_string())],
    );
    let dates = md.get_publication_dates();
    assert_eq!(dates.len(), 1);
    assert_eq!(dates[0].as_ref().unwrap().to_ymd_string(), "2019-07-16");
    assert_eq!(
        md.get_languages(),
        &vec![Ok::<String, ReconError>("en".to_string())],
    );
    assert_eq!(
        md.get_tags(),
        &vec![Ok::<String, ReconError>("Fiction".to_string())],
    );
    assert_eq!(
        md.get_cover_images(),
        &vec![
            Ok::<String, ReconError>("a.jpg".to_string()),
            Ok("b.jpg".to_string()),
        ],
    );
}

#[test]
fn unparseable_date_is_retained_not_dropped() {
    let j = parse_json(
        "{\"title\":\"Dune\",\"industryIdentifiers\":[],\"publishedDate\":\"not a date\"}",
    )
    .unwrap();
    let md = google_books::decode_volume(&j).unwrap();
    assert_eq!(
        md.get_publication_dates(),
        &vec![Err(ReconError::DateParse("not a date".to_string()))],
    );
}

#[test]
fn missing_title_is_a_missing_field() {
    let j = parse_json("{\"industryIdentifiers\":[]}").unwrap();
    let r = google_books::decode_volume(&j);
    assert_eq!(r.unwrap_err(), ReconError::MissingField("title".to_string()));
}

#[test]
fn duplicate_known_key_is_an_error() {
    let j = parse_json(
        "{\"title\":\"A\",\"title\":\"B\",\"industryIdentifiers\":[]}",
    )
    .unwrap();
    let r = google_books::decode_volume(&j);
    assert_eq!(r.unwrap_err(), ReconError::DuplicateField("title".to_string()));
}

#[test]
fn wrong_shape_page_count_is_an_error() {
    let j = parse_json(
        "{\"title\":\"A\",\"industryIdentifiers\":[],\"pageCount\":\"412\"}",
    )
    .unwrap();
    assert_eq!(
        google_books::decode_volume(&j).unwrap_err(),
        ReconError::JSONParse("pageCount".to_string()),
    );
    let e = parse_json(
        "{\"title\":\"A\",\"industryIdentifiers\":[],\"pageCount\":1e2}",
    )
    .unwrap();
    assert_eq!(
        google_books::decode_volume(&e).unwrap_err(),
        ReconError::JSONParse("pageCount".to_string()),
    );
    let big = parse_json(
        "{\"title\":\"A\",\"industryIdentifiers\":[],\"pageCount\":70000}",
    )
    .unwrap();
    assert_eq!(
        google_books::decode_volume(&big).unwrap_err(),
        ReconError::JSONParse("pageCount".to_string()),
    );
}

#[test]
fn google_isbn_response_takes_first_volume() {
    let body = "{\"kind\":\"books#volumes\",\"items\":[{\"volumeInfo\":{\"title\":\"Dune\",\
                \"industryIdentifiers\":[{\"identifier\":\"9780441013593\"}]}}]}";
    let md = google_books::from_isbn_response(body).unwrap();
    assert_eq!(
        md.get_titles(),
        &vec![Ok::<String, ReconError>("Dune".to_string())],
    );
}

#[test]
fn google_isbn_response_without_items_fails() {
    assert_eq!(
        google_books::from_isbn_response("{}").unwrap_err(),
        ReconError::JSONParse("items".to_string()),
    );
    assert_eq!(
        google_books::from_isbn_response("not json").unwrap_err(),
        ReconError::JSONParse("response".to_string()),
    );
}

#[test]
fn google_isbn_response_with_empty_items_is_the_empty_record() {
    let md = google_books::from_isbn_response("{\"items\":[]}").unwrap();
    assert!(md.get_titles().is_empty());
    assert!(md.get_isbns().is_empty());
}

#[test]
fn decodes_catalogue_record() {
    let j = parse_json(
        "{\"title\":\"This Is How You Lose the Time War\",\
         \"identifiers\":{\"isbn_13\":[\"9781534431003\"],\"isbn_10\":[\"1534431004\"]},\
         \"authors\":[{\"name\":\"Amal El-Mohtar\"},{\"name\":\"Max Gladstone\"}],\
         \"number_of_pages\":209,\
         \"publishers\":[{\"name\":\"Saga Press\"}],\
         \"publish_date\":\"July 16, 2019\",\
         \"subjects\":[{\"name\":\"Fiction, science fiction, general\"},{\"name\":\"time-traveling\"}],\
         \"cover\":{\"small\":\"s.jpg\",\"medium\":\"m.jpg\"}}",
    )
    .unwrap();
    let md = open_library::decode_record(&j).unwrap();
    assert_eq!(md.get_isbns().len(), 2);
    assert!(md.get_isbns()[0].as_ref().unwrap().is_thirteen());
    assert!(!md.get_isbns()[1].as_ref().unwrap().is_thirteen());
    assert_eq!(
        md.get_authors(),
        &vec![
            Ok::<String, ReconError>("Amal El-Mohtar".to_string()),
            Ok("Max Gladstone".to_string()),
        ],
    );
    assert_eq!(md.get_page_count(), &vec![Ok(209u16)]);
    assert_eq!(
        md.get_publishers(),
        &vec![Ok::<String, ReconError>("Saga Press".to_string())],
    );
    let dates = md.get_publication_dates();
    assert_eq!(dates[0].as_ref().unwrap().to_ymd_string(), "2019-07-16");
    assert_eq!(
        md.get_tags(),
        &vec![
            Ok::<String, ReconError>("fiction".to_string()),
            Ok("science-fiction".to_string()),
            Ok("general".to_string()),
            Ok("time-traveling".to_string()),
        ],
    );
    assert_eq!(
        md.get_cover_images(),
        &vec![
            Ok::<String, ReconError>("s.jpg".to_string()),
            Ok("m.jpg".to_string()),
        ],
    );
    assert!(md.get_descriptions().is_empty());
    assert!(md.get_languages().is_empty());
}

#[test]
fn catalogue_record_requires_identifiers() {
    let j = parse_json("{\"title\":\"A\"}").unwrap();
    assert_eq!(
        open_library::decode_record(&j).unwrap_err(),
        ReconError::MissingField("identifiers".to_string()),
    );
}

#[test]
fn catalogue_response_takes_first_member() {
    let body = "{\"ISBN:9781534431003\":{\"title\":\"Time War\",\
                \"identifiers\":{\"isbn_13\":[\"9781534431003\"]}}}";
    let md = open_library::from_isbn_response(body).unwrap();
    assert_eq!(
        md.get_titles(),
        &vec![Ok::<String, ReconError>("Time War".to_string())],
    );
    let empty = open_library::from_isbn_response("{}").unwrap();
    assert!(empty.get_titles().is_empty());
}

#[test]
fn unicode_escapes_reach_the_record() {
    let j = parse_json(
        "{\"title\":\"D\\u0075ne\",\"industryIdentifiers\":[]}",
    )
    .unwrap();
    let md = google_books::decode_volume(&j).unwrap();
    assert_eq!(
        md.get_titles(),
        &vec![Ok::<String, ReconError>("Dune".to_string())],
    );
}

#[test]
fn json_parser_accepts_and_rejects() {
    assert!(parse_json(" { \"a\" : [ 1 , -2.5e3 , true , null , \"x\\n\" ] } ").is_some());
    assert!(parse_json("").is_none());
    assert!(parse_json("{").is_none());
    assert!(parse_json("[1,]").is_none());
    assert!(parse_json("01").is_none());
    assert!(parse_json("\"unterminated").is_none());
    assert!(parse_json("{\"a\":1} trailing").is_none());
}

#[test]
fn work_reference_enrichment_pieces() {
    let body = "{\"ISBN:9781534431003\":{\"title\":\"Time War\",\
                \"identifiers\":{\"isbn_13\":[\"9781534431003\"]},\
                \"works\":[{\"key\":\"/works/OL17716382W\"}]}}";
    let key = recon_metadata::open_library::work_key_from_response(body).unwrap();
    assert_eq!(key, "/works/OL17716382W");
    assert_eq!(
        recon_metadata::open_library::work_url(&key),
        "https://openlibrary.org/works/OL17716382W.json",
    );
    let work = "{\"description\":{\"value\":\"A long description.\"}}";
    assert_eq!(
        recon_metadata::open_library::decode_work_description(work).unwrap(),
        "A long description.",
    );
    let plain = "{\"description\":\"Short.\"}";
    assert_eq!(
        recon_metadata::open_library::decode_work_description(plain).unwrap(),
        "Short.",
    );
    assert!(recon_metadata::open_library::decode_work_description("{}").is_none());

    let md = recon_metadata::open_library::from_isbn_response(body).unwrap();
    let enriched = md.with_description("A long description.".to_string());
    assert_eq!(
        enriched.get_descriptions(),
        &vec![Ok::<String, ReconError>("A long description.".to_string())],
    );
    let again = enriched.with_description("A long description.".to_string());
    assert_eq!(again.get_descriptions().len(), 1);
}
