//! The search decoders: candidate extraction and truncation.

use recon_metadata::google_books;
use recon_metadata::open_library;
use recon_metadata::ReconError;

fn google_item(isbn: &str) -> String {
    format!(
        "{{\"volumeInfo\":{{\"industryIdentifiers\":[{{\"identifier\":\"{}\"}}]}}}}",
        isbn,
    )
}

#[test]
fn google_search_truncates_to_three_in_order() {
    let items = vec![
        google_item("9780441013593"),
        google_item("9781534431003"),
        google_item("0306406152"),
        google_item("9780140328721"),
        google_item("0471958697"),
    ];
    let body = format!("{{\"items\":[{}]}}", items.join(","));
    let found = google_books::search_isbns(&body).unwrap();
    assert_eq!(found.len(), 3);
    assert_eq!(found[0].canonical(), "9780441013593");
    assert_eq!(found[1].canonical(), "9781534431003");
    assert_eq!(found[2].canonical(), "0306406152");
}

#[test]
fn google_search_drops_unparseable_candidates() {
    let body = format!(
        "{{\"items\":[{},{},{}]}}",
        google_item("junk"),
        google_item("9780441013593"),
        google_item("9780140328721"),
    );
    let found = google_books::search_isbns(&body).unwrap();
    assert_eq!(found.len(), 2);
    assert_eq!(found[0].canonical(), "9780441013593");
    assert_eq!(found[1].canonical(), "9780140328721");
}

#[test]
fn google_search_skips_items_without_identifiers() {
    let body = format!(
        "{{\"items\":[{{\"volumeInfo\":{{\"industryIdentifiers\":[]}}}},{}]}}",
        google_item("9780441013593"),
    );
    let found = google_books::search_isbns(&body).unwrap();
    assert_eq!(found.len(), 1);
}

#[test]
fn google_search_requires_items() {
    assert_eq!(
        google_books::search_isbns("{}").unwrap_err(),
        ReconError::JSONParse("items".to_string()),
    );
}

#[test]
fn catalogue_search_takes_first_isbn_of_each_doc() {
    let body = "{\"docs\":[{\"isbn\":[\"9780441013593\",\"9781534431003\"]},\
                {\"title\":\"no isbn here\"},{\"isbn\":[]},{\"isbn\":[\"0306406152\"]}]}";
    let found = open_library::search_isbns(body).unwrap();
    assert_eq!(found.len(), 2);
    assert_eq!(found[0].canonical(), "9780441013593");
    assert_eq!(found[1].canonical(), "0306406152");
}

#[test]
fn catalogue_search_truncates_to_three() {
    let body = "{\"docs\":[{\"isbn\":[\"9780441013593\"]},{\"isbn\":[\"9781534431003\"]},\
                {\"isbn\":[\"0306406152\"]},{\"isbn\":[\"9780140328721\"]}]}";
    let found = open_library::search_isbns(body).unwrap();
    assert_eq!(found.len(), 3);
}

#[test]
fn url_builders_embed_the_query() {
    let isbn = recon_metadata::isbn::Isbn::parse("9781534431003").unwrap();
    assert_eq!(
        google_books::isbn_url(&isbn),
        "https://www.googleapis.com/books/v1/volumes?q=isbn:9781534431003",
    );
    assert_eq!(
        google_books::search_url("time war"),
        "https://www.googleapis.com/books/v1/volumes?q=time%20war",
    );
    assert_eq!(
        open_library::isbn_url(&isbn),
        "https://openlibrary.org/api/books?bibkeys=ISBN:9781534431003&jscmd=data&format=json",
    );
    assert_eq!(
        open_library::search_url("the way of kings"),
        "https://openlibrary.org/search.json?q=the%20way%20of%20kings",
    );
    assert_eq!(
        recon_metadata::goodreads::isbn_search_url(&isbn),
        "https://www.goodreads.com/search?q=9781534431003&search%5Bsource%5D=goodreads&search_type=books&tab=books",
    );
}
