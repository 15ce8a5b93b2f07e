//! Identifier validation and publication-date parsing.

use recon_metadata::date::parse_date;
use recon_metadata::date::Date;
use recon_metadata::isbn::Isbn;
use recon_metadata::ReconError;

#[test]
fn parses_isbn13() {
    let i = Isbn::parse("9781534431003").unwrap();
    assert!(i.is_thirteen());
    assert_eq!(i.canonical(), "9781534431003");
}

#[test]
fn parses_isbn13_with_separators() {
    let i = Isbn::parse("978-1-5344-3100-3").unwrap();
    assert!(i.is_thirteen());
    assert_eq!(i.canonical(), "9781534431003");
}

#[test]
fn parses_isbn10_with_check_letter() {
    let i = Isbn::parse("123456789X").unwrap();
    assert!(!i.is_thirteen());
    assert_eq!(i.canonical(), "123456789X");
}

#[test]
fn parses_isbn10_plain() {
    let i = Isbn::parse("0306406152").unwrap();
    assert!(!i.is_thirteen());
    assert_eq!(i.canonical(), "0306406152");
}

#[test]
fn rejects_bad_check_digit() {
    let r = Isbn::parse("9781534431004");
    assert_eq!(r, Err(ReconError::ISBNParse("9781534431004".to_string())));
    let r10 = Isbn::parse("1234567890");
    assert_eq!(r10, Err(ReconError::ISBNParse("1234567890".to_string())));
}

#[test]
fn rejects_bad_length_and_characters() {
    assert!(Isbn::parse("12345").is_err());
    assert!(Isbn::parse("").is_err());
    assert!(Isbn::parse("97815344310O3").is_err());
    assert!(Isbn::parse("123X56789X").is_err());
}

#[test]
fn date_year_month_day() {
    assert_eq!(parse_date("2019-07-16"), Some(Date { year: 2019, month: 7, day: 16 }));
}

#[test]
fn date_month_day_year() {
    assert_eq!(parse_date("July 16, 2019"), Some(Date { year: 2019, month: 7, day: 16 }));
    assert_eq!(parse_date("july 16, 2019"), Some(Date { year: 2019, month: 7, day: 16 }));
}

#[test]
fn date_month_comma_day_year() {
    assert_eq!(parse_date("July, 16 2019"), Some(Date { year: 2019, month: 7, day: 16 }));
}

#[test]
fn date_rejects_nonsense_and_impossible_days() {
    assert_eq!(parse_date("not a date"), None);
    assert_eq!(parse_date("2019-02-29"), None);
    assert_eq!(parse_date("2020-02-29"), Some(Date { year: 2020, month: 2, day: 29 }));
    assert_eq!(parse_date("2019-13-01"), None);
    assert_eq!(parse_date("2011"), None);
    assert_eq!(parse_date("March 2009"), None);
}

#[test]
fn date_serializes_zero_padded() {
    let d = Date { year: 2019, month: 7, day: 16 };
    assert_eq!(d.to_ymd_string(), "2019-07-16");
    let e = Date { year: 476, month: 11, day: 2 };
    assert_eq!(e.to_ymd_string(), "0476-11-02");
}
