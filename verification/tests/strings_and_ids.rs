use std::str::FromStr;

use chrono::Datelike;
use scroll_storyteller::cookies::{cookie_string, find_cookie};
use scroll_storyteller::date::NaiveDateWrapper;
use scroll_storyteller::net::bearer_header_value;
use scroll_storyteller::str_toggle::StrToggler;
use scroll_storyteller::uid::UuidWrapper;

#[test]
fn cookie_string_without_path() {
    assert_eq!(
        cookie_string("auth-token", "abc123", None),
        "auth-token=abc123; Secure; SameSite=Strict"
    );
}

#[test]
fn cookie_string_with_path() {
    assert_eq!(
        cookie_string("sid", "x", Some("/app")),
        "sid=x; Path={}/app; Secure; SameSite=Strict"
    );
}

#[test]
fn find_cookie_by_name() {
    let header = "a=1; b=2; auth-token=xyz";
    assert_eq!(find_cookie(header, "auth-token"), Some("xyz".to_string()));
    assert_eq!(find_cookie(header, "a"), Some("1".to_string()));
    assert_eq!(find_cookie(header, "b"), Some("2".to_string()));
    assert_eq!(find_cookie(header, "c"), None);
    assert_eq!(find_cookie("", "a"), None);
}

#[test]
fn find_cookie_trims_and_splits_on_first_equals() {
    assert_eq!(find_cookie("  a  =  1  ; b=2", "a"), Some("1".to_string()));
    assert_eq!(find_cookie("a=b=c", "a"), Some("b=c".to_string()));
    // an entry without `=` is skipped, not matched
    assert_eq!(find_cookie("junk; a=2", "a"), Some("2".to_string()));
    assert_eq!(find_cookie("junk; a=2", "junk"), None);
    // the first matching entry wins
    assert_eq!(find_cookie("a=1; a=2", "a"), Some("1".to_string()));
}

#[test]
fn bearer_header() {
    assert_eq!(bearer_header_value("tok-1"), "Bearer tok-1");
    assert_eq!(bearer_header_value(""), "Bearer ");
}

#[test]
fn toggle_class_on_str() {
    assert_eq!("card".toggle_class("active", true), "card active");
    assert_eq!("card".toggle_class("active", false), "card");
    assert_eq!("card".push_class("hidden"), "card hidden");
}

#[test]
fn toggle_class_on_string() {
    assert_eq!(String::from("card").toggle_class("active", true), "card active");
    assert_eq!(String::from("card").toggle_class("active", false), "card");
    assert_eq!(String::from("card").push_class("hidden"), "card hidden");
}

#[test]
fn date_formats_iso() {
    let d = NaiveDateWrapper::new(2024, 2, 29).expect("leap day");
    assert_eq!(d.to_iso_string(), "2024-02-29");
    let d = NaiveDateWrapper::new(7, 1, 1).expect("year seven");
    assert_eq!(d.to_iso_string(), "0007-01-01");
    let d = NaiveDateWrapper::new(9999, 12, 31).expect("far future");
    assert_eq!(d.to_iso_string(), "9999-12-31");
}

#[test]
fn date_validity() {
    assert!(NaiveDateWrapper::new(2023, 2, 29).is_none()); // not a leap year
    assert!(NaiveDateWrapper::new(1900, 2, 29).is_none()); // century rule
    assert!(NaiveDateWrapper::new(2000, 2, 29).is_some()); // 400-year rule
    assert!(NaiveDateWrapper::new(2024, 4, 31).is_none());
    assert!(NaiveDateWrapper::new(2024, 13, 1).is_none());
    assert!(NaiveDateWrapper::new(2024, 0, 1).is_none());
    assert!(NaiveDateWrapper::new(2024, 1, 0).is_none());
}

#[test]
fn date_parses_iso() {
    let d = NaiveDateWrapper::parse_iso("2024-02-29").expect("valid");
    assert_eq!((d.year, d.month, d.day), (2024, 2, 29));
    assert!(NaiveDateWrapper::parse_iso("2023-02-29").is_none());
    assert!(NaiveDateWrapper::parse_iso("2024-2-29").is_none()); // short form
    assert!(NaiveDateWrapper::parse_iso("2024/02/29").is_none());
    assert!(NaiveDateWrapper::parse_iso("2024-02-29x").is_none());
    assert!(NaiveDateWrapper::parse_iso("").is_none());
    assert!(NaiveDateWrapper::parse_iso("yyyy-mm-dd").is_none());
}

#[test]
fn date_round_trips() {
    for (y, m, d) in [(2024u16, 2u8, 29u8), (1970, 1, 1), (0, 1, 1), (9999, 12, 31)] {
        let w = NaiveDateWrapper::new(y, m, d).expect("valid");
        let back = NaiveDateWrapper::parse_iso(&w.to_iso_string()).expect("round trip");
        assert_eq!(w, back);
    }
}

#[test]
fn date_agrees_with_chrono() {
    let cases = [
        "2024-02-29",
        "2023-02-29",
        "1900-02-29",
        "2000-02-29",
        "2024-13-01",
        "2024-00-10",
        "2024-04-31",
        "0001-01-01",
        "9999-12-31",
    ];
    for s in cases {
        let ours = NaiveDateWrapper::parse_iso(s);
        let theirs = chrono::NaiveDate::from_str(s);
        assert_eq!(ours.is_some(), theirs.is_ok(), "disagreement on {s}");
        if let (Some(w), Ok(d)) = (ours, theirs) {
            assert_eq!((w.year as i32, w.month as u32, w.day as u32), (d.year(), d.month(), d.day()));
        }
    }
    // formatting agrees with chrono's ISO date format
    let w = NaiveDateWrapper::new(2024, 2, 29).unwrap();
    let c = chrono::NaiveDate::from_ymd_opt(2024, 2, 29).unwrap();
    assert_eq!(w.to_iso_string(), c.format("%Y-%m-%d").to_string());
}

#[test]
fn uuid_formats_hyphenated() {
    let bytes: Vec<u8> = vec![
        0x67, 0xe5, 0x50, 0x44, 0x10, 0xb1, 0x42, 0x6f, 0x92, 0x47, 0xbb, 0x68, 0x0e, 0x5f, 0xe0,
        0xc8,
    ];
    let w = UuidWrapper::from_bytes(bytes).expect("sixteen bytes");
    assert_eq!(w.to_hyphenated_string(), "67e55044-10b1-426f-9247-bb680e5fe0c8");
}

#[test]
fn uuid_default_is_nil() {
    assert_eq!(
        UuidWrapper::default().to_hyphenated_string(),
        "00000000-0000-0000-0000-000000000000"
    );
}

#[test]
fn uuid_parses_both_cases() {
    let lower = UuidWrapper::parse_hyphenated("67e55044-10b1-426f-9247-bb680e5fe0c8").unwrap();
    let upper = UuidWrapper::parse_hyphenated("67E55044-10B1-426F-9247-BB680E5FE0C8").unwrap();
    assert_eq!(lower, upper);
}

#[test]
fn uuid_rejects_malformed() {
    assert!(UuidWrapper::parse_hyphenated("").is_none());
    assert!(UuidWrapper::parse_hyphenated("67e5504410b1426f9247bb680e5fe0c8").is_none());
    assert!(UuidWrapper::parse_hyphenated("67e55044-10b1-426f-9247-bb680e5fe0cg").is_none());
    assert!(UuidWrapper::parse_hyphenated("67e55044x10b1-426f-9247-bb680e5fe0c8").is_none());
    assert!(UuidWrapper::parse_hyphenated("67e55044-10b1-426f-9247-bb680e5fe0c").is_none());
}

#[test]
fn uuid_round_trips() {
    let s = "0f1e2d3c-4b5a-6978-8796-a5b4c3d2e1f0";
    let w = UuidWrapper::parse_hyphenated(s).expect("valid");
    assert_eq!(w.to_hyphenated_string(), s);
    let w2 = UuidWrapper::parse_hyphenated(&w.to_hyphenated_string()).expect("round trip");
    assert_eq!(w, w2);
}

#[test]
fn uuid_agrees_with_uuid_crate() {
    let s = "67e55044-10b1-426f-9247-bb680e5fe0c8";
    let ours = UuidWrapper::parse_hyphenated(s).expect("valid");
    let theirs = uuid::Uuid::from_str(s).expect("valid");
    assert_eq!(ours.bytes.as_slice(), theirs.as_bytes().as_slice());
    assert_eq!(ours.to_hyphenated_string(), theirs.hyphenated().to_string());
    assert_eq!(
        UuidWrapper::default().to_hyphenated_string(),
        uuid::Uuid::nil().hyphenated().to_string()
    );
}
