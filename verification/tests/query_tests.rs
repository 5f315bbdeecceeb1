use sheetcrop::{crop_of_params, param, parse_query, parse_u32, CropRect};

fn b(s: &str) -> Vec<u8> {
    s.as_bytes().to_vec()
}

#[test]
fn a_full_query_parses_every_field() {
    let q = parse_query(&b("format=png&x=10&y=20&w=5&h=5")).unwrap();
    assert_eq!(q.format, Some(b("png")));
    assert_eq!((q.x, q.y, q.w, q.h), (Some(10), Some(20), Some(5), Some(5)));
    let crop = crop_of_params(q.x, q.y, q.w, q.h);
    assert_eq!(crop, Some(CropRect { x: 10, y: 20, w: 5, h: 5 }));
}

#[test]
fn missing_fields_are_absent_and_crop_is_all_or_nothing() {
    let q = parse_query(&b("x=10&y=20&w=5")).unwrap();
    assert_eq!((q.x, q.y, q.w, q.h), (Some(10), Some(20), Some(5), None));
    assert_eq!(crop_of_params(q.x, q.y, q.w, q.h), None);
    assert_eq!(q.format, None);
}

#[test]
fn a_malformed_numeric_value_rejects_the_whole_query() {
    // A present but unparseable crop value fails the request; it is not
    // quietly treated as "no crop".
    assert!(parse_query(&b("x=abc&y=20&w=5&h=5")).is_none());
    assert!(parse_query(&b("x=10&y=20&w=4294967296&h=5")).is_none());
    assert!(parse_query(&b("h=")).is_none());
    // An unparseable format string is not an error: negotiation falls back.
    assert!(parse_query(&b("format=???")).is_some());
}

#[test]
fn the_first_occurrence_of_a_key_wins() {
    let q = parse_query(&b("x=1&x=2")).unwrap();
    assert_eq!(q.x, Some(1));
}

#[test]
fn unknown_keys_are_ignored() {
    let q = parse_query(&b("zoom=3&format=gif")).unwrap();
    assert_eq!(q.format, Some(b("gif")));
    assert_eq!(q.x, None);
}

#[test]
fn non_numeric_and_oversized_values_do_not_parse() {
    assert_eq!(parse_u32(&b("")), None);
    assert_eq!(parse_u32(&b("12a")), None);
    assert_eq!(parse_u32(&b("-3")), None);
    assert_eq!(parse_u32(&b("4294967295")), Some(4294967295));
    assert_eq!(parse_u32(&b("4294967296")), None);
    assert_eq!(parse_u32(&b("99999999999999999999")), None);
    assert_eq!(parse_u32(&b("0")), Some(0));
}

#[test]
fn a_pair_without_an_equals_sign_has_an_empty_value() {
    assert_eq!(param(&b("flag&x=1"), &b("flag")), Some(b("")));
    assert_eq!(param(&b("flag&x=1"), &b("x")), Some(b("1")));
    assert_eq!(param(&b("flag&x=1"), &b("y")), None);
}
