use quarkdrive_webdav::freshness::{
    expired_given, expiry_in, is_url_expired, parse_u64, query_pairs, URL_MARGIN_SECS,
};

const NOW: u64 = 1_700_000_000;

fn link(expires: u64) -> String {
    format!("https://dl.example.com/file.bin?OSSAccessKeyId=k&Expires={}&Signature=s%3D", expires)
}

#[test]
fn a_link_with_thirty_seconds_left_is_renewed() {
    assert!(is_url_expired(&link(NOW + 30), NOW));
}

#[test]
fn a_link_with_two_minutes_left_is_used() {
    assert!(!is_url_expired(&link(NOW + 120), NOW));
}

#[test]
fn the_margin_is_a_minute() {
    assert_eq!(URL_MARGIN_SECS, 60);
    assert!(is_url_expired(&link(NOW + 59), NOW));
    assert!(!is_url_expired(&link(NOW + 60), NOW));
    assert!(!is_url_expired(&link(NOW + 61), NOW));
}

#[test]
fn a_link_past_its_expiry_is_renewed() {
    assert!(is_url_expired(&link(NOW - 1), NOW));
    assert!(is_url_expired(&link(0), NOW));
    assert!(is_url_expired(&link(30), 0));
}

#[test]
fn a_link_without_an_expiry_is_used() {
    assert!(!is_url_expired("https://dl.example.com/file.bin", NOW));
    assert!(!is_url_expired("https://dl.example.com/file.bin?Signature=abc", NOW));
    assert!(!is_url_expired("https://dl.example.com/file.bin?expires=5", NOW));
}

#[test]
fn text_that_is_no_url_is_renewed() {
    assert!(is_url_expired("", NOW));
    assert!(is_url_expired("not a url", NOW));
    assert!(is_url_expired("/file.bin?Expires=99999999999", NOW));
}

#[test]
fn an_expiry_that_spells_no_number_is_passed_over() {
    assert!(!is_url_expired("https://dl.example.com/f?Expires=soon", NOW));
    assert!(is_url_expired("https://dl.example.com/f?Expires=soon&Expires=5", NOW));
    assert!(!is_url_expired("https://dl.example.com/f?Expires=&Expires=99999999999", NOW));
}

#[test]
fn the_first_expiry_that_spells_a_number_counts() {
    assert!(is_url_expired("https://dl.example.com/f?Expires=5&Expires=99999999999", NOW));
    assert!(!is_url_expired("https://dl.example.com/f?Expires=99999999999&Expires=5", NOW));
}

#[test]
fn the_expiry_is_read_decoded() {
    assert!(is_url_expired("https://dl.example.com/f?Expires=%35", NOW));
    assert!(is_url_expired("https://dl.example.com/f?%45xpires=5", NOW));
}

#[test]
fn the_largest_time_does_not_wrap() {
    assert!(is_url_expired(&link(u64::MAX), u64::MAX));
    assert!(is_url_expired(&link(u64::MAX), u64::MAX - 59));
    assert!(!is_url_expired(&link(u64::MAX), u64::MAX - 60));
}

#[test]
fn expired_given_goes_by_the_parameters() {
    let pairs = vec![
        ("Signature".to_string(), "x".to_string()),
        ("Expires".to_string(), (NOW + 30).to_string()),
    ];
    assert_eq!(expiry_in(&pairs), Some(NOW + 30));
    assert!(expired_given(&Some(pairs.clone()), NOW));
    assert!(!expired_given(&Some(pairs), NOW - 100));
    assert!(!expired_given(&Some(Vec::new()), NOW));
    assert!(expired_given(&None, NOW));
}

#[test]
fn parse_u64_reads_as_the_standard_library_does() {
    for text in [
        "0", "7", "42", "007", "+5", "+", "", "-1", "-0", " 1", "1 ", "1_000", "12a", "a12", "++1",
        "18446744073709551615", "18446744073709551616", "99999999999999999999999", "+18446744073709551615",
        "１２", "1.5", "0x10",
    ] {
        assert_eq!(parse_u64(text), text.parse::<u64>().ok(), "{:?}", text);
    }
    assert_eq!(parse_u64("1700000030"), Some(1_700_000_030));
    assert_eq!(parse_u64("18446744073709551615"), Some(u64::MAX));
    assert_eq!(parse_u64("18446744073709551616"), None);
}

#[test]
fn query_pairs_gives_the_parameters_decoded_and_in_order() {
    assert_eq!(
        query_pairs("https://h.example/p?b=2&a=1&Signature=s%3D%2B&b=3#frag=0"),
        Some(vec![
            ("b".to_string(), "2".to_string()),
            ("a".to_string(), "1".to_string()),
            ("Signature".to_string(), "s=+".to_string()),
            ("b".to_string(), "3".to_string()),
        ])
    );
    assert_eq!(
        query_pairs("https://h.example/p?flag&x=a+b"),
        Some(vec![("flag".to_string(), String::new()), ("x".to_string(), "a b".to_string())])
    );
}

#[test]
fn a_url_without_a_query_has_no_parameters() {
    assert_eq!(query_pairs("https://h.example/p"), Some(Vec::new()));
    assert_eq!(query_pairs("https://h.example/p?"), Some(Vec::new()));
    assert_eq!(query_pairs("https://h.example/p#Expires=5"), Some(Vec::new()));
}

#[test]
fn text_that_is_no_url_has_no_query() {
    assert_eq!(query_pairs(""), None);
    assert_eq!(query_pairs("h.example/p?a=1"), None);
    assert_eq!(query_pairs("?a=1"), None);
}
