use juicebox_omega::settings::{parse_number, parse_origin_list, trim_text};

#[test]
fn numbers_read_like_str_parse() {
    assert_eq!(parse_number("4848", 65535), Some(4848));
    assert_eq!(parse_number("+7", 65535), Some(7));
    assert_eq!(parse_number("007", 65535), Some(7));
    assert_eq!(parse_number("65535", 65535), Some(65535));
    assert_eq!(parse_number("65536", 65535), None);
    assert_eq!(parse_number("", 65535), None);
    assert_eq!(parse_number("+", 65535), None);
    assert_eq!(parse_number("-1", 65535), None);
    assert_eq!(parse_number("12a", 65535), None);
    assert_eq!(parse_number(" 1", 65535), None);
    assert_eq!(parse_number("18446744073709551615", u64::MAX), Some(u64::MAX));
    assert_eq!(parse_number("18446744073709551616", u64::MAX), None);
    assert_eq!(parse_number("99999999999999999999999x", u64::MAX), None);
}

#[test]
fn trim_matches_str_trim() {
    for s in ["  a b  ", "\t\nx\r\n", "", "   ", "\u{3000}y\u{a0}", "plain"] {
        assert_eq!(trim_text(s), s.trim());
    }
}

#[test]
fn origin_lists_split_trim_and_skip_empty() {
    assert_eq!(
        parse_origin_list("http://localhost:3000,http://127.0.0.1:3000"),
        vec!["http://localhost:3000".to_string(), "http://127.0.0.1:3000".to_string()]
    );
    assert_eq!(parse_origin_list(" a , ,b,"), vec!["a".to_string(), "b".to_string()]);
    assert!(parse_origin_list("").is_empty());
    assert!(parse_origin_list(",, ,").is_empty());
}
