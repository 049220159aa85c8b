use asroute::{
    check_no_response, check_reserved, clean_token, display_name_of, normalize, parse_asn,
    parse_u32, ResolutionError,
};
use asroute::get_asn_str as extract_token;

#[test]
fn read_line_is_upper_case() {
    let test_line = "1  [AS0] 192.168.8.1 (192.168.8.1)  3.722 ms  4.705 ms  4.613 ms";
    let expect_line = "1  [AS0] 192.168.8.1 (192.168.8.1)  3.722 MS  4.705 MS  4.613 MS";

    let line = normalize(test_line);
    assert_eq!(expect_line, line);
}

#[test]
fn check_no_response_msg() {
    let test_line_no_response = " 8  * * *";
    if let Some(msg) = check_no_response(&test_line_no_response) {
        assert_eq!(msg, "-> *")
    } else {
        assert!(false, "Expected the no response message");
    }
}

#[test]
fn check_reserved_msg() {
    let test_line = "1  [AS0] 192.168.8.1 (192.168.8.1)  3.722 ms  4.705 ms  4.613 ms";
    if let Some(msg) = check_reserved(&test_line) {
        assert_eq!(msg, "-> AS0 (Reserved)")
    } else {
        assert!(false, "Expected the reserved message");
    }
}

#[test]
fn get_asn_str() {
    let test_line = "12  [AS13335] 172.67.6.216 (172.67.6.216)  17.510 ms  16.734 ms  15.266 ms";
    let asn_str = asroute::get_asn_str(&test_line);
    assert!(asn_str.is_some(), "Expected a result");
    assert_eq!(asn_str.unwrap(), "AS13335", "Expected the right ASN");
}

#[test]
fn parse_asn_fail() {
    let result = parse_asn(&"ASXXX");
    assert!(result.is_err(), "Didn't expect to parse ASXXXX");
}

#[test]
fn parse_asn_not_found() {
    let result = parse_asn(&"AS111111");
    println!("{:?}", result);
    assert!(result.is_err(), "Didn't expect to parse AS9999");
}

#[test]
fn normalize_is_idempotent() {
    let lines = [
        "12  [as13335] 172.67.6.216  17.510 ms",
        " 8  * * *",
        "",
        "Mixed Case With [brackets] and 123",
    ];
    for line in lines {
        let once = normalize(line);
        let twice = normalize(&once);
        assert_eq!(once, twice);
    }
}

#[test]
fn star_takes_precedence_over_reserved() {
    let line = " 3  * [AS0] 10.0.0.1";
    assert_eq!(check_no_response(line), Some("-> *"));
    assert!(check_reserved(line).is_some());
}

#[test]
fn reserved_marker_variants() {
    assert!(check_reserved("2  [AS0] 10.0.0.1").is_some());
    assert!(check_reserved("2  [AS?] 10.0.0.1").is_some());
    assert!(check_reserved("2  [AS13335] 1.1.1.1").is_none());
}

#[test]
fn extract_without_brackets() {
    assert!(extract_token("12  172.67.6.216  17.510 ms").is_none());
}

#[test]
fn extract_reversed_brackets() {
    assert!(extract_token("12 ] stray [ 17.510 ms").is_none());
}

#[test]
fn extract_empty_token() {
    assert_eq!(extract_token("12  [] 172.67.6.216").unwrap(), "");
}

#[test]
fn extract_uses_first_brackets() {
    assert_eq!(extract_token("1 [AS7018] then [AS2] more").unwrap(), "AS7018");
}

#[test]
fn clean_token_removes_every_marker() {
    assert_eq!(clean_token("AS13335"), "13335");
    assert_eq!(clean_token("AS13AS335"), "13335");
    assert_eq!(clean_token("ASAS"), "");
    assert_eq!(clean_token("AASS"), "AS");
}

#[test]
fn parse_u32_exact_values() {
    assert_eq!(parse_u32("13335"), Some(13335));
    assert_eq!(parse_u32("0"), Some(0));
    assert_eq!(parse_u32("4294967295"), Some(4294967295));
}

#[test]
fn parse_u32_rejections() {
    assert_eq!(parse_u32("4294967296"), None);
    assert_eq!(parse_u32(""), None);
    assert_eq!(parse_u32("12x4"), None);
    assert_eq!(parse_u32("?"), None);
}

#[test]
fn invalid_identifier_carries_digits() {
    match parse_asn("AS?") {
        Err(ResolutionError::InvalidIdentifier { digits }) => assert_eq!(digits, "?"),
        other => panic!("expected an invalid identifier, got {:?}", other),
    }
}

#[test]
fn display_name_takes_first_record() {
    let names = vec!["CLOUDFLARENET, US".to_string(), "OTHER".to_string()];
    assert_eq!(display_name_of(&names), "CLOUDFLARENET, US");
}

#[test]
fn display_name_placeholder_when_empty() {
    let names: Vec<String> = vec![];
    assert_eq!(display_name_of(&names), "?");
}
