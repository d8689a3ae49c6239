use base64ct::Encoding;
use krugg_lcu::lockfile::base_url_of;
use krugg_lcu::lockfile::parse;

#[test]
fn parses_well_formed_artifact() {
    let lf = parse("C:\\LoL\\lockfile", "LeagueClientUx:1234:54321:abcxyz:https").unwrap();
    assert_eq!(lf.path, "C:\\LoL\\lockfile");
    assert_eq!(lf.pid, 1234);
    assert_eq!(lf.port, 54321);
    assert_eq!(lf.token, "abcxyz");
    assert_eq!(lf.protocol, "https");
    assert_eq!(lf.auth_header, "Basic cmlvdDphYmN4eXo=");
}

#[test]
fn auth_header_matches_encoder() {
    let lf = parse("p", "LeagueClientUx:1234:54321:abcxyz:https").unwrap();
    let expected = format!(
        "Basic {}",
        base64ct::Base64::encode_string("riot:abcxyz".as_bytes())
    );
    assert_eq!(lf.auth_header, expected);
}

#[test]
fn auth_header_function_encodes() {
    let header = krugg_lcu::auth::auth_header("abcxyz");
    assert_eq!(header, "Basic cmlvdDphYmN4eXo=");
    let empty = krugg_lcu::auth::auth_header("");
    assert_eq!(
        empty,
        format!(
            "Basic {}",
            base64ct::Base64::encode_string("riot:".as_bytes())
        )
    );
}

#[test]
fn tolerates_trailing_newline() {
    let plain = parse("p", "LeagueClientUx:1234:54321:abcxyz:https").unwrap();
    let lf = parse("p", "LeagueClientUx:1234:54321:abcxyz:https\n").unwrap();
    assert_eq!(lf.protocol, "https");
    assert_eq!(lf.auth_header, plain.auth_header);
    let crlf = parse("p", "LeagueClientUx:1234:54321:abcxyz:https\r\n").unwrap();
    assert_eq!(crlf.protocol, "https");
}

#[test]
fn rejects_missing_fields() {
    assert!(parse("p", "").is_none());
    assert!(parse("p", "LeagueClientUx").is_none());
    assert!(parse("p", "LeagueClientUx:1234").is_none());
    assert!(parse("p", "LeagueClientUx:1234:54321").is_none());
    assert!(parse("p", "LeagueClientUx:1234:54321:abcxyz").is_none());
}

#[test]
fn rejects_extra_fields() {
    assert!(parse("p", "LeagueClientUx:1234:54321:abcxyz:https:extra").is_none());
}

#[test]
fn rejects_non_numeric_pid_and_port() {
    assert!(parse("p", "name:12x4:54321:t:https").is_none());
    assert!(parse("p", "name::54321:t:https").is_none());
    assert!(parse("p", "name:1234:54x21:t:https").is_none());
    assert!(parse("p", "name:1234::t:https").is_none());
    assert!(parse("p", "name:+1234:54321:t:https").is_none());
    assert!(parse("p", "name:-1:54321:t:https").is_none());
}

#[test]
fn rejects_out_of_range_numbers() {
    assert!(parse("p", "name:4294967296:54321:t:https").is_none());
    assert!(parse("p", "name:1234:65536:t:https").is_none());
    let lf = parse("p", "name:4294967295:65535:t:https").unwrap();
    assert_eq!(lf.pid, u32::MAX);
    assert_eq!(lf.port, u16::MAX);
}

#[test]
fn accepts_leading_zeros() {
    let lf = parse("p", "name:007:0080:t:https").unwrap();
    assert_eq!(lf.pid, 7);
    assert_eq!(lf.port, 80);
}

#[test]
fn empty_token_and_protocol_are_allowed() {
    let lf = parse("p", "name:1:2::").unwrap();
    assert_eq!(lf.token, "");
    assert_eq!(lf.protocol, "");
    assert_eq!(
        lf.auth_header,
        format!(
            "Basic {}",
            base64ct::Base64::encode_string("riot:".as_bytes())
        )
    );
}

#[test]
fn renders_base_url() {
    assert_eq!(base_url_of(54321), "https://127.0.0.1:54321/");
    assert_eq!(base_url_of(0), "https://127.0.0.1:0/");
    assert_eq!(base_url_of(65535), "https://127.0.0.1:65535/");
    assert_eq!(base_url_of(443), "https://127.0.0.1:443/");
}

#[test]
fn numeric_parsers_have_exact_bounds() {
    assert_eq!(krugg_lcu::text::parse_u32_dec("0"), Some(0));
    assert_eq!(krugg_lcu::text::parse_u32_dec("4294967295"), Some(u32::MAX));
    assert_eq!(krugg_lcu::text::parse_u32_dec("4294967296"), None);
    assert_eq!(krugg_lcu::text::parse_u32_dec(""), None);
    assert_eq!(krugg_lcu::text::parse_u32_dec("1 "), None);
    assert_eq!(krugg_lcu::text::parse_u16_dec("65535"), Some(u16::MAX));
    assert_eq!(krugg_lcu::text::parse_u16_dec("65536"), None);
    assert_eq!(
        krugg_lcu::text::parse_u64_dec("18446744073709551615"),
        Some(u64::MAX)
    );
    assert_eq!(krugg_lcu::text::parse_u64_dec("18446744073709551616"), None);
}

#[test]
fn split_str_keeps_empty_fields() {
    let fields = krugg_lcu::text::split_str("a::b:", ':');
    assert_eq!(fields, vec!["a", "", "b", ""]);
    let single = krugg_lcu::text::split_str("abc", ':');
    assert_eq!(single, vec!["abc"]);
    let empty = krugg_lcu::text::split_str("", ':');
    assert_eq!(empty, vec![""]);
}
