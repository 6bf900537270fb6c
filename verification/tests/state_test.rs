use libfetch::errors::ErrorKind;
use libfetch::state::{load_version_info, parse_version_info, render_version_info, VersionInfo};

#[test]
fn version_record_renders_compact_json() {
    let info = VersionInfo { tag_name: String::from("v2.0.0"), repo: String::from("owner/repo") };
    let text = render_version_info(&info);
    assert_eq!(text, "{\"tag_name\":\"v2.0.0\",\"repo\":\"owner/repo\"}");
}

#[test]
fn version_record_round_trip() {
    let info = VersionInfo { tag_name: String::from("v2.0.0"), repo: String::from("owner/repo") };
    let text = render_version_info(&info);
    let back = parse_version_info(&text).expect("read version record");
    assert_eq!(back.tag_name, "v2.0.0");
    assert_eq!(back.repo, "owner/repo");
}

#[test]
fn version_record_round_trip_with_escapes() {
    let info = VersionInfo {
        tag_name: String::from("v\"2\\0\u{1}"),
        repo: String::from("owner/repo"),
    };
    let text = render_version_info(&info);
    assert_eq!(text, "{\"tag_name\":\"v\\\"2\\\\0\\u0001\",\"repo\":\"owner/repo\"}");
    let back = parse_version_info(&text).expect("read version record");
    assert_eq!(back.tag_name, "v\"2\\0\u{1}");
    assert_eq!(back.repo, "owner/repo");
}

#[test]
fn reading_missing_state_is_a_filesystem_error() {
    let r = load_version_info(Err(String::from("no such file or directory")));
    let e = r.expect_err("missing state file must not read as a record");
    assert_eq!(e.kind(), ErrorKind::Filesystem);
    assert_eq!(e.describe(), "no such file or directory");
}

#[test]
fn reading_valid_content_parses_the_record() {
    let r = load_version_info(Ok(String::from("{\"tag_name\":\"v1\",\"repo\":\"a/b\"}")));
    let info = r.expect("well-formed record");
    assert_eq!(info.tag_name, "v1");
    assert_eq!(info.repo, "a/b");
}

#[test]
fn malformed_state_is_a_parse_error() {
    let r = load_version_info(Ok(String::from("{\"tag\":\"v1\"}")));
    let e = r.expect_err("malformed record must not parse");
    assert_eq!(e.kind(), ErrorKind::Parse);
}

#[test]
fn accepted_string_escapes_decode() {
    let text = "{\"tag_name\":\"a\\/b\\n\\t\",\"repo\":\"o\\u0009r\"}";
    let info = parse_version_info(text).expect("record with escapes");
    assert_eq!(info.tag_name, "a/b\n\t");
    assert_eq!(info.repo, "o\tr");
}

#[test]
fn trailing_garbage_is_rejected() {
    let r = parse_version_info("{\"tag_name\":\"v1\",\"repo\":\"a/b\"}x");
    assert!(r.is_err());
}
