use libfetch::errors::{Error, ErrorKind};
use libfetch::progress::{should_report_chunk, total_from_content_length};

#[test]
fn http_status_message_carries_status_and_body() {
    let e = Error::HttpStatus(404, String::from("Not Found"));
    assert_eq!(e.kind(), ErrorKind::HttpStatus);
    assert_eq!(e.describe(), "GitHub API returned 404: Not Found");
}

#[test]
fn transport_and_filesystem_messages_pass_through() {
    assert_eq!(
        Error::Transport(String::from("connection reset")).describe(),
        "connection reset"
    );
    assert_eq!(Error::Filesystem(String::from("permission denied")).describe(), "permission denied");
    assert_eq!(Error::Parse(String::from("bad header")).describe(), "bad header");
}

#[test]
fn progress_reports_once_per_interval() {
    // A chunk that crosses a 100 MiB boundary reports; one that does not
    // stays silent.
    assert!(should_report_chunk(104857600, 1));
    assert!(!should_report_chunk(104857601, 1));
    assert!(should_report_chunk(5, 10));
    assert!(!should_report_chunk(104857599, 1));
}

#[test]
fn missing_content_length_means_unknown_total() {
    assert_eq!(total_from_content_length(None), 0);
    assert_eq!(total_from_content_length(Some(42)), 42);
}
