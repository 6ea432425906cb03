//! Addresses, requests and downloads.

use arkyve_refresh_shop::http::{
    content_length, download_to, get_text, open_download, parse_https, post_json, text_of_reply,
    Body, Heard, Step, DOWNLOAD_CHUNK_BYTES, MAX_BODY_BYTES, MAX_DOWNLOAD_BYTES,
};

#[test]
fn parse_https_splits_host_and_path() {
    let u = parse_https("https://example.com/foo/bar").unwrap();
    assert_eq!(u.host, "example.com");
    assert_eq!(u.path, "/foo/bar");
}

#[test]
fn parse_https_defaults_path_to_slash() {
    let u = parse_https("https://example.com").unwrap();
    assert_eq!(u.host, "example.com");
    assert_eq!(u.path, "/");
}

#[test]
fn parse_https_rejects_http() {
    assert!(parse_https("http://example.com").is_err());
}

#[test]
fn parse_https_rejects_port() {
    assert!(parse_https("https://example.com:8443/foo").is_err());
}

#[test]
fn parse_https_rejects_empty_host() {
    assert!(parse_https("https:///foo").is_err());
}

#[test]
fn a_request_goes_to_the_address_it_was_given() {
    let get = get_text("https://example.com/a").unwrap();
    assert_eq!(get.method, "GET");
    assert_eq!(get.url.host, "example.com");
    let post = post_json("https://example.com/a", "{}").unwrap();
    assert_eq!(post.method, "POST");
    assert!(get_text("ftp://example.com").is_err());
    assert!(download_to("https://example.com/x.bin").is_ok());
}

#[test]
fn a_reply_is_a_text_only_where_it_succeeded() {
    assert_eq!(text_of_reply(200, "hello".to_owned()), Ok("hello".to_owned()));
    assert!(text_of_reply(404, "gone".to_owned()).is_err());
}

#[test]
fn a_body_is_read_up_to_its_cap() {
    let mut body = Body::new();
    assert_eq!(body.wanted(0), None);
    assert_eq!(body.wanted(10), Some(10));
    assert!(body.take_in(&vec![0; MAX_BODY_BYTES - 4], (MAX_BODY_BYTES - 4) as u32));
    assert_eq!(body.wanted(10), Some(4));
    assert!(body.take_in(&[0; 4], 4));
    assert_eq!(body.wanted(10), None);
}

#[test]
fn a_body_keeps_what_was_read_and_no_more() {
    let mut body = Body::new();
    assert!(body.take_in(b"hello, world", 5));
    assert_eq!(body.text(), "hello");
    assert!(!body.take_in(b"more", 0));
    assert_eq!(body.text(), "hello");
}

#[test]
fn a_body_reads_as_text_whatever_its_bytes_are() {
    let mut body = Body::new();
    assert!(body.take_in("caf\u{e9}".as_bytes(), 5));
    assert_eq!(body.text(), "caf\u{e9}");
    assert!(body.take_in(&[0xff], 1));
    assert_eq!(body.text(), "caf\u{e9}\u{fffd}");
}

#[test]
fn a_length_header_is_a_number_or_nothing() {
    assert_eq!(content_length("1024"), Some(1024));
    assert_eq!(content_length("many"), None);
}

#[test]
fn a_download_stops_at_its_cap() {
    assert!(open_download("https://example.com/x", 500, None).is_err());
    assert!(open_download("https://example.com/x", 200, Some(MAX_DOWNLOAD_BYTES + 1)).is_err());
    let mut download = open_download("https://example.com/x", 200, None).unwrap();
    assert_eq!(download.next(Heard::Available(u32::MAX)), Step::Read(DOWNLOAD_CHUNK_BYTES));
    assert_eq!(download.next(Heard::Available(7)), Step::Read(7));
    assert_eq!(download.next(Heard::Read(7)), Step::Write);
    assert_eq!(download.total, 7);
    download.total = MAX_DOWNLOAD_BYTES;
    assert!(matches!(download.next(Heard::Read(1)), Step::Abort(_)));
    assert_eq!(download.total, MAX_DOWNLOAD_BYTES);
}

#[test]
fn a_download_ends_once_nothing_is_left() {
    let mut download = open_download("https://example.com/x", 200, Some(12)).unwrap();
    assert_eq!(download.next(Heard::Read(12)), Step::Write);
    assert_eq!(download.next(Heard::Available(0)), Step::Done(12));
    assert_eq!(download.next(Heard::Read(0)), Step::Done(12));
}

#[test]
fn a_download_past_its_announced_length_is_given_up() {
    let mut download = open_download("https://example.com/x", 200, Some(12)).unwrap();
    assert_eq!(
        download.next(Heard::Read(13)),
        Step::Abort(
            "download exceeded 12 bytes — aborting (server sent more than declared / capped)"
                .to_owned()
        )
    );
}
