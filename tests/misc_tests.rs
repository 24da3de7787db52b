use zenwave::download::{range_value, resume_offset, DownloadOptions, DownloadReport};
use zenwave::error::{Error, ErrorKind};
use zenwave::multipart::{encode, Multipart, MultipartPart};
use zenwave::oauth2::OAuth2Error;
use zenwave::redirect::FollowRedirectError;
use zenwave::timeout::{Timeout, TimeoutError};
use zenwave::websocket::{WebSocketConfig, WebSocketMessage};

#[test]
fn multipart_encodes_parts_and_closing_delimiter() {
    let m = Multipart::new()
        .boundary("XyZ".to_string())
        .with_part(MultipartPart::text("a".into(), "1".into()))
        .with_part(MultipartPart::binary("f".into(), "x.bin".into(), "application/octet-stream".into(), vec![0, 255]));
    let (b, body) = m.encode();
    assert_eq!(b, "XyZ");
    let mut expected = b"--XyZ\r\nContent-Disposition: form-data; name=\"a\"\r\n\r\n1\r\n".to_vec();
    expected.extend_from_slice(b"--XyZ\r\nContent-Disposition: form-data; name=\"f\"; filename=\"x.bin\"\r\nContent-Type: application/octet-stream\r\n\r\n");
    expected.extend_from_slice(&[0, 255]);
    expected.extend_from_slice(b"\r\n--XyZ--\r\n");
    assert_eq!(body, expected);
}

#[test]
fn multipart_default_boundary_is_used_in_body() {
    let (b, body) = encode(vec![MultipartPart::new("n".into(), b"v".to_vec()).with_filename("f".into()).with_content_type("text/plain".into())]);
    assert!(b.starts_with("zenwave-0x"));
    let text = String::from_utf8(body).unwrap();
    assert!(text.starts_with(&format!("--{b}\r\n")));
    assert!(text.ends_with(&format!("--{b}--\r\n")));
    assert!(text.contains("filename=\"f\""));
    let mut m = Multipart::new();
    m.push(MultipartPart::new("only".into(), Vec::new()));
    let (_, body) = m.encode();
    assert!(!body.is_empty());
}

#[test]
fn multipart_part_accessors() {
    let p = MultipartPart::text("field".into(), "value".into());
    assert_eq!(p.name(), "field");
    assert_eq!(p.filename(), None);
    assert_eq!(p.content_type(), None);
    assert_eq!(p.data(), b"value");
}

#[test]
fn error_kinds_and_statuses() {
    assert_eq!(Error::Timeout.status(), 504);
    assert!(Error::Timeout.is_timeout());
    assert_eq!(Error::InvalidRedirectLocation.status(), 400);
    assert_eq!(Error::InvalidRedirectLocation.kind(), ErrorKind::Redirect);
    assert!(Error::TooManyRedirects { max: 10 }.is_redirect_error());
    let http = Error::Http { status: 404, message: "nf".into(), body_text: Some("gone".into()) };
    assert!(http.is_client_error());
    assert!(!http.is_server_error());
    assert_eq!(http.status(), 404);
    assert_eq!(http.response_body().map(|s| s.as_str()), Some("gone"));
    assert!(Error::Transport("x".into()).is_network_error());
    assert!(Error::InvalidUri("x".into()).is_request_error());
    assert_eq!(Error::Other("x".into()).status(), 500);
    assert_eq!(ErrorKind::BodyParse.as_str(), "body_parse");
    assert_eq!(ErrorKind::OAuth2.as_str(), "oauth2");
}

#[test]
fn middleware_errors_convert() {
    let e = Error::from_redirect(FollowRedirectError::TooManyRedirects, 10);
    assert!(matches!(e, Error::TooManyRedirects { max: 10 }));
    let e = Error::from_redirect(FollowRedirectError::MissingLocationHeader, 10);
    assert_eq!(e.status(), 400);
    let e = Error::from_oauth2(OAuth2Error::Upstream { status: 403, message: "no".into() });
    assert_eq!(e.status(), 403);
    assert_eq!(e.kind(), ErrorKind::OAuth2);
}

#[test]
fn timeout_and_websocket_config() {
    assert_eq!(Timeout::new(250).duration(), 250);
    assert_eq!(TimeoutError.status(), 504);
    assert!(TimeoutError.message().contains("timed out"));
    let c = WebSocketConfig::default();
    assert_eq!(c.max_message_size, Some(64 << 20));
    assert_eq!(c.max_frame_size, Some(16 << 20));
    let c = c.with_max_message_size(None).with_max_frame_size(Some(1024));
    assert_eq!(c.max_message_size, None);
    assert_eq!(c.max_frame_size, Some(1024));
}

#[test]
fn download_report_totals() {
    let r = DownloadReport { path: "download.bin".into(), resumed_from: 1024, bytes_written: 3072 };
    assert_eq!(r.total_bytes(), 4096);
    assert!(DownloadOptions::default().resume_existing);
}

#[test]
fn download_resume_decisions() {
    assert_eq!(range_value(0), None);
    assert_eq!(range_value(1024), Some(b"bytes=1024-".to_vec()));
    assert_eq!(resume_offset(1024, 206), Ok(1024));
    assert_eq!(resume_offset(1024, 200), Ok(0));
    assert_eq!(resume_offset(0, 206), Ok(0));
    assert_eq!(resume_offset(1024, 416), Err(416));
}

#[test]
fn websocket_messages() {
    let t = WebSocketMessage::text("hello world".into());
    assert_eq!(t.as_text().map(|s| s.as_str()), Some("hello world"));
    assert!(t.as_bytes().is_none());
    assert_eq!(t.into_text().as_deref(), Some("hello world"));
    let b = WebSocketMessage::binary(vec![1, 2, 3]);
    assert_eq!(b.as_bytes(), Some(&[1u8, 2, 3][..]));
    assert_eq!(b.into_bytes(), Some(vec![1, 2, 3]));
}
