use bytes::BytesMut;
use http_tunnel::codec::{got_http_request, HttpConnectRequest, HttpTunnelCodec, Nugget};
use http_tunnel::tunnel::{EstablishTunnelResult, TunnelTarget};

fn parse_uri(request: &[u8]) -> Result<String, EstablishTunnelResult> {
    HttpConnectRequest::parse(request).map(|r| {
        assert!(r.nugget.is_none());
        r.uri
    })
}

#[test]
fn parse_accepts_connect_request() {
    let request = b"CONNECT www.example.com:443 HTTP/1.1\r\nHost: www.example.com:443\r\n\r\n";
    assert_eq!(parse_uri(request), Ok("www.example.com:443".to_string()));
}

#[test]
fn parse_accepts_request_line_without_line_break() {
    assert_eq!(parse_uri(b"CONNECT a:1 HTTP/1.1"), Ok("a:1".to_string()));
}

#[test]
fn parse_keeps_target_verbatim() {
    let request = b"CONNECT [::1]:8080 HTTP/1.1\r\n\r\n";
    assert_eq!(parse_uri(request), Ok("[::1]:8080".to_string()));
}

#[test]
fn parse_rejects_other_methods() {
    let request = b"GET / HTTP/1.1\r\nHost: x\r\n\r\n";
    assert_eq!(parse_uri(request), Err(EstablishTunnelResult::OperationNotAllowed));
}

#[test]
fn parse_method_is_case_sensitive() {
    let request = b"connect host:443 HTTP/1.1\r\n\r\n";
    assert_eq!(parse_uri(request), Err(EstablishTunnelResult::OperationNotAllowed));
}

#[test]
fn parse_rejects_other_versions() {
    let request = b"CONNECT host:443 HTTP/1.0\r\n\r\n";
    assert_eq!(parse_uri(request), Err(EstablishTunnelResult::BadRequest));
}

#[test]
fn parse_checks_item_count_before_method() {
    assert_eq!(parse_uri(b"GET /\r\n\r\n"), Err(EstablishTunnelResult::BadRequest));
    assert_eq!(
        parse_uri(b"CONNECT host:443  HTTP/1.1\r\n\r\n"),
        Err(EstablishTunnelResult::BadRequest)
    );
    assert_eq!(parse_uri(b"\r\n\r\n"), Err(EstablishTunnelResult::BadRequest));
}

#[test]
fn parse_checks_method_before_version() {
    assert_eq!(
        parse_uri(b"PUT host:443 HTTP/2\r\n\r\n"),
        Err(EstablishTunnelResult::OperationNotAllowed)
    );
}

#[test]
fn parse_rejects_illegal_bytes() {
    let request = b"CONNECT h\x00st:443 HTTP/1.1\r\n\r\n";
    assert_eq!(parse_uri(request), Err(EstablishTunnelResult::BadRequest));
    let request = b"CONNECT h\xc3\xa9:443 HTTP/1.1\r\n\r\n";
    assert_eq!(parse_uri(request), Err(EstablishTunnelResult::BadRequest));
}

#[test]
fn parse_accepts_tabs_in_headers() {
    let request = b"CONNECT h:1 HTTP/1.1\r\nX-A:\tb\r\n\r\n";
    assert_eq!(parse_uri(request), Ok("h:1".to_string()));
}

#[test]
fn parse_rejects_oversized_request() {
    let mut request = b"CONNECT h:1 HTTP/1.1\r\n".to_vec();
    request.resize(16384, b'a');
    assert_eq!(parse_uri(&request), Err(EstablishTunnelResult::BadRequest));
    request.truncate(16383);
    assert_eq!(parse_uri(&request), Ok("h:1".to_string()));
}

#[test]
fn validators_give_their_errors() {
    assert_eq!(HttpConnectRequest::validate_version("HTTP/1.1"), Ok(()));
    assert_eq!(
        HttpConnectRequest::validate_version("HTTP/1.10"),
        Err(EstablishTunnelResult::BadRequest)
    );
    assert_eq!(HttpConnectRequest::validate_method("CONNECT"), Ok(false));
    assert_eq!(
        HttpConnectRequest::validate_method("CONNECTX"),
        Err(EstablishTunnelResult::OperationNotAllowed)
    );
    assert_eq!(HttpConnectRequest::validate_well_formed("a b c", &["a", "b", "c"]), Ok(()));
    assert_eq!(
        HttpConnectRequest::validate_well_formed("a b", &["a", "b"]),
        Err(EstablishTunnelResult::BadRequest)
    );
    assert_eq!(HttpConnectRequest::validate_request_size(&[0u8; 16383]), Ok(()));
    assert_eq!(
        HttpConnectRequest::validate_request_size(&[0u8; 16384]),
        Err(EstablishTunnelResult::BadRequest)
    );
    assert_eq!(HttpConnectRequest::validate_legal_characters(b"\t\r\n ~"), Ok(()));
    assert_eq!(
        HttpConnectRequest::validate_legal_characters(b"\x7f"),
        Err(EstablishTunnelResult::BadRequest)
    );
}

#[test]
fn parse_request_line_splits_three_items() {
    let r = HttpConnectRequest::parse_request_line("CONNECT h:1 HTTP/1.1");
    assert_eq!(r, Ok(("CONNECT", "h:1", "HTTP/1.1", false)));
    let r = HttpConnectRequest::parse_request_line("CONNECT  HTTP/1.1");
    assert_eq!(r, Ok(("CONNECT", "", "HTTP/1.1", false)));
}

#[test]
fn extract_destination_host_uses_first_host_header() {
    let lines = ["User-Agent: x", "HoSt:  example.com \t", "Host: other:1"];
    let host = HttpConnectRequest::extract_destination_host(&lines, "example.com");
    assert_eq!(host, Some("example.com:80".to_string()));
}

#[test]
fn extract_destination_host_defaults_https_port() {
    let lines = ["host: example.com"];
    let host = HttpConnectRequest::extract_destination_host(&lines, "HTTPS://example.com/");
    assert_eq!(host, Some("example.com:443".to_string()));
}

#[test]
fn extract_destination_host_keeps_given_port() {
    let lines = ["Host: example.com:8443"];
    let host = HttpConnectRequest::extract_destination_host(&lines, "https://example.com/");
    assert_eq!(host, Some("example.com:8443".to_string()));
}

#[test]
fn extract_destination_host_trims_unicode_whitespace() {
    let lines = ["Host:\u{a0}h\u{3000}"];
    let host = HttpConnectRequest::extract_destination_host(&lines, "x");
    assert_eq!(host, Some("h:80".to_string()));
}

#[test]
fn extract_destination_host_without_host_header() {
    let lines = ["Accept: */*", "X-Host: h"];
    assert_eq!(HttpConnectRequest::extract_destination_host(&lines, "x"), None);
    assert_eq!(HttpConnectRequest::extract_destination_host(&[], "x"), None);
}

#[test]
fn got_http_request_waits_for_empty_line() {
    assert!(!got_http_request(&BytesMut::from(&b"CONNECT a:1 HTTP/1.1\r\n"[..])));
    assert!(got_http_request(&BytesMut::from(&b"CONNECT a:1 HTTP/1.1\r\n\r\n"[..])));
    assert!(!got_http_request(&BytesMut::new()));
    assert!(got_http_request(&BytesMut::from(&vec![b'x'; 16384][..])));
    assert!(!got_http_request(&BytesMut::from(&vec![b'x'; 16383][..])));
}

#[test]
fn decode_returns_nothing_until_complete() {
    let mut codec = HttpTunnelCodec::new();
    let mut buf = BytesMut::from(&b"CONNECT a:1 HTTP/1.1\r\n"[..]);
    assert!(matches!(codec.decode(&mut buf), Ok(None)));
    assert_eq!(&buf[..], &b"CONNECT a:1 HTTP/1.1\r\n"[..]);
}

#[test]
fn decode_gives_target_without_nugget() {
    let mut codec = HttpTunnelCodec::new();
    let request = b"CONNECT example.org:443 HTTP/1.1\r\nHost: x\r\n\r\n";
    let mut buf = BytesMut::from(&request[..]);
    match codec.decode(&mut buf) {
        Ok(Some(target)) => {
            assert_eq!(target.to_string(), "example.org:443");
            assert_eq!(target.target_addr(), "example.org:443");
            assert!(!target.has_nugget());
        }
        _ => panic!("expected a target"),
    }
    assert_eq!(&buf[..], &request[..]);
}

#[test]
fn decode_reports_refusal() {
    let mut codec = HttpTunnelCodec::new();
    let mut buf = BytesMut::from(&b"POST / HTTP/1.1\r\n\r\n"[..]);
    assert!(matches!(codec.decode(&mut buf), Err(EstablishTunnelResult::OperationNotAllowed)));
}

fn encoded(item: EstablishTunnelResult) -> Vec<u8> {
    let mut codec = HttpTunnelCodec::new();
    let mut buf = BytesMut::new();
    assert!(codec.encode(item, &mut buf).is_ok());
    buf.to_vec()
}

#[test]
fn encode_writes_status_lines() {
    assert_eq!(encoded(EstablishTunnelResult::Success), b"HTTP/1.1 200 OK\r\n\r\n".to_vec());
    assert_eq!(encoded(EstablishTunnelResult::OkWithNugget), b"HTTP/1.1 200 OK\r\n\r\n".to_vec());
    assert_eq!(
        encoded(EstablishTunnelResult::BadRequest),
        b"HTTP/1.1 400 BAD_REQUEST\r\n\r\n".to_vec()
    );
    assert_eq!(encoded(EstablishTunnelResult::Forbidden), b"HTTP/1.1 403 FORBIDDEN\r\n\r\n".to_vec());
    assert_eq!(
        encoded(EstablishTunnelResult::OperationNotAllowed),
        b"HTTP/1.1 405 NOT_ALLOWED\r\n\r\n".to_vec()
    );
    assert_eq!(
        encoded(EstablishTunnelResult::RequestTimeout),
        b"HTTP/1.1 408 TIMEOUT\r\n\r\n".to_vec()
    );
    assert_eq!(
        encoded(EstablishTunnelResult::TooManyRequests),
        b"HTTP/1.1 429 TOO_MANY_REQUESTS\r\n\r\n".to_vec()
    );
    assert_eq!(
        encoded(EstablishTunnelResult::ServerError),
        b"HTTP/1.1 500 SERVER_ERROR\r\n\r\n".to_vec()
    );
    assert_eq!(
        encoded(EstablishTunnelResult::BadGateway),
        b"HTTP/1.1 502 BAD_GATEWAY\r\n\r\n".to_vec()
    );
    assert_eq!(
        encoded(EstablishTunnelResult::GatewayTimeout),
        b"HTTP/1.1 504 GATEWAY_TIMEOUT\r\n\r\n".to_vec()
    );
}

#[test]
fn encode_appends_after_existing_bytes() {
    let mut codec = HttpTunnelCodec::new();
    let mut buf = BytesMut::from(&b"xy"[..]);
    assert!(codec.encode(EstablishTunnelResult::BadGateway, &mut buf).is_ok());
    assert_eq!(&buf[..], &b"xyHTTP/1.1 502 BAD_GATEWAY\r\n\r\n"[..]);
}

#[test]
fn encoded_response_is_a_complete_message() {
    let mut codec = HttpTunnelCodec::new();
    let mut buf = BytesMut::new();
    assert!(codec.encode(EstablishTunnelResult::TooManyRequests, &mut buf).is_ok());
    assert!(got_http_request(&buf));
}

#[test]
fn nugget_keeps_its_bytes() {
    let n = Nugget::new(b"GET / HTTP/1.1\r\n\r\n".to_vec());
    assert_eq!(n.data().as_slice(), b"GET / HTTP/1.1\r\n\r\n");
    let m = n.clone();
    assert_eq!(*m.data(), *n.data());
}
