use http_tunnel::http_tunnel_codec::{got_http_request, parse_status_code, HttpConnectRequest, HttpTunnelCodec};
use http_tunnel::matcher::TargetMatcher;
use http_tunnel::tunnel::{EstablishTunnelResult, TunnelCtx};

fn strict_codec(pattern: &str) -> HttpTunnelCodec {
    HttpTunnelCodec::new(
        TunnelCtx::new(1),
        TargetMatcher::compile(pattern).expect("pattern compiles"),
        true,
    )
}

fn permissive_codec(pattern: &str) -> HttpTunnelCodec {
    HttpTunnelCodec::new(
        TunnelCtx::new(1),
        TargetMatcher::compile(pattern).expect("pattern compiles"),
        false,
    )
}

#[test]
fn test_connect_success() {
    let req = b"CONNECT example.com:443 HTTP/1.1\r\n\r\n".to_vec();
    let parsed = HttpConnectRequest::parse(&req, true).expect("valid CONNECT parses");
    assert_eq!(parsed.uri, "example.com:443");
    assert!(parsed.nugget.is_none());
}

#[test]
fn test_strict_get_forbidden() {
    let req = b"GET /x HTTP/1.1\r\nHost: example.com\r\n\r\n".to_vec();
    let r = HttpConnectRequest::parse(&req, true);
    assert_eq!(r.err(), Some(EstablishTunnelResult::Forbidden));
}

#[test]
fn test_size_bound_rejects_at_max() {
    let req = vec![b'a'; 16384];
    let codec = strict_codec(".*");
    match codec.decode(&req) {
        Some(Err(e)) => assert_eq!(e, EstablishTunnelResult::BadRequest),
        other => panic!("expected BadRequest, got {:?}", other.is_some()),
    }
}

#[test]
fn test_size_bound_not_yet_below_max() {
    let req = vec![b'a'; 16383];
    let codec = strict_codec(".*");
    assert!(codec.decode(&req).is_none());
}

#[test]
fn test_illegal_nul_byte() {
    let mut req = b"CONNECT example.com:443 HTTP/1.1\r\n\r\n".to_vec();
    req[10] = 0x00;
    let r = HttpConnectRequest::parse(&req, true);
    assert_eq!(r.err(), Some(EstablishTunnelResult::BadRequest));
}

#[test]
fn test_illegal_byte_anywhere() {
    let mut req = b"CONNECT example.com:443 HTTP/1.1\r\n\r\n".to_vec();
    let last = req.len() - 1;
    req[last] = 0x01;
    let r = HttpConnectRequest::parse(&req, true);
    assert_eq!(r.err(), Some(EstablishTunnelResult::BadRequest));
}

#[test]
fn test_decode_determinism() {
    let req = b"CONNECT example.com:443 HTTP/1.1\r\n\r\n".to_vec();
    let codec = strict_codec(".*");
    let r1 = codec.decode(&req);
    let r2 = codec.decode(&req);
    match (r1, r2) {
        (Some(Ok(t1)), Some(Ok(t2))) => {
            assert_eq!(t1.target, t2.target);
            assert_eq!(t1.has_nugget(), t2.has_nugget());
        }
        other => panic!("expected two identical successes, got mismatch: {:?}", other.0.is_some()),
    }
}

#[test]
fn test_default_port_https() {
    let req = b"GET https://example.com/x HTTP/1.1\r\nHost: example.com\r\n\r\n".to_vec();
    let parsed = HttpConnectRequest::parse(&req, false).expect("pass-through parses");
    assert_eq!(parsed.uri, "example.com:443");
}

#[test]
fn test_default_port_plain() {
    let req = b"GET http://example.com/x HTTP/1.1\r\nHost: example.com\r\n\r\n".to_vec();
    let parsed = HttpConnectRequest::parse(&req, false).expect("pass-through parses");
    assert_eq!(parsed.uri, "example.com:80");
}

#[test]
fn test_explicit_port_kept() {
    let req = b"GET /x HTTP/1.1\r\nHost: example.com:8443\r\n\r\n".to_vec();
    let parsed = HttpConnectRequest::parse(&req, false).expect("pass-through parses");
    assert_eq!(parsed.uri, "example.com:8443");
}

#[test]
fn test_host_header_case_insensitive() {
    let req = b"GET /x HTTP/1.1\r\nHOST: example.com:8080\r\n\r\n".to_vec();
    let parsed = HttpConnectRequest::parse(&req, false).expect("pass-through parses");
    assert_eq!(parsed.uri, "example.com:8080");
}

#[test]
fn test_passthrough_uri_fallback() {
    let req = b"GET example.com HTTP/1.1\r\nAccept: */*\r\n\r\n".to_vec();
    let parsed = HttpConnectRequest::parse(&req, false).expect("pass-through parses");
    assert_eq!(parsed.uri, "example.com:80");
}

#[test]
fn test_passthrough_nugget_holds_whole_request() {
    let req = b"GET /x HTTP/1.1\r\nHost: example.com\r\n\r\n".to_vec();
    let parsed = HttpConnectRequest::parse(&req, false).expect("pass-through parses");
    let nugget = parsed.nugget.expect("pass-through request carries a payload");
    assert_eq!(nugget.data(), &req);
}

#[test]
fn test_connect_has_no_nugget_in_permissive_mode() {
    let req = b"CONNECT example.com:443 HTTP/1.1\r\n\r\n".to_vec();
    let parsed = HttpConnectRequest::parse(&req, false).expect("CONNECT parses");
    assert_eq!(parsed.uri, "example.com:443");
    assert!(parsed.nugget.is_none());
}

#[test]
fn test_bad_version() {
    let req = b"CONNECT example.com:443 HTTP/1.0\r\n\r\n".to_vec();
    let r = HttpConnectRequest::parse(&req, true);
    assert_eq!(r.err(), Some(EstablishTunnelResult::BadRequest));
}

#[test]
fn test_malformed_request_line() {
    let req = b"CONNECT example.com:443\r\n\r\n".to_vec();
    let r = HttpConnectRequest::parse(&req, true);
    assert_eq!(r.err(), Some(EstablishTunnelResult::BadRequest));
    let req4 = b"CONNECT a b HTTP/1.1\r\n\r\n".to_vec();
    let r4 = HttpConnectRequest::parse(&req4, true);
    assert_eq!(r4.err(), Some(EstablishTunnelResult::BadRequest));
}

#[test]
fn test_allow_list_rejects_unlisted_target() {
    let codec = strict_codec(r"internal\.example\.com:.*");
    let req = b"CONNECT evil.example.com:443 HTTP/1.1\r\n\r\n".to_vec();
    match codec.decode(&req) {
        Some(Err(e)) => assert_eq!(e, EstablishTunnelResult::OperationNotAllowed),
        _ => panic!("expected OperationNotAllowed"),
    }
}

#[test]
fn test_allow_list_accepts_listed_target() {
    let codec = strict_codec(r"internal\.example\.com:.*");
    let req = b"CONNECT internal.example.com:8080 HTTP/1.1\r\n\r\n".to_vec();
    match codec.decode(&req) {
        Some(Ok(t)) => assert_eq!(t.target_addr(), "internal.example.com:8080"),
        _ => panic!("expected a decoded target"),
    }
}

#[test]
fn test_match_all_allows_everything() {
    let codec = HttpTunnelCodec::new(TunnelCtx::new(7), TargetMatcher::match_all(), true);
    let req = b"CONNECT anything.example:1 HTTP/1.1\r\n\r\n".to_vec();
    match codec.decode(&req) {
        Some(Ok(t)) => assert_eq!(t.target_addr(), "anything.example:1"),
        _ => panic!("expected a decoded target"),
    }
}

#[test]
fn test_duplicated_matcher_behaves_like_original() {
    let matcher = TargetMatcher::compile(r"internal\.example\.com:.*").expect("pattern compiles");
    let codec = HttpTunnelCodec::new(TunnelCtx::new(2), matcher.duplicate(), true);
    let denied = b"CONNECT evil.example.com:443 HTTP/1.1\r\n\r\n".to_vec();
    let allowed = b"CONNECT internal.example.com:443 HTTP/1.1\r\n\r\n".to_vec();
    assert!(matches!(
        codec.decode(&denied),
        Some(Err(EstablishTunnelResult::OperationNotAllowed))
    ));
    assert!(matches!(codec.decode(&allowed), Some(Ok(_))));
}

#[test]
fn test_permissive_decode_yields_passthrough_target() {
    let codec = permissive_codec(".*");
    let req = b"GET /x HTTP/1.1\r\nHost: example.com\r\n\r\n".to_vec();
    match codec.decode(&req) {
        Some(Ok(t)) => {
            assert_eq!(t.target_addr(), "example.com:80");
            assert!(t.has_nugget());
            assert_eq!(t.target_nugget().data(), &req);
        }
        _ => panic!("expected a pass-through target"),
    }
}

#[test]
fn test_decode_not_yet_on_partial_header() {
    let codec = strict_codec(".*");
    let req = b"CONNECT example.com:443 HTTP/1.1\r\n".to_vec();
    assert!(codec.decode(&req).is_none());
}

#[test]
fn test_got_http_request() {
    assert!(!got_http_request(&b"CONNECT example.com:443 HTTP/1.1\r\n".to_vec()));
    assert!(got_http_request(&b"CONNECT example.com:443 HTTP/1.1\r\n\r\n".to_vec()));
    assert!(got_http_request(&vec![b'a'; 16384]));
}

#[test]
fn test_encode_round_trip_all_codes() {
    let codec = strict_codec(".*");
    let cases = [
        (EstablishTunnelResult::Okay, 200),
        (EstablishTunnelResult::BadRequest, 400),
        (EstablishTunnelResult::Forbidden, 403),
        (EstablishTunnelResult::OperationNotAllowed, 405),
        (EstablishTunnelResult::RequestTimeout, 408),
        (EstablishTunnelResult::TooManyRequest, 429),
        (EstablishTunnelResult::ServerError, 500),
        (EstablishTunnelResult::BadGateway, 502),
        (EstablishTunnelResult::GatewayTimeout, 504),
    ];
    for (item, code) in cases {
        let mut out = String::new();
        codec.encode(item, &mut out);
        assert_eq!(parse_status_code(&out), Some(code), "variant {:?}", item);
        assert_eq!(item.status_code(), code);
    }
}

#[test]
fn test_encode_exact_ok_line() {
    let codec = strict_codec(".*");
    let mut out = String::new();
    codec.encode(EstablishTunnelResult::Okay, &mut out);
    assert_eq!(out, "HTTP/1.1 200 OK\r\n\r\n");
}

#[test]
fn test_encode_nugget_response_is_empty() {
    let codec = strict_codec(".*");
    let mut out = String::new();
    codec.encode(EstablishTunnelResult::OkWithNugget, &mut out);
    assert_eq!(out, "");
}

#[test]
fn test_parse_status_code_rejects_short_or_garbled() {
    assert_eq!(parse_status_code("HTTP/1.1"), None);
    assert_eq!(parse_status_code("HTTP/1.1 2x0 OK\r\n\r\n"), None);
}
