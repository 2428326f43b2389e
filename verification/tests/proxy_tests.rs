use std::sync::Arc;
use std::time::Duration;

use http_body_util::Full;
use hyper::body::Bytes;
use hyper::{Request, Response, StatusCode};

use network_bridge_proxy::config::Config;
use network_bridge_proxy::proxy::{
    answer_connect, failure_reply, forwarded_headers, forwards_header, name_response_headers,
    ConnectAttempt, HttpFailure, ProxyError, TunnelProxy,
};
use network_bridge_proxy::request::{
    connect_head_len, is_connect_request, parse_connect_request, ConnectRequestError,
};

fn create_test_config() -> Arc<Config> {
    Arc::new(Config {
        address: "127.0.0.1:0".to_string(),
        timeout_seconds: 5,
        max_idle_connections: 10,
        idle_timeout_seconds: 30,
    })
}

#[test]
fn test_tunnel_proxy_new() {
    let config = create_test_config();
    let proxy = TunnelProxy::new(config.clone());
    assert_eq!(proxy.config.address, config.address);
    assert_eq!(proxy.config.timeout_seconds, config.timeout_seconds);
}

#[test]
fn test_parse_connect_request_valid() {
    let request = "CONNECT example.com:443 HTTP/1.1\r\nHost: example.com:443\r\n\r\n";
    let _config = create_test_config();

    // Test that we can parse the CONNECT request format
    let lines: Vec<&str> = request.lines().collect();
    assert!(!lines.is_empty());

    let first_line = lines[0];
    let parts: Vec<&str> = first_line.split_whitespace().collect();
    assert_eq!(parts.len(), 3);
    assert_eq!(parts[0], "CONNECT");
    assert_eq!(parts[1], "example.com:443");
    assert_eq!(parts[2], "HTTP/1.1");

    // The proxy's own reading of the request agrees.
    assert!(is_connect_request(request));
    assert_eq!(parse_connect_request(request), Ok("example.com:443".to_string()));
}

#[test]
fn test_parse_connect_request_invalid() {
    let invalid_requests = vec!["", "GET / HTTP/1.1", "CONNECT", "INVALID REQUEST"];

    for request in invalid_requests {
        // The proxy refuses every one of them.
        assert!(parse_connect_request(request).is_err());

        let lines: Vec<&str> = request.lines().collect();

        if lines.is_empty() {
            assert_eq!(parse_connect_request(request), Err(ConnectRequestError::Empty));
            continue; // Empty request should be handled
        }

        let first_line = lines[0];
        let parts: Vec<&str> = first_line.split_whitespace().collect();

        let is_valid_connect = parts.len() >= 2 && parts[0] == "CONNECT";

        if request == "CONNECT" {
            assert!(!is_valid_connect);
        } else if request == "GET / HTTP/1.1" {
            assert!(!is_valid_connect);
        }
    }
}

#[test]
fn test_http_request_handling() {
    let _config = create_test_config();

    // Create a simple HTTP request with empty body
    let req = Request::builder()
        .method("GET")
        .uri("http://example.com/")
        .body(Full::new(Bytes::new()));

    assert!(req.is_ok());
}

#[test]
fn test_proxy_response_codes() {
    let status_codes = vec![
        StatusCode::OK,
        StatusCode::BAD_GATEWAY,
        StatusCode::GATEWAY_TIMEOUT,
        StatusCode::INTERNAL_SERVER_ERROR,
    ];

    for status in status_codes {
        let response = Response::builder()
            .status(status)
            .body(Full::new(Bytes::from("test")))
            .unwrap();

        assert_eq!(response.status(), status);
    }
}

#[test]
fn test_error_response_generation() {
    let error_cases = vec![
        (StatusCode::BAD_REQUEST, "Bad Request"),
        (StatusCode::BAD_GATEWAY, "Bad Gateway"),
        (StatusCode::GATEWAY_TIMEOUT, "Gateway Timeout"),
        (StatusCode::INTERNAL_SERVER_ERROR, "Internal Server Error"),
    ];

    for (status, message) in error_cases {
        let response = Response::builder()
            .status(status)
            .body(Full::new(Bytes::from(message)))
            .unwrap();

        assert_eq!(response.status(), status);
    }
}

#[test]
fn test_request_method_preservation() {
    let methods = vec![
        hyper::Method::GET,
        hyper::Method::POST,
        hyper::Method::PUT,
        hyper::Method::DELETE,
        hyper::Method::HEAD,
        hyper::Method::OPTIONS,
    ];

    for method in methods {
        let req = Request::builder()
            .method(method.clone())
            .uri("http://example.com/")
            .body(Full::new(Bytes::new()));

        assert!(req.is_ok());
    }
}

#[test]
fn test_uri_handling() {
    let test_uris = vec![
        "http://example.com/",
        "https://api.example.com/v1/data",
        "http://localhost:8080/test",
        "https://secure.example.com:8443/api",
    ];

    for uri_str in test_uris {
        let uri: hyper::Uri = uri_str.parse().unwrap();
        assert!(uri.scheme().is_some());
        assert!(uri.authority().is_some());
    }
}

/// What std's `lines` and `split_whitespace` make of a request head.
fn std_reading(request: &str) -> Result<String, ConnectRequestError> {
    match request.lines().next() {
        None => Err(ConnectRequestError::Empty),
        Some(line) => {
            let parts: Vec<&str> = line.split_whitespace().collect();
            if parts.len() >= 2 && parts[0] == "CONNECT" {
                Ok(parts[1].to_string())
            } else {
                Err(ConnectRequestError::Malformed)
            }
        }
    }
}

#[test]
fn connect_parsing_matches_std_reading() {
    let cases = [
        "CONNECT a:1",
        "CONNECT a:1\r\n",
        "CONNECT a:1\n",
        "CONNECT\ta:1 HTTP/1.1",
        "  CONNECT   b.example:443   HTTP/1.1  \r\nHost: x\r\n\r\n",
        "CONNECT \u{a0}c:2 HTTP/1.1",
        "CONNECT\u{3000}d:3",
        "CONNECT x\ry HTTP/1.1",
        "CONNECT x\r",
        "CONNECT x\r\r\n",
        "CONNECT \r\nhost:1",
        "\nCONNECT a:1",
        "CONNECTION a:1",
        "connect a:1",
        "CONNECT héllo:1 HTTP/1.1",
        "CONNECT \u{fffd}\u{fffd}:1",
        "CONNECT",
        "CONNECT ",
        " ",
        "",
    ];
    for case in cases {
        assert_eq!(parse_connect_request(case), std_reading(case), "case {:?}", case);
    }
}

#[test]
fn connect_requests_are_recognised_by_their_prefix() {
    assert!(is_connect_request("CONNECT example.com:443 HTTP/1.1\r\n"));
    assert!(is_connect_request("CONNECT "));
    assert!(!is_connect_request("CONNECT"));
    assert!(!is_connect_request("CONNECT\texample.com:443"));
    assert!(!is_connect_request(" CONNECT example.com:443"));
    assert!(!is_connect_request("GET http://example.com/ HTTP/1.1"));
    assert!(!is_connect_request("connect example.com:443"));
    assert!(!is_connect_request(""));
}

#[test]
fn connect_answers() {
    let d = answer_connect(ConnectAttempt::Connected);
    assert_eq!(d.reply, "HTTP/1.1 200 Connection Established\r\n\r\n");
    assert!(d.next.is_ok());

    let d = answer_connect(ConnectAttempt::Failed("Connection refused".to_string()));
    assert_eq!(d.reply, "HTTP/1.1 502 Bad Gateway\r\n\r\n");
    assert_eq!(d.next.err().unwrap().message(), "Connection refused");

    let d = answer_connect(ConnectAttempt::TimedOut);
    assert_eq!(d.reply, "HTTP/1.1 504 Gateway Timeout\r\n\r\n");
    assert_eq!(d.next.err().unwrap().message(), "Connection timeout");
}

#[test]
fn failure_replies() {
    let r = failure_reply(HttpFailure::RequestBody);
    assert_eq!((r.status, r.body.as_str()), (400, "Failed to read request body"));
    let r = failure_reply(HttpFailure::ResponseBody);
    assert_eq!((r.status, r.body.as_str()), (500, "Failed to read response body"));
    let r = failure_reply(HttpFailure::Upstream("dns error".to_string()));
    assert_eq!((r.status, r.body.as_str()), (502, "Error: dns error"));
    let r = failure_reply(HttpFailure::TimedOut);
    assert_eq!((r.status, r.body.as_str()), (504, "Request timed out"));
    for code in [400u16, 500, 502, 504] {
        assert!(StatusCode::from_u16(code).is_ok());
    }
}

#[test]
fn error_messages() {
    assert_eq!(
        ProxyError::BadConnectRequest(ConnectRequestError::Empty).message(),
        "Invalid CONNECT request"
    );
    assert_eq!(
        ProxyError::BadConnectRequest(ConnectRequestError::Malformed).message(),
        "Invalid CONNECT request format"
    );
    assert_eq!(
        ProxyError::UnresolvedHost("nowhere:1".to_string()).message(),
        "Failed to resolve host: nowhere:1"
    );
    assert_eq!(
        ProxyError::InvalidAddress("localhost".to_string()).message(),
        "Failed to parse address: localhost"
    );
    assert_eq!(ProxyError::ConnectTimeout.message(), "Connection timeout");
    assert_eq!(ProxyError::TunnelTimeout.message(), "Tunnel timed out");
    assert_eq!(ProxyError::TunnelFailed("reset".to_string()).message(), "Tunnel error: reset");
    assert_eq!(ConnectRequestError::Empty.message(), "Invalid CONNECT request");
}

#[test]
fn proxy_headers_are_not_forwarded() {
    assert!(!forwards_header("proxy-authorization"));
    assert!(!forwards_header("Proxy-Connection"));
    assert!(!forwards_header("PROXY-"));
    assert!(forwards_header("proxy"));
    assert!(forwards_header("host"));
    assert!(forwards_header("x-proxy-id"));
    assert!(forwards_header(""));

    let headers = vec![
        ("host".to_string(), 1),
        ("proxy-authorization".to_string(), 2),
        ("accept".to_string(), 3),
        ("Proxy-Connection".to_string(), 4),
        ("user-agent".to_string(), 5),
    ];
    let kept = forwarded_headers(headers);
    assert_eq!(
        kept,
        vec![
            ("host".to_string(), 1),
            ("accept".to_string(), 3),
            ("user-agent".to_string(), 5),
        ]
    );
    assert_eq!(forwarded_headers(kept.clone()), kept);
}

#[test]
fn default_configuration() {
    let c = Config::default();
    assert_eq!(c.address, "127.0.0.1:8080");
    assert_eq!(c.timeout_seconds, 10);
    assert_eq!(c.max_idle_connections, 100);
    assert_eq!(c.idle_timeout_seconds, 90);
    assert_eq!(c.timeout(), Duration::from_secs(10));
    assert_eq!(c.idle_timeout(), Duration::from_secs(90));
}

#[test]
fn timeouts_follow_the_configuration() {
    let c = create_test_config();
    assert_eq!(c.timeout(), Duration::from_secs(5));
    assert_eq!(c.idle_timeout(), Duration::from_secs(30));
}

#[test]
fn connect_head_is_measured_to_its_blank_line() {
    let head = b"CONNECT 127.0.0.1:9000 HTTP/1.1\r\nHost: 127.0.0.1:9000\r\n\r\n";
    let mut data = head.to_vec();
    data.extend_from_slice(b"Hello, HTTPS tunnel!");
    assert_eq!(connect_head_len(&data), Some(head.len()));
    assert_eq!(connect_head_len(head), Some(head.len()));
    assert_eq!(connect_head_len(b"CONNECT a:1 HTTP/1.1\r\n"), None);
    assert_eq!(connect_head_len(b"\r\n\r\n"), Some(4));
    assert_eq!(connect_head_len(b"\r\n\r"), None);
    assert_eq!(connect_head_len(b""), None);
    assert_eq!(connect_head_len(b"x\r\n\r\n\r\n\r\n"), Some(5));
}

#[test]
fn every_response_header_value_is_kept() {
    let entries = vec![
        (Some("set-cookie".to_string()), "a=1"),
        (None, "b=2"),
        (Some("content-type".to_string()), "text/plain"),
        (Some("vary".to_string()), "accept"),
        (None, "origin"),
    ];
    let named = name_response_headers(entries);
    assert_eq!(
        named,
        vec![
            ("set-cookie".to_string(), "a=1"),
            ("set-cookie".to_string(), "b=2"),
            ("content-type".to_string(), "text/plain"),
            ("vary".to_string(), "accept"),
            ("vary".to_string(), "origin"),
        ]
    );
    let unnamed: Vec<(Option<String>, u8)> = vec![(None, 1), (Some("a".to_string()), 2)];
    assert_eq!(name_response_headers(unnamed), vec![("a".to_string(), 2)]);

    // As hyper hands them out: every value of a repeated header comes back.
    let mut map = hyper::HeaderMap::new();
    map.append("set-cookie", hyper::header::HeaderValue::from_static("a=1"));
    map.append("set-cookie", hyper::header::HeaderValue::from_static("b=2"));
    let entries: Vec<(Option<String>, hyper::header::HeaderValue)> = map
        .into_iter()
        .map(|(n, v)| (n.map(|n| n.as_str().to_string()), v))
        .collect();
    let named = name_response_headers(entries);
    assert_eq!(named.len(), 2);
    assert_eq!(named[1].0, "set-cookie");
    assert_eq!(named[1].1, "b=2");
}
