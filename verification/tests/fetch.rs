use base64::Engine;
use fetch_mcp_rust::config::Config;
use fetch_mcp_rust::fetch_tool::{
    can_encode, collect_headers, decode_header, fetch_result, parse_headers, read_limited, Body,
    BodyCollector, FetchError, FetchInput, FetchTool, Reply, Response,
};
use fetch_mcp_rust::json::Json;

fn tool(allowlist: &str) -> FetchTool {
    FetchTool::new(Config::try_from_env(Some(allowlist), Some("1500"), Some("64")).unwrap())
}

fn args(doc: &str) -> Json {
    Json::parse(doc.as_bytes()).unwrap()
}

fn answered(status: u16, chunks: &[&[u8]]) -> Reply {
    Reply::Answered(Response {
        status,
        headers: vec![("content-type".to_string(), b"text/plain".to_vec())],
        chunks: chunks.iter().map(|c| c.to_vec()).collect(),
        broken: None,
    })
}

fn text(value: &Json) -> String {
    String::from_utf8(value.encode()).unwrap()
}

fn body_of(result: &Json) -> (Vec<u8>, bool) {
    let body = result.get("body").unwrap();
    assert_eq!(body.get("type").unwrap().as_str(), Some("base64"));
    let data = body.get("data").unwrap().as_str().unwrap();
    let truncated = matches!(body.get("truncated"), Some(Json::Bool(true)));
    (base64::engine::general_purpose::STANDARD.decode(data).unwrap(), truncated)
}

#[test]
fn body_longer_than_the_limit_is_cut_at_the_limit() {
    let t = tool("https://*");
    let r = t
        .call(&args(r#"{"url":"https://example.com/","maxBytes":4}"#), &answered(200, &[b"hello ", b"world"]))
        .unwrap();
    let (body, truncated) = body_of(&r);
    assert_eq!(body, b"hell");
    assert!(truncated);
    assert_eq!(
        text(&r),
        r#"{"body":{"data":"aGVsbA==","truncated":true,"type":"base64"},"headers":[["content-type","text/plain"]],"status":200}"#
    );
}

#[test]
fn body_that_fits_the_limit_is_kept_whole() {
    let t = tool("https://*");
    for max in [11, 12, 1000] {
        let doc = format!(r#"{{"url":"https://example.com/","maxBytes":{}}}"#, max);
        let r = t.call(&args(&doc), &answered(200, &[b"hello ", b"", b"world"])).unwrap();
        let (body, truncated) = body_of(&r);
        assert_eq!(body, b"hello world");
        assert!(!truncated);
    }
}

#[test]
fn limit_of_the_configuration_holds_where_none_is_asked_for() {
    let t = tool("https://*");
    let long = vec![7u8; 100];
    let r = t.call(&args(r#"{"url":"https://example.com/"}"#), &answered(200, &[&long])).unwrap();
    let (body, truncated) = body_of(&r);
    assert_eq!(body, vec![7u8; 64]);
    assert!(truncated);
}

#[test]
fn limit_of_zero_keeps_nothing() {
    let t = tool("https://*");
    let r = t.call(&args(r#"{"url":"https://example.com/","maxBytes":0}"#), &answered(200, &[b"x"])).unwrap();
    assert_eq!(body_of(&r), (Vec::new(), true));
    let r = t.call(&args(r#"{"url":"https://example.com/","maxBytes":0}"#), &answered(204, &[])).unwrap();
    assert_eq!(body_of(&r), (Vec::new(), false));
}

#[test]
fn chunks_are_gathered_up_to_the_limit() {
    let chunks = vec![b"ab".to_vec(), b"cde".to_vec(), b"f".to_vec()];
    assert_eq!(read_limited(&chunks, 10), (b"abcdef".to_vec(), false));
    assert_eq!(read_limited(&chunks, 6), (b"abcdef".to_vec(), false));
    assert_eq!(read_limited(&chunks, 5), (b"abcde".to_vec(), true));
    assert_eq!(read_limited(&chunks, 3), (b"abc".to_vec(), true));
    assert_eq!(read_limited(&chunks, 2), (b"ab".to_vec(), true));
    assert_eq!(read_limited(&chunks, 0), (Vec::new(), true));
    assert_eq!(read_limited(&Vec::new(), 0), (Vec::new(), false));
}

#[test]
fn collector_stops_at_the_limit() {
    let mut c = BodyCollector::new(5);
    assert!(c.accept(b"abc"));
    assert_eq!(c.data, b"abc");
    assert!(!c.truncated);
    assert!(c.accept(b"de"));
    assert_eq!(c.data, b"abcde");
    assert!(c.accept(b""));
    assert!(!c.accept(b"fgh"));
    assert_eq!(c.data, b"abcde");
    assert!(c.truncated);
    assert!(!c.accept(b"more"));
    assert_eq!(c.data, b"abcde");
    let mut c = BodyCollector::new(4);
    assert!(!c.accept(b"abcdefgh"));
    assert_eq!(c.data, b"abcd");
    assert!(c.truncated);
}

#[test]
fn timed_out_request_fails_with_the_timeout_message() {
    let t = tool("https://*");
    let e = t.call(&args(r#"{"url":"https://example.com/","timeoutMs":1}"#), &Reply::TimedOut).unwrap_err();
    assert!(matches!(e, FetchError::Timeout));
    assert_eq!(e.message(), "request timed out");
}

#[test]
fn failed_transfer_is_reported_with_its_text() {
    let t = tool("https://*");
    let e = t
        .call(&args(r#"{"url":"https://example.com/"}"#), &Reply::Failed("connection refused".to_string()))
        .unwrap_err();
    assert!(matches!(e, FetchError::Transport(ref m) if m == "connection refused"));
    assert_eq!(e.message(), "connection refused");
}

#[test]
fn transfer_that_breaks_in_the_body_fails_unless_the_limit_came_first() {
    let t = tool("https://*");
    let broken = |chunks: &[&[u8]]| {
        Reply::Answered(Response {
            status: 200,
            headers: Vec::new(),
            chunks: chunks.iter().map(|c| c.to_vec()).collect(),
            broken: Some("reset".to_string()),
        })
    };
    let e = t.call(&args(r#"{"url":"https://example.com/","maxBytes":5}"#), &broken(&[b"abc"])).unwrap_err();
    assert_eq!(e.message(), "reset");
    let e = t.call(&args(r#"{"url":"https://example.com/","maxBytes":3}"#), &broken(&[b"abc"])).unwrap_err();
    assert_eq!(e.message(), "reset");
    let r = t.call(&args(r#"{"url":"https://example.com/","maxBytes":2}"#), &broken(&[b"abc"])).unwrap();
    assert_eq!(body_of(&r), (b"ab".to_vec(), true));
}

#[test]
fn file_url_is_rejected_before_any_request() {
    let t = tool("*");
    let a = args(r#"{"url":"file:///etc/passwd"}"#);
    let e = t.prepare(&a).unwrap_err();
    assert!(matches!(e, FetchError::SchemeRejected));
    assert_eq!(e.message(), "Only http and https are allowed");
    for reply in [Reply::TimedOut, Reply::Failed("x".to_string()), answered(200, &[b"secret"])] {
        assert!(matches!(t.call(&a, &reply), Err(FetchError::SchemeRejected)));
    }
    assert!(matches!(t.prepare(&args(r#"{"url":"ftp://example.com/"}"#)), Err(FetchError::SchemeRejected)));
}

#[test]
fn url_outside_the_allowlist_is_rejected_before_any_request() {
    let t = tool("example.com/*");
    let a = args(r#"{"url":"https://evil.com/"}"#);
    let e = t.prepare(&a).unwrap_err();
    assert!(matches!(e, FetchError::AllowlistRejected));
    assert_eq!(e.message(), "URL not allowed by allowlist");
    for reply in [Reply::TimedOut, Reply::Failed("x".to_string()), answered(200, &[b"secret"])] {
        assert!(matches!(t.call(&a, &reply), Err(FetchError::AllowlistRejected)));
    }
    assert!(t.prepare(&args(r#"{"url":"https://example.com/ok"}"#)).is_ok());
}

#[test]
fn url_that_does_not_parse_is_rejected() {
    let t = tool("https://*");
    let e = t.prepare(&args(r#"{"url":"not a url"}"#)).unwrap_err();
    assert!(matches!(e, FetchError::InvalidUrl));
    assert_eq!(e.message(), "Invalid URL");
}

#[test]
fn malformed_arguments_are_rejected() {
    let t = tool("https://*");
    for doc in [
        "null",
        "[]",
        r#""https://example.com/""#,
        "{}",
        r#"{"url":null}"#,
        r#"{"url":5}"#,
        r#"{"url":"https://example.com/","method":5}"#,
        r#"{"url":"https://example.com/","headers":"h"}"#,
        r#"{"url":"https://example.com/","headers":["a"]}"#,
        r#"{"url":"https://example.com/","headers":{"a":1}}"#,
        r#"{"url":"https://example.com/","timeoutMs":"1"}"#,
        r#"{"url":"https://example.com/","timeoutMs":-1}"#,
        r#"{"url":"https://example.com/","timeoutMs":1.5}"#,
        r#"{"url":"https://example.com/","maxBytes":-1}"#,
        r#"{"url":"https://example.com/","maxBytes":true}"#,
    ] {
        let e = t.prepare(&args(doc)).unwrap_err();
        assert!(matches!(e, FetchError::InvalidInput), "{}", doc);
        assert_eq!(e.message(), "Invalid fetch args");
        assert!(FetchInput::from_json(&args(doc)).is_none(), "{}", doc);
    }
}

#[test]
fn plan_takes_what_is_asked_for() {
    let t = tool("https://*");
    let p = t
        .prepare(&args(
            r#"{"url":"HTTPS://Example.com/a?b=c","method":"POST","headers":{"X-B":"2","X-A":"1"},"body":"raw","timeoutMs":7,"maxBytes":9,"other":true}"#,
        ))
        .unwrap();
    assert_eq!(p.url, "https://example.com/a?b=c");
    assert_eq!(p.method, "POST");
    assert_eq!(p.headers, vec![("X-A".to_string(), "1".to_string()), ("X-B".to_string(), "2".to_string())]);
    assert!(matches!(p.body, Some(Body::Text(ref s)) if s == "raw"));
    assert_eq!(p.timeout_ms, 7);
    assert_eq!(p.max_bytes, 9);
}

#[test]
fn plan_defaults_to_get_and_the_configuration() {
    let t = tool("https://*");
    let p = t.prepare(&args(r#"{"url":"https://example.com","method":null,"headers":null,"body":null}"#)).unwrap();
    assert_eq!(p.url, "https://example.com/");
    assert_eq!(p.method, "GET");
    assert!(p.headers.is_empty());
    assert!(p.body.is_none());
    assert_eq!(p.timeout_ms, 1500);
    assert_eq!(p.max_bytes, 64);
}

#[test]
fn method_that_is_no_method_falls_back_to_get() {
    let t = tool("https://*");
    for (asked, want) in [
        ("DELETE", "DELETE"),
        ("get", "get"),
        ("PURGE", "PURGE"),
        ("X-CUSTOM_METHOD.1~!#$%&'*+^`|", "X-CUSTOM_METHOD.1~!#$%&'*+^`|"),
        ("", "GET"),
        ("BAD METHOD", "GET"),
        ("GE\u{e9}T", "GET"),
        ("A/B", "GET"),
        ("A:B", "GET"),
        ("(A)", "GET"),
        ("a\"b", "GET"),
        ("A,B", "GET"),
        ("A;B", "GET"),
        ("A<B>", "GET"),
        ("A=B", "GET"),
        ("A?B", "GET"),
        ("A@B", "GET"),
        ("[A]", "GET"),
        ("{A}", "GET"),
        ("A\\B", "GET"),
        ("A\tB", "GET"),
        ("A\u{7f}", "GET"),
    ] {
        let doc = Json::Object(vec![
            ("url".to_string(), Json::text("https://example.com/")),
            ("method".to_string(), Json::text(asked)),
        ]);
        let p = t.prepare(&doc).unwrap();
        assert_eq!(p.method, want, "{:?}", asked);
        assert_eq!(reqwest::Method::from_bytes(asked.as_bytes()).is_ok(), asked == want, "{:?}", asked);
    }
}

#[test]
fn body_that_is_a_string_is_text_and_any_other_is_json() {
    let t = tool("https://*");
    let p = t.prepare(&args(r#"{"url":"https://example.com/","body":"{\"a\":1}"}"#)).unwrap();
    assert!(matches!(p.body, Some(Body::Text(ref s)) if s == "{\"a\":1}"));
    let p = t.prepare(&args(r#"{"url":"https://example.com/","body":{"a":[1,2]}}"#)).unwrap();
    assert!(matches!(p.body, Some(Body::Json(ref j)) if text(j) == r#"{"a":[1,2]}"#));
    let p = t.prepare(&args(r#"{"url":"https://example.com/","body":[1]}"#)).unwrap();
    assert!(matches!(p.body, Some(Body::Json(ref j)) if text(j) == "[1]"));
    let p = t.prepare(&args(r#"{"url":"https://example.com/","body":5}"#)).unwrap();
    assert!(matches!(p.body, Some(Body::Json(ref j)) if text(j) == "5"));
}

#[test]
fn later_header_of_a_name_takes_the_place_of_an_earlier_one() {
    let doc = Json::Object(vec![
        ("a".to_string(), Json::text("1")),
        ("b".to_string(), Json::text("2")),
        ("a".to_string(), Json::text("3")),
        ("c".to_string(), Json::text("4")),
    ]);
    let want = vec![
        ("b".to_string(), "2".to_string()),
        ("a".to_string(), "3".to_string()),
        ("c".to_string(), "4".to_string()),
    ];
    assert_eq!(parse_headers(&doc), Some(want));
    assert_eq!(parse_headers(&args("{}")), Some(Vec::new()));
    assert_eq!(parse_headers(&args(r#"{"a":"1","b":2}"#)), None);
    assert_eq!(parse_headers(&args("[]")), None);
}

#[test]
fn response_headers_are_kept_in_order_and_bad_values_are_empty() {
    let raw = vec![
        ("content-type".to_string(), b"text/html; charset=utf-8".to_vec()),
        ("set-cookie".to_string(), b"a=1".to_vec()),
        ("x-bad".to_string(), vec![b'o', b'k', 0xff]),
        ("set-cookie".to_string(), b"b=2".to_vec()),
        ("x-tab".to_string(), b"a\tb".to_vec()),
        ("x-empty".to_string(), Vec::new()),
    ];
    let want = vec![
        ("content-type".to_string(), "text/html; charset=utf-8".to_string()),
        ("set-cookie".to_string(), "a=1".to_string()),
        ("x-bad".to_string(), String::new()),
        ("set-cookie".to_string(), "b=2".to_string()),
        ("x-tab".to_string(), "a\tb".to_string()),
        ("x-empty".to_string(), String::new()),
    ];
    assert_eq!(collect_headers(&raw), want);
}

#[test]
fn header_values_decode_as_the_http_crate_decodes_them() {
    for b in 0u8..=255 {
        let value = vec![b'a', b, b'z'];
        let want = match reqwest::header::HeaderValue::from_bytes(&value) {
            Ok(v) => v.to_str().unwrap_or("").to_string(),
            Err(_) => match std::str::from_utf8(&value) {
                Ok(s) if b == b'\t' || (32..127).contains(&b) => s.to_string(),
                _ => String::new(),
            },
        };
        assert_eq!(decode_header(&value), want, "byte {}", b);
    }
}

#[test]
fn result_holds_status_headers_and_encoded_body() {
    let headers = vec![("a".to_string(), "1".to_string()), ("b".to_string(), String::new())];
    let r = fetch_result(404, &headers, &[0, 255, 16], false);
    assert_eq!(
        text(&r),
        r#"{"body":{"data":"AP8Q","truncated":false,"type":"base64"},"headers":[["a","1"],["b",""]],"status":404}"#
    );
    let r = fetch_result(200, &Vec::new(), b"hello world", true);
    assert_eq!(
        text(&r),
        r#"{"body":{"data":"aGVsbG8gd29ybGQ=","truncated":true,"type":"base64"},"headers":[],"status":200}"#
    );
    let r = fetch_result(200, &Vec::new(), b"", false);
    assert_eq!(body_of(&r), (Vec::new(), false));
}

#[test]
fn bodies_of_any_sane_length_can_be_encoded() {
    assert!(can_encode(0));
    assert!(can_encode(5 * 1024 * 1024));
    assert!(can_encode(isize::MAX as usize / 2));
    assert!(!can_encode(usize::MAX));
    assert!(!can_encode(isize::MAX as usize));
}

#[test]
fn method_names_are_judged_as_the_http_crate_judges_them() {
    let t = tool("https://*");
    for code in 0u32..0x250 {
        let c = char::from_u32(code).unwrap();
        for name in [c.to_string(), format!("A{}", c), format!("{}B", c)] {
            let doc = Json::Object(vec![
                ("url".to_string(), Json::text("https://example.com/")),
                ("method".to_string(), Json::text(&name)),
            ]);
            let want = match reqwest::Method::from_bytes(name.as_bytes()) {
                Ok(m) => m.as_str().to_string(),
                Err(_) => "GET".to_string(),
            };
            assert_eq!(t.prepare(&doc).unwrap().method, want, "{:?}", name);
        }
    }
    let long = "LONGER-THAN-FIFTEEN-BYTES".to_string();
    let doc = Json::Object(vec![
        ("url".to_string(), Json::text("https://example.com/")),
        ("method".to_string(), Json::text(&long)),
    ]);
    assert_eq!(t.prepare(&doc).unwrap().method, long);
}

#[test]
fn plan_is_decided_from_the_parsed_url_and_the_allowlist() {
    let input = |doc: &str| FetchInput::from_json(&args(doc)).unwrap();
    let target = |scheme: &str, href: &str| {
        Some(fetch_mcp_rust::config::ParsedUrl { scheme: scheme.to_string(), href: href.to_string() })
    };
    let doc = r#"{"url":"u","method":"HEAD","maxBytes":3}"#;
    assert!(matches!(FetchTool::plan(input(doc), None, true, 1, 2), Err(FetchError::InvalidUrl)));
    assert!(matches!(
        FetchTool::plan(input(doc), target("file", "file:///x"), true, 1, 2),
        Err(FetchError::SchemeRejected)
    ));
    assert!(matches!(
        FetchTool::plan(input(doc), target("ftp", "ftp://x/"), false, 1, 2),
        Err(FetchError::SchemeRejected)
    ));
    assert!(matches!(
        FetchTool::plan(input(doc), target("https", "https://x/"), false, 1, 2),
        Err(FetchError::AllowlistRejected)
    ));
    let p = FetchTool::plan(input(doc), target("http", "http://x/"), true, 1, 2).unwrap();
    assert_eq!(p.url, "http://x/");
    assert_eq!(p.method, "HEAD");
    assert_eq!(p.timeout_ms, 1);
    assert_eq!(p.max_bytes, 3);
    let p = FetchTool::plan(input(r#"{"url":"u","timeoutMs":8}"#), target("https", "https://y/"), true, 1, 2).unwrap();
    assert_eq!(p.url, "https://y/");
    assert_eq!(p.method, "GET");
    assert_eq!(p.timeout_ms, 8);
    assert_eq!(p.max_bytes, 2);
}

#[test]
fn result_is_assembled_from_the_encoded_text() {
    let headers = vec![("h".to_string(), "v".to_string())];
    let r = fetch_mcp_rust::fetch_tool::result_json(201, &headers, "QUJD".to_string(), true);
    assert_eq!(
        text(&r),
        r#"{"body":{"data":"QUJD","truncated":true,"type":"base64"},"headers":[["h","v"]],"status":201}"#
    );
}
