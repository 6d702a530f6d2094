use base64::Engine;
use fetch_mcp_rust::config::Config;
use fetch_mcp_rust::fetch_tool::{FetchError, FetchTool, Reply, Response};
use fetch_mcp_rust::json::Json;
use fetch_mcp_rust::mcp::jsonrpc::{Id, JsonRpcRequest};
use fetch_mcp_rust::mcp::stdio::{read_message, write_message};
use fetch_mcp_rust::server::{
    dispatch, finish_tools_call, handle_initialize, handle_message, handle_request,
    handle_tools_call, handle_tools_list, start_tools_call, Step,
};

fn tool() -> FetchTool {
    FetchTool::new(Config::try_from_env(Some("http://127.0.0.1:*, example.com/*"), None, None).unwrap())
}

fn mock() -> Reply {
    Reply::Answered(Response {
        status: 200,
        headers: vec![
            ("content-length".to_string(), b"15".to_vec()),
            ("connection".to_string(), b"close".to_vec()),
        ],
        chunks: vec![b"hello from mock".to_vec()],
        broken: None,
    })
}

fn request(doc: &str) -> JsonRpcRequest {
    JsonRpcRequest::decode(doc.as_bytes()).unwrap()
}

fn answer(doc: &str, reply: &Reply) -> serde_json::Value {
    let bytes = handle_message(doc.as_bytes(), &tool(), reply).unwrap();
    serde_json::from_slice(&bytes).unwrap()
}

fn error_of(value: &serde_json::Value) -> (i64, String) {
    assert!(value.get("result").is_none());
    let e = value.get("error").unwrap();
    (e["code"].as_i64().unwrap(), e["message"].as_str().unwrap().to_string())
}

#[test]
fn e2e_fetch_happy_path() {
    let listed = answer(r#"{"jsonrpc":"2.0","id":1,"method":"tools/list"}"#, &Reply::TimedOut);
    assert_eq!(listed["jsonrpc"], "2.0");
    assert_eq!(listed["id"], 1);
    let tools = listed["result"]["tools"].as_array().unwrap();
    assert_eq!(tools.len(), 1);
    assert_eq!(tools[0]["name"], "fetch");

    let called = answer(
        r#"{"jsonrpc":"2.0","id":2,"method":"tools/call","params":{"name":"fetch","arguments":{"url":"http://127.0.0.1:8080","timeoutMs":5000,"maxBytes":10000}}}"#,
        &mock(),
    );
    assert_eq!(called["id"], 2);
    assert!(called.get("error").is_none());
    let result = &called["result"];
    assert_eq!(result["status"], 200);
    assert_eq!(result["body"]["type"], "base64");
    assert_eq!(result["body"]["truncated"], false);
    let data = result["body"]["data"].as_str().unwrap();
    assert_eq!(data, "aGVsbG8gZnJvbSBtb2Nr");
    assert_eq!(base64::engine::general_purpose::STANDARD.decode(data).unwrap(), b"hello from mock");
    let headers = result["headers"].as_array().unwrap();
    assert_eq!(headers.len(), 2);
    assert_eq!(headers[0][0], "content-length");
    assert_eq!(headers[0][1], "15");
    assert_eq!(headers[1][0], "connection");
    assert_eq!(headers[1][1], "close");
}

#[test]
fn e2e_over_the_framed_stream() {
    let mut inbound: Vec<u8> = Vec::new();
    write_message(&mut inbound, br#"{"jsonrpc":"2.0","id":"a","method":"initialize"}"#);
    write_message(&mut inbound, b"junk");
    write_message(&mut inbound, br#"{"jsonrpc":"2.0","id":"b","method":"nope"}"#);
    let mut outbound: Vec<u8> = Vec::new();
    let mut at = 0;
    while at < inbound.len() {
        let (message, used) = read_message(&inbound[at..]).unwrap();
        at += used;
        if let Some(bytes) = handle_message(&message, &tool(), &Reply::TimedOut) {
            write_message(&mut outbound, &bytes);
        }
    }
    let (first, used) = read_message(&outbound).unwrap();
    assert_eq!(
        String::from_utf8(first).unwrap(),
        r#"{"id":"a","jsonrpc":"2.0","result":{"capabilities":{"tools":true},"protocolVersion":"2024-11-05"}}"#
    );
    let (second, rest) = read_message(&outbound[used..]).unwrap();
    assert_eq!(
        String::from_utf8(second).unwrap(),
        r#"{"error":{"code":-32601,"message":"Unknown method"},"id":"b","jsonrpc":"2.0"}"#
    );
    assert_eq!(used + rest, outbound.len());
}

#[test]
fn tools_list_holds_the_one_tool_with_its_schema() {
    let bytes = handle_tools_list(&request(r#"{"jsonrpc":"2.0","id":1,"method":"tools/list"}"#)).encode();
    assert_eq!(
        String::from_utf8(bytes).unwrap(),
        r#"{"id":1,"jsonrpc":"2.0","result":{"tools":[{"description":"Perform HTTP requests with allowlist restrictions","inputSchema":{"additionalProperties":false,"properties":{"body":{"oneOf":[{"type":"string"},{"type":"object"}]},"headers":{"additionalProperties":{"type":"string"},"type":"object"},"maxBytes":{"type":"number"},"method":{"default":"GET","type":"string"},"timeoutMs":{"type":"number"},"url":{"type":"string"}},"required":["url"],"type":"object"},"name":"fetch"}]}}"#
    );
}

#[test]
fn initialize_gives_version_and_capabilities() {
    let bytes = handle_initialize(&request(r#"{"jsonrpc":"2.0","id":7,"method":"initialize","params":{}}"#)).encode();
    assert_eq!(
        String::from_utf8(bytes).unwrap(),
        r#"{"id":7,"jsonrpc":"2.0","result":{"capabilities":{"tools":true},"protocolVersion":"2024-11-05"}}"#
    );
}

#[test]
fn unknown_method_is_method_not_found() {
    let value = answer(r#"{"jsonrpc":"2.0","id":3,"method":"resources/list"}"#, &mock());
    assert_eq!(value["id"], 3);
    assert_eq!(error_of(&value), (-32601, "Unknown method".to_string()));
    let value = answer(r#"{"jsonrpc":"2.0","id":3,"method":"Initialize"}"#, &mock());
    assert_eq!(error_of(&value).0, -32601);
}

#[test]
fn invalid_params_are_reported() {
    for doc in [
        r#"{"jsonrpc":"2.0","id":4,"method":"tools/call"}"#,
        r#"{"jsonrpc":"2.0","id":4,"method":"tools/call","params":null}"#,
        r#"{"jsonrpc":"2.0","id":4,"method":"tools/call","params":[]}"#,
        r#"{"jsonrpc":"2.0","id":4,"method":"tools/call","params":{}}"#,
        r#"{"jsonrpc":"2.0","id":4,"method":"tools/call","params":{"name":5}}"#,
        r#"{"jsonrpc":"2.0","id":4,"method":"tools/call","params":{"arguments":{"url":"https://example.com/"}}}"#,
    ] {
        assert_eq!(error_of(&answer(doc, &mock())), (-32602, "Invalid params".to_string()), "{}", doc);
    }
}

#[test]
fn unknown_tool_is_reported() {
    let value = answer(
        r#"{"jsonrpc":"2.0","id":5,"method":"tools/call","params":{"name":"RFetch","arguments":{"url":"https://example.com/"}}}"#,
        &mock(),
    );
    assert_eq!(error_of(&value), (-32602, "Unknown tool".to_string()));
}

#[test]
fn fetch_failures_are_internal_errors_with_their_message() {
    let call = |arguments: &str| {
        format!(
            r#"{{"jsonrpc":"2.0","id":6,"method":"tools/call","params":{{"name":"fetch","arguments":{}}}}}"#,
            arguments
        )
    };
    let cases = [
        (call(r#"{"url":"file:///etc/passwd"}"#), mock(), "Only http and https are allowed"),
        (call(r#"{"url":"https://evil.com/"}"#), mock(), "URL not allowed by allowlist"),
        (call(r#"{"url":"::"}"#), mock(), "Invalid URL"),
        (call(r#"{"uri":"https://example.com/"}"#), mock(), "Invalid fetch args"),
        (call(r#"{"url":"https://example.com/x"}"#), Reply::TimedOut, "request timed out"),
        (call(r#"{"url":"https://example.com/x"}"#), Reply::Failed("dns error".to_string()), "dns error"),
    ];
    for (doc, reply, message) in cases {
        let value = answer(&doc, &reply);
        assert_eq!(value["id"], 6);
        assert_eq!(error_of(&value), (-32603, message.to_string()), "{}", doc);
    }
    let missing = r#"{"jsonrpc":"2.0","id":6,"method":"tools/call","params":{"name":"fetch"}}"#;
    assert_eq!(error_of(&answer(missing, &mock())), (-32603, "Invalid fetch args".to_string()));
}

#[test]
fn what_is_no_request_gets_no_answer() {
    for doc in ["", "junk", "[]", r#"{"jsonrpc":"2.0","method":"notifications/initialized"}"#, r#"{"id":1}"#] {
        assert!(handle_message(doc.as_bytes(), &tool(), &mock()).is_none(), "{}", doc);
    }
}

#[test]
fn a_call_is_started_then_finished() {
    let t = tool();
    let req = request(
        r#"{"jsonrpc":"2.0","id":9,"method":"tools/call","params":{"name":"fetch","arguments":{"url":"https://example.com/a","method":"PUT","body":{"k":1},"maxBytes":3}}}"#,
    );
    let plan = match dispatch(&req, &t) {
        Step::Fetch(plan) => plan,
        Step::Respond(r) => panic!("{:?}", r),
    };
    assert_eq!(plan.url, "https://example.com/a");
    assert_eq!(plan.method, "PUT");
    assert_eq!(plan.timeout_ms, 15000);
    assert_eq!(plan.max_bytes, 3);
    assert!(matches!(start_tools_call(&req, &t), Step::Fetch(_)));
    let done = finish_tools_call(Id::Number(9), Ok(Json::unsigned(1)));
    assert_eq!(String::from_utf8(done.encode()).unwrap(), r#"{"id":9,"jsonrpc":"2.0","result":1}"#);
    let failed = finish_tools_call(Id::Number(9), Err(FetchError::Timeout));
    assert_eq!(
        String::from_utf8(failed.encode()).unwrap(),
        r#"{"error":{"code":-32603,"message":"request timed out"},"id":9,"jsonrpc":"2.0"}"#
    );
}

#[test]
fn methods_that_need_no_request_are_answered_at_once() {
    let t = tool();
    for doc in [
        r#"{"jsonrpc":"2.0","id":1,"method":"initialize"}"#,
        r#"{"jsonrpc":"2.0","id":1,"method":"tools/list"}"#,
        r#"{"jsonrpc":"2.0","id":1,"method":"other"}"#,
        r#"{"jsonrpc":"2.0","id":1,"method":"tools/call","params":{"name":"fetch","arguments":{"url":"file:///x"}}}"#,
    ] {
        assert!(matches!(dispatch(&request(doc), &t), Step::Respond(_)), "{}", doc);
    }
}

#[test]
fn a_truncated_body_is_reported_through_the_call() {
    let t = tool();
    let req = request(
        r#"{"jsonrpc":"2.0","id":1,"method":"tools/call","params":{"name":"fetch","arguments":{"url":"https://example.com/","maxBytes":5}}}"#,
    );
    for r in [handle_tools_call(&req, &t, &mock()), handle_request(&req, &t, &mock())] {
        let value: serde_json::Value = serde_json::from_slice(&r.encode()).unwrap();
        assert_eq!(value["result"]["body"]["truncated"], true);
        let data = value["result"]["body"]["data"].as_str().unwrap();
        assert_eq!(base64::engine::general_purpose::STANDARD.decode(data).unwrap(), b"hello");
    }
}
