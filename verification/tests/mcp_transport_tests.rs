use claw_runtime::json::{JsonNumber, JsonValue};
use claw_runtime::mcp_transport::{
    build_jsonrpc_request, headers_from_map, parse_http_response, parse_jsonrpc_response,
    parse_sse_response, sse_data_payloads, JsonRpcId,
};
use claw_runtime::str_map::StrMap;

fn model(v: &serde_json::Value) -> JsonValue {
    match v {
        serde_json::Value::Null => JsonValue::Null,
        serde_json::Value::Bool(b) => JsonValue::Bool(*b),
        serde_json::Value::Number(n) => JsonValue::Number(match (n.as_u64(), n.as_i64()) {
            (Some(u), _) => JsonNumber::PosInt(u),
            (None, Some(i)) => JsonNumber::NegInt(i),
            _ => JsonNumber::Float(n.to_string()),
        }),
        serde_json::Value::String(s) => JsonValue::String(s.clone()),
        serde_json::Value::Array(a) => JsonValue::Array(a.iter().map(model).collect()),
        serde_json::Value::Object(o) => {
            JsonValue::Object(o.iter().map(|(k, x)| (k.clone(), model(x))).collect())
        }
    }
}

fn json(text: &str) -> JsonValue {
    model(&serde_json::from_str::<serde_json::Value>(text).unwrap())
}

fn member<'a>(v: &'a JsonValue, key: &str) -> Option<&'a JsonValue> {
    v.get(key)
}

#[test]
fn build_jsonrpc_request_with_params() {
    let id = JsonRpcId::Number(42);
    let params = json(r#"{"cursor": null}"#);
    let body = build_jsonrpc_request(&id, "tools/list", Some(params));

    assert_eq!(member(&body, "jsonrpc"), Some(&JsonValue::String("2.0".to_string())));
    assert_eq!(member(&body, "id"), Some(&JsonValue::Number(JsonNumber::PosInt(42))));
    assert_eq!(member(&body, "method"), Some(&JsonValue::String("tools/list".to_string())));
    assert!(matches!(member(&body, "params"), Some(JsonValue::Object(_))));
}

#[test]
fn build_jsonrpc_request_without_params() {
    let id = JsonRpcId::String("req-1".to_string());
    let body = build_jsonrpc_request(&id, "initialize", None);

    assert_eq!(member(&body, "id"), Some(&JsonValue::String("req-1".to_string())));
    assert_eq!(member(&body, "method"), Some(&JsonValue::String("initialize".to_string())));
    assert_eq!(member(&body, "params"), Some(&JsonValue::Null));
}

#[test]
fn request_members_are_in_serde_order() {
    let body = build_jsonrpc_request(&JsonRpcId::Null, "ping", None);
    match body {
        JsonValue::Object(ms) => {
            let keys: Vec<&str> = ms.iter().map(|(k, _)| k.as_str()).collect();
            assert_eq!(keys, vec!["id", "jsonrpc", "method", "params"]);
            assert_eq!(ms[0].1, JsonValue::Null);
        }
        _ => panic!("request body is not an object"),
    }
}

#[test]
fn parse_jsonrpc_response_success() {
    let raw = json(r#"{"jsonrpc": "2.0", "id": 1, "result": {"tools": [], "nextCursor": null}}"#);
    let parsed = parse_jsonrpc_response(raw).unwrap();

    assert_eq!(parsed.id, JsonRpcId::Number(1));
    assert!(parsed.error.is_none());
    let result = parsed.result.unwrap();
    assert_eq!(result.get("tools").and_then(|t| t.as_array()).map(|t| t.len()), Some(0));
}

#[test]
fn parse_jsonrpc_response_error() {
    let raw = json(r#"{"jsonrpc": "2.0", "id": 2, "error": {"code": -32601, "message": "method not found"}}"#);
    let parsed = parse_jsonrpc_response(raw).unwrap();

    assert!(parsed.result.is_none());
    let error = parsed.error.unwrap();
    assert_eq!(error.code, -32601);
    assert_eq!(error.message, "method not found");
}

#[test]
fn parse_jsonrpc_response_rejects_bad_version() {
    let raw = json(r#"{"jsonrpc": "1.0", "id": 1, "result": null}"#);
    let result = parse_jsonrpc_response(raw);
    assert!(result.is_err());
    assert!(result.unwrap_err().to_string().contains("unsupported jsonrpc version"));
}

#[test]
fn response_fields_default_when_missing_or_odd() {
    let parsed = parse_jsonrpc_response(json(
        r#"{"jsonrpc": "2.0", "id": -5, "error": {"code": "x", "data": [1]}}"#,
    ))
    .unwrap();
    assert_eq!(parsed.id, JsonRpcId::Number(0));
    assert_eq!(parsed.jsonrpc, "2.0");
    let e = parsed.error.unwrap();
    assert_eq!(e.code, -1);
    assert_eq!(e.message, "unknown error");
    assert_eq!(e.data, Some(json("[1]")));
    let no_id = parse_jsonrpc_response(json(r#"{"jsonrpc": "2.0", "id": true}"#)).unwrap();
    assert_eq!(no_id.id, JsonRpcId::Null);
    assert!(no_id.result.is_none());
    let e = parse_jsonrpc_response(json(r#"{"id": 1}"#)).unwrap_err();
    assert_eq!(e.to_string(), "unsupported jsonrpc version: ");
    let e = parse_jsonrpc_response(JsonValue::Bool(true)).unwrap_err();
    assert_eq!(e.to_string(), "unsupported jsonrpc version: ");
}

#[test]
fn parse_sse_response_extracts_tools_list() {
    let sse_body = "\
event: message\n\
data: {\"jsonrpc\":\"2.0\",\"id\":1,\"result\":{\"tools\":[{\"name\":\"echo\",\"description\":\"Echo tool\"}]}}\n\
\n";
    let parsed = parse_sse_response(sse_body).expect("should parse SSE");
    assert_eq!(parsed.id, JsonRpcId::Number(1));
    let result = parsed.result.expect("should have result");
    let tools = result.get("tools").and_then(|t| t.as_array()).unwrap();
    assert_eq!(tools.len(), 1);
    assert_eq!(tools[0].get("name").and_then(|n| n.as_str()), Some("echo"));
}

#[test]
fn parse_sse_response_handles_data_without_space() {
    let sse_body = "data:{\"jsonrpc\":\"2.0\",\"id\":2,\"result\":{\"tools\":[]}}\n";
    let parsed = parse_sse_response(sse_body).expect("should parse SSE without space");
    assert_eq!(parsed.id, JsonRpcId::Number(2));
    let result = parsed.result.unwrap();
    assert!(result.get("tools").and_then(|t| t.as_array()).unwrap().is_empty());
}

#[test]
fn parse_sse_response_skips_non_jsonrpc_lines() {
    let sse_body = "\
event: ping\n\
data: {\"type\":\"keepalive\"}\n\
\n\
event: message\n\
data: {\"jsonrpc\":\"2.0\",\"id\":3,\"result\":{\"tools\":[]}}\n\
\n";
    let parsed = parse_sse_response(sse_body).expect("should skip non-jsonrpc data");
    assert_eq!(parsed.id, JsonRpcId::Number(3));
}

#[test]
fn parse_sse_response_errors_on_empty_stream() {
    let sse_body = "event: ping\ndata: \n\n";
    let result = parse_sse_response(sse_body);
    assert!(result.is_err());
    assert!(
        result.unwrap_err().to_string().contains("no JSON-RPC response"),
        "should report missing JSON-RPC"
    );
}

#[test]
fn parse_sse_response_extracts_error() {
    let sse_body =
        "data: {\"jsonrpc\":\"2.0\",\"id\":4,\"error\":{\"code\":-32601,\"message\":\"not found\"}}\n";
    let parsed = parse_sse_response(sse_body).expect("should parse SSE error");
    assert!(parsed.result.is_none());
    let error = parsed.error.expect("should have error");
    assert_eq!(error.code, -32601);
    assert_eq!(error.message, "not found");
}

#[test]
fn sse_payloads_are_trimmed_data_lines() {
    let text = "event: x\r\ndata:  a \r\ndata:\ndata:b\nnot data: c\n";
    assert_eq!(sse_data_payloads(text), vec!["a".to_string(), "b".to_string()]);
    assert!(sse_data_payloads("").is_empty());
}

#[test]
fn http_reply_is_parsed_by_content_type() {
    let r = parse_http_response(
        "text/event-stream; charset=utf-8",
        "data: {\"jsonrpc\":\"2.0\",\"id\":7}\n",
    )
    .unwrap();
    assert_eq!(r.id, JsonRpcId::Number(7));
    let r = parse_http_response("application/json", "{\"jsonrpc\":\"2.0\",\"id\":\"a\"}").unwrap();
    assert_eq!(r.id, JsonRpcId::String("a".to_string()));
    let e = parse_http_response("application/json", "not json").unwrap_err();
    assert!(!e.to_string().is_empty());
}

#[test]
fn headers_from_map_converts_correctly() {
    let mut map = StrMap::new();
    map.insert("Authorization".to_string(), "Bearer tok".to_string());
    map.insert("X-Custom".to_string(), "value".to_string());
    let headers = headers_from_map(&map);
    assert_eq!(headers.len(), 2);
    assert!(headers.contains(&("Authorization".to_string(), "Bearer tok".to_string())));
}

#[test]
fn headers_come_in_name_order() {
    let mut map = StrMap::new();
    map.insert("b".to_string(), "2".to_string());
    map.insert("a".to_string(), "1".to_string());
    map.insert("b".to_string(), "3".to_string());
    assert_eq!(
        headers_from_map(&map),
        vec![("a".to_string(), "1".to_string()), ("b".to_string(), "3".to_string())]
    );
}

#[test]
fn sse_skips_payloads_the_parser_rejects() {
    let sse_body = "data: {\"jsonrpc\":\"1.0\",\"id\":1}\ndata: {\"jsonrpc\":\"2.0\",\"id\":9,\"result\":{}}\n";
    let parsed = parse_sse_response(sse_body).expect("the valid response is used");
    assert_eq!(parsed.id, JsonRpcId::Number(9));
    let only_bad = "data: {\"jsonrpc\":\"1.0\",\"id\":1}\n";
    assert!(parse_sse_response(only_bad).unwrap_err().to_string().contains("no JSON-RPC response"));
}
