use claw_runtime::ide_bridge::{diagnostics_response, execute_response, IdeBridge};

#[test]
fn test_is_connected_default_false() {
    let bridge = IdeBridge::new();
    assert!(!bridge.is_connected());
}

#[test]
fn test_connect_transitions_state() {
    let bridge = IdeBridge::new();
    assert!(!bridge.is_connected());
    bridge.connect("vscode".to_string());
    assert!(bridge.is_connected());
}

#[test]
fn test_disconnected_diagnostics() {
    let bridge = IdeBridge::new();
    let result = bridge.get_diagnostics(Some("/tmp/test.rs")).unwrap();
    let parsed: serde_json::Value = serde_json::from_str(&result).unwrap();
    assert_eq!(parsed["status"], "not_connected");
    assert!(parsed["diagnostics"].as_array().unwrap().is_empty());
}

#[test]
fn test_disconnected_diagnostics_no_path() {
    let bridge = IdeBridge::new();
    let result = bridge.get_diagnostics(None).unwrap();
    let parsed: serde_json::Value = serde_json::from_str(&result).unwrap();
    assert_eq!(parsed["status"], "not_connected");
}

#[test]
fn test_disconnected_execute() {
    let bridge = IdeBridge::new();
    let result = bridge
        .execute_code("print('hello')", "python")
        .unwrap();
    let parsed: serde_json::Value = serde_json::from_str(&result).unwrap();
    assert_eq!(parsed["status"], "not_connected");
}

#[test]
fn test_connected_diagnostics() {
    let bridge = IdeBridge::new();
    bridge.connect("vscode".to_string());
    let result = bridge.get_diagnostics(Some("/tmp/test.rs")).unwrap();
    let parsed: serde_json::Value = serde_json::from_str(&result).unwrap();
    assert_eq!(parsed["status"], "connected");
    assert_eq!(parsed["path"], "/tmp/test.rs");
}

#[test]
fn test_connected_execute() {
    let bridge = IdeBridge::new();
    bridge.connect("vscode".to_string());
    let result = bridge.execute_code("1+1", "python").unwrap();
    let parsed: serde_json::Value = serde_json::from_str(&result).unwrap();
    assert_eq!(parsed["status"], "connected");
    assert_eq!(parsed["language"], "python");
}

#[test]
fn replies_are_compact_json_with_sorted_keys() {
    assert_eq!(
        diagnostics_response(false, Some("/x")),
        r#"{"diagnostics":[],"message":"No IDE connected. Use --ide flag to enable IDE integration.","status":"not_connected"}"#
    );
    assert_eq!(
        diagnostics_response(true, None),
        r#"{"diagnostics":[],"path":null,"status":"connected"}"#
    );
    assert_eq!(
        diagnostics_response(true, Some("C:\\dir\\\"q\".rs")),
        r#"{"diagnostics":[],"path":"C:\\dir\\\"q\".rs","status":"connected"}"#
    );
    assert_eq!(
        execute_response(true, "é+1", "py\nthon"),
        r#"{"code_length":4,"language":"py\nthon","result":"Code execution not yet implemented","status":"connected"}"#
    );
    assert_eq!(
        execute_response(false, "1+1", "python"),
        r#"{"message":"No IDE connected. Use --ide flag to enable IDE integration.","status":"not_connected"}"#
    );
}

#[test]
fn clones_share_the_connection() {
    let bridge = IdeBridge::default();
    let other = bridge.clone();
    other.connect("zed".to_string());
    assert!(bridge.is_connected());
}
