use base64::Engine;
use hermes_remote::remote_python::wrap_payload;
use serde_json::Value;

#[test]
fn wrap_payload_embeds_base64_json_payload_and_body() {
    let mut request = serde_json::Map::new();
    request.insert(
        "hermes_home".to_string(),
        Value::String("~/.hermes/profiles/researcher".to_string()),
    );
    request.insert("query".to_string(), Value::String("привет".to_string()));
    let json = serde_json::to_vec(&Value::Object(request)).expect("payload should wrap");
    let script = wrap_payload(&json, "print(json.dumps(payload, ensure_ascii=False))");

    let encoded = script
        .split("base64.b64decode(\"")
        .nth(1)
        .and_then(|tail| tail.split("\")").next())
        .expect("encoded payload should exist");
    let decoded = base64::engine::general_purpose::STANDARD
        .decode(encoded)
        .expect("payload should decode");
    let payload: Value = serde_json::from_slice(&decoded).expect("payload should be json");

    assert_eq!(payload["hermes_home"], "~/.hermes/profiles/researcher");
    assert_eq!(payload["query"], "привет");
    assert!(script.contains("def hermes_search_path(request=None):"));
    assert!(script.contains(r#"hermes_home / "hermes-agent" / "venv" / "bin""#));
    assert!(script.contains("print(json.dumps(payload, ensure_ascii=False))"));
}

#[test]
fn shared_helpers_keep_remote_workspace_resolution_functions() {
    let json = serde_json::to_vec(&Value::Object(serde_json::Map::new())).expect("payload should wrap");
    let script = wrap_payload(&json, "print('ok')");

    assert!(script.contains("def expand_remote_path(value, home=None, base_dir=None):"));
    assert!(script.contains("def resolved_hermes_home(request=None):"));
    assert!(script.contains("def find_hermes_binary(request=None):"));
    assert!(script.contains("def connect_sqlite_readonly(path):"));
    assert!(script.contains("immutable=1"));
}
