use base64::Engine;
use hermes_remote::remote_python::{wrap_payload, SCRIPT_PREFIX, SHARED_HELPERS};

#[test]
fn payload_is_embedded_in_standard_base64() {
    let script = wrap_payload(b"{\"a\":1}", "print(1)");
    let expected = format!(
        "\nimport base64\nimport json\nimport pathlib\nimport sys\n\npayload = json.loads(base64.b64decode(\"eyJhIjoxfQ==\").decode(\"utf-8\"))\n\n{}\n\nprint(1)\n",
        SHARED_HELPERS
    );
    assert_eq!(script, expected);
}

#[test]
fn base64_padding_covers_every_remainder() {
    for (json, encoded) in [("", ""), ("f", "Zg=="), ("fo", "Zm8="), ("foo", "Zm9v"), ("?>~", "Pz5+")] {
        let script = wrap_payload(json.as_bytes(), "");
        assert!(script.contains(&format!("b64decode(\"{encoded}\")")), "{json}");
    }
}

#[test]
fn embedded_base64_decodes_to_the_request() {
    let payload = "{\"path\":\"/srv/é\",\"n\":[1,2,3]}".as_bytes();
    let script = wrap_payload(payload, "main()");
    let rest = script.strip_prefix(SCRIPT_PREFIX).unwrap();
    let encoded = &rest[..rest.find('"').unwrap()];
    let decoded = base64::engine::general_purpose::STANDARD.decode(encoded).unwrap();
    assert_eq!(decoded, payload);
    assert!(script.ends_with("main()\n"));
}
