use hermes_remote::error::HermesError;
use hermes_remote::models::ConnectionProfile;
use hermes_remote::ssh::{
    describe_remote_failure, destination, effective_target, failure_message_of,
    invalid_json_details, is_loopback_target, shell_arguments, structured_error_of,
    structured_remote_error, validate_success, JsonMember, SshCommandResult,
};

fn result(stdout: &str, stderr: &str, exit_code: i32) -> SshCommandResult {
    SshCommandResult { stdout: stdout.to_string(), stderr: stderr.to_string(), exit_code }
}

fn host(host: &str) -> ConnectionProfile {
    let mut profile = ConnectionProfile::default();
    profile.ssh_host = host.to_string();
    profile
}

#[test]
fn target_prefers_trimmed_alias_over_host() {
    let mut profile = host(" box.example.com ");
    assert_eq!(effective_target(&profile), "box.example.com");
    profile.ssh_alias = "  prod ".to_string();
    assert_eq!(effective_target(&profile), "prod");
    profile.ssh_user = " bob ".to_string();
    assert_eq!(destination(&profile), "bob@prod");
}

#[test]
fn shell_arguments_list_every_option_in_order() {
    let mut profile = host("example.com");
    profile.ssh_port = Some(22);
    let arguments = shell_arguments(&profile, Some("uptime".to_string()), false);
    let expected: Vec<String> = [
        "-o",
        "BatchMode=yes",
        "-o",
        "ConnectTimeout=10",
        "-o",
        "ServerAliveInterval=15",
        "-o",
        "ServerAliveCountMax=3",
        "-T",
        "-p",
        "22",
        "--",
        "example.com",
        "uptime",
    ]
    .iter()
    .map(|s| s.to_string())
    .collect();
    assert_eq!(arguments, expected);
}

#[test]
fn structured_error_needs_ok_false_and_a_text_error() {
    assert_eq!(
        structured_remote_error(r#"{"ok": false, "error": "broken"}"#),
        Some("broken".to_string())
    );
    assert_eq!(structured_remote_error(r#"{"ok": true, "error": "broken"}"#), None);
    assert_eq!(structured_remote_error(r#"{"ok": false, "error": 3}"#), None);
    assert_eq!(structured_remote_error("not json"), None);
    assert_eq!(structured_remote_error(""), None);
}

#[test]
fn structured_error_in_stderr_is_used_when_stdout_has_none() {
    let failure = result("plain", r#"{"ok": false, "error": "from stderr"}"#, 1);
    assert_eq!(describe_remote_failure(&failure, None), "from stderr");
}

#[test]
fn known_ssh_failures_get_their_advice() {
    let remote = host("example.com");
    let cases = [
        ("Permission denied (publickey).", "SSH authentication failed."),
        ("Host key verification failed.", "SSH host key verification failed."),
        ("WARNING: REMOTE HOST IDENTIFICATION HAS CHANGED!", "The SSH host key changed"),
        ("ssh: Could not resolve hostname nowhere", "could not be resolved"),
        ("Name or service not known", "could not be resolved"),
        ("connect to host example.com port 22: Connection refused", "The SSH server refused"),
        ("Operation timed out", "The SSH connection timed out."),
        ("Connection timed out", "The SSH connection timed out."),
        ("No route to host", "unreachable"),
        ("Network is unreachable", "unreachable"),
        ("bash: python3: command not found", "python3 is not available"),
        ("/usr/bin/env: python3: No such file or directory", "python3 is not available"),
    ];
    for (stderr, expected) in cases {
        let message = describe_remote_failure(&result("", stderr, 255), Some(&remote));
        assert!(message.contains(expected), "{stderr} gave {message}");
    }
}

#[test]
fn timeout_to_this_computer_mentions_localhost() {
    let local = host("127.0.0.1");
    let message = describe_remote_failure(&result("", "Connection timed out", 255), Some(&local));
    assert!(message.contains("to this computer timed out"));
}

#[test]
fn unknown_failures_show_raw_output_or_exit_code() {
    assert_eq!(
        describe_remote_failure(&result("  out  ", "  something odd  ", 3), None),
        "something odd"
    );
    assert_eq!(describe_remote_failure(&result(" out ", "   ", 3), None), "out");
    assert_eq!(
        describe_remote_failure(&result("", "", -1), None),
        "SSH command failed with exit code -1."
    );
    assert_eq!(
        describe_remote_failure(&result("", "", 42), None),
        "SSH command failed with exit code 42."
    );
}

#[test]
fn loopback_targets_are_recognised() {
    assert!(is_loopback_target(" LocalHost "));
    assert!(is_loopback_target("127.0.0.1"));
    assert!(is_loopback_target("::1"));
    assert!(is_loopback_target("0:0:0:0:0:0:0:1"));
    assert!(!is_loopback_target("127.0.0.2"));
    assert!(!is_loopback_target("example.com"));
}

#[test]
fn validation_of_exit_codes() {
    assert!(validate_success(&result("", "", 0), None).is_ok());
    match validate_success(&result("", "Permission denied", 255), None) {
        Err(HermesError::Remote(message)) => assert!(message.starts_with("SSH authentication")),
        other => panic!("unexpected {other:?}"),
    }
}

#[test]
fn invalid_json_details_show_both_streams() {
    let details = invalid_json_details("expected value", &result("abc", "warn", 0));
    assert_eq!(details, "expected value\n\nstdout:\nabc\n\nstderr:\nwarn");
}

#[test]
fn error_messages_carry_their_prefixes() {
    assert_eq!(HermesError::Validation("v".to_string()).message(), "v");
    assert_eq!(HermesError::Remote("r".to_string()).message(), "r");
    assert_eq!(
        HermesError::Storage("disk".to_string()).message(),
        "Unable to read or write local app data: disk"
    );
    assert_eq!(
        HermesError::Json("bad".to_string()).message(),
        "Unable to encode or decode app data: bad"
    );
    assert_eq!(HermesError::Launch("no ssh".to_string()).message(), "Unable to start ssh: no ssh");
    assert_eq!(HermesError::InvalidUtf8.message(), "Remote output was not valid UTF-8.");
    assert_eq!(
        HermesError::InvalidJson("eof".to_string()).message(),
        "Remote output was not valid JSON: eof"
    );
}

#[test]
fn structured_error_of_members() {
    let text = |t: &str| Some(JsonMember::Text(t.to_string()));
    assert_eq!(
        structured_error_of(Some(JsonMember::Bool(false)), text("boom")),
        Some("boom".to_string())
    );
    assert_eq!(structured_error_of(Some(JsonMember::Bool(true)), text("boom")), None);
    assert_eq!(structured_error_of(Some(JsonMember::Other), text("boom")), None);
    assert_eq!(structured_error_of(Some(JsonMember::Bool(false)), Some(JsonMember::Other)), None);
    assert_eq!(structured_error_of(None, text("boom")), None);
}

#[test]
fn failure_message_matches_on_the_lowered_text() {
    let refused = "ssh: connect to host x port 22: Connection refused";
    let lowered = refused.to_lowercase();
    assert!(failure_message_of(refused.to_string(), &lowered, 255, true).contains("this computer"));
    assert!(failure_message_of(refused.to_string(), &lowered, 255, false)
        .starts_with("The SSH server refused the connection."));
    assert_eq!(failure_message_of("Odd".to_string(), "odd", 3, false), "Odd");
    assert_eq!(
        failure_message_of(String::new(), "", -2, false),
        "SSH command failed with exit code -2."
    );
    assert_eq!(
        failure_message_of(String::new(), "", i32::MIN, false),
        format!("SSH command failed with exit code {}.", i32::MIN)
    );
}
