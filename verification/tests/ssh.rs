use hermes_remote::models::ConnectionProfile;
use hermes_remote::ssh::{describe_remote_failure, shell_arguments, SshCommandResult};

fn profile(alias: &str, host: &str, user: &str, port: Option<u16>) -> ConnectionProfile {
    let mut profile = ConnectionProfile::default();
    profile.label = "Prod".to_string();
    profile.ssh_alias = alias.to_string();
    profile.ssh_host = host.to_string();
    profile.ssh_user = user.to_string();
    profile.ssh_port = port;
    profile
}

#[test]
fn shell_arguments_use_explicit_destination_port_and_remote_command() {
    let profile = profile("prod-box", "ignored.example.com", "alice", Some(2222));

    let arguments = shell_arguments(&profile, Some("python3 -".to_string()), false);

    assert!(arguments.contains(&"-T".to_string()));
    assert!(arguments.contains(&"-p".to_string()));
    assert!(arguments.contains(&"2222".to_string()));
    assert!(arguments.contains(&"--".to_string()));
    assert!(arguments.contains(&"alice@prod-box".to_string()));
    assert_eq!(arguments.last().map(String::as_str), Some("python3 -"));
}

#[test]
fn shell_arguments_allocate_tty_for_interactive_sessions() {
    let profile = profile("", "example.com", "", None);

    let arguments = shell_arguments(&profile, None, true);

    assert!(arguments.contains(&"-tt".to_string()));
    assert!(!arguments.contains(&"-T".to_string()));
    assert_eq!(arguments.last().map(String::as_str), Some("example.com"));
}

#[test]
fn remote_failure_prefers_structured_error_payload() {
    let result = SshCommandResult {
        stdout: r#"{"ok": false, "error": "Hermes store unavailable"}"#.to_string(),
        stderr: "Permission denied".to_string(),
        exit_code: 1,
    };

    assert_eq!(
        describe_remote_failure(&result, None),
        "Hermes store unavailable"
    );
}

#[test]
fn remote_failure_maps_common_ssh_errors() {
    let profile = profile("", "localhost", "", None);
    let result = SshCommandResult {
        stdout: String::new(),
        stderr: "ssh: connect to host localhost port 22: Connection refused".to_string(),
        exit_code: 255,
    };

    let message = describe_remote_failure(&result, Some(&profile));

    assert!(message.contains("this computer refused the connection"));
}

#[test]
fn remote_failure_mentions_non_interactive_python_path() {
    let profile = profile("", "example.com", "", None);
    let result = SshCommandResult {
        stdout: String::new(),
        stderr: "zsh:1: command not found: python3".to_string(),
        exit_code: 127,
    };

    let message = describe_remote_failure(&result, Some(&profile));

    assert!(message.contains("non-interactive SSH shell PATH"));
    assert!(message.contains("python3"));
}
