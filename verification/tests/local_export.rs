use hermes_remote::local_export::{remote_hermes_directory_archive_command, sanitize_file_name};
use hermes_remote::models::ConnectionProfile;

#[test]
fn local_export_file_name_rejects_paths_and_control_chars() {
    let sanitized = sanitize_file_name("../bad:name\n.json").unwrap();
    assert_eq!(sanitized, "bad-name-.json");
}

#[test]
fn full_backup_archives_root_hermes_directory_and_cleans_remote_temp_file() {
    let mut profile = ConnectionProfile::default();
    profile.label = "Test Host".to_string();

    let command = remote_hermes_directory_archive_command(&profile, "");

    assert!(command.contains(r#"HERMES_BACKUP_DIR="$HOME/.hermes""#));
    assert!(command.contains(r#"tar -czf "$tmp" "$base""#));
    assert!(command.contains("cat \"$tmp\""));
    assert!(command.contains("trap cleanup EXIT HUP INT TERM"));
    assert!(command.contains("rm -f \"$tmp\" \"$err\""));
}
