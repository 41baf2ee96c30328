use hermes_remote::error::HermesError;
use hermes_remote::local_export::{
    backup_file_name, export_candidate_name, hermes_directory_backup_file_name, next_export_step,
    ExportStep,
    remote_archive_error, remote_hermes_directory_archive_command, sanitize_file_name,
};
use hermes_remote::models::ConnectionProfile;

#[test]
fn sanitizing_replaces_reserved_and_trims_dots_spaces_dashes() {
    assert_eq!(sanitize_file_name("a*b?c|d<e>f\"g\\h").unwrap(), "a-b-c-d-e-f-g-h");
    assert_eq!(sanitize_file_name(" -.report.json.- ").unwrap(), "report.json");
    assert_eq!(sanitize_file_name("tab\there").unwrap(), "tab-here");
}

#[test]
fn sanitizing_rejects_names_with_nothing_left() {
    for name in ["", "...", " - . ", "///", "\n"] {
        match sanitize_file_name(name) {
            Err(HermesError::Validation(message)) => {
                assert_eq!(message, "Export file name cannot be empty.")
            }
            other => panic!("unexpected {other:?} for {name:?}"),
        }
    }
}

#[test]
fn sanitizing_twice_changes_nothing() {
    let once = sanitize_file_name("../bad:name\n.json").unwrap();
    assert_eq!(sanitize_file_name(&once).unwrap(), once);
}

#[test]
fn candidate_names_insert_the_index_before_the_extension() {
    assert_eq!(export_candidate_name("report.json", 1), "report-1.json");
    assert_eq!(export_candidate_name("archive.tar.gz", 2), "archive.tar-2.gz");
    assert_eq!(export_candidate_name(".env", 3), ".env-3");
    assert_eq!(export_candidate_name("README", 9999), "README-9999");
    assert_ne!(export_candidate_name("a.b", 1), export_candidate_name("a.b", 2));
}

#[test]
fn backup_names_replace_colons_and_dots_of_the_time() {
    assert_eq!(
        backup_file_name("Test Host", "2024-01-02T03:04:05.678Z"),
        "hermes-full-backup-Test Host-2024-01-02T03-04-05-678Z.tar.gz"
    );
}

#[test]
fn backup_name_of_now_has_no_colon_or_extra_dot() {
    let mut profile = ConnectionProfile::default();
    profile.label = "Box".to_string();
    let now = chrono::Utc::now().to_rfc3339_opts(chrono::SecondsFormat::Millis, true);
    let name = hermes_directory_backup_file_name(&profile, &now);
    assert!(name.starts_with("hermes-full-backup-Box-20"));
    assert!(name.ends_with("Z.tar.gz"));
    assert!(!name.contains(':'));
    assert_eq!(name.matches('.').count(), 2);
}

#[test]
fn backup_name_of_a_given_time() {
    let mut profile = ConnectionProfile::default();
    profile.label = "Box".to_string();
    assert_eq!(
        hermes_directory_backup_file_name(&profile, "2024-05-01T10:20:30.123Z"),
        "hermes-full-backup-Box-2024-05-01T10-20-30-123Z.tar.gz"
    );
}

#[test]
fn archive_command_uses_the_custom_home_when_set() {
    let mut profile = ConnectionProfile::default();
    profile.custom_hermes_home_path = Some("/srv/hermes".to_string());
    let command = remote_hermes_directory_archive_command(&profile, "/srv/hermes");
    assert!(command.starts_with("set -eu\nHERMES_BACKUP_DIR=\"/srv/hermes\"\n"));
    assert!(command.ends_with("cat \"$tmp\"\n"));
}

#[test]
fn archive_errors_are_trimmed_or_generic() {
    assert_eq!(remote_archive_error(b"  tar: failed \n"), "tar: failed");
    assert_eq!(remote_archive_error(b" \n "), "Remote Hermes directory backup failed.");
    assert_eq!(remote_archive_error(b"bad \xff byte"), "bad \u{fffd} byte");
}

fn step(name: &str, index: u32, taken: bool) -> (bool, u32, String) {
    match next_export_step(name, index, taken) {
        ExportStep::Use(n) => (false, index, n),
        ExportStep::Try(i, n) => (true, i, n),
    }
}

#[test]
fn export_search_tries_numbered_names_then_falls_back() {
    assert_eq!(step("report.json", 0, false), (false, 0, "report.json".to_string()));
    assert_eq!(step("report.json", 0, true), (true, 1, "report-1.json".to_string()));
    assert_eq!(step("report.json", 1, true), (true, 2, "report-2.json".to_string()));
    assert_eq!(step("report.json", 2, false), (false, 2, "report-2.json".to_string()));
    assert_eq!(step("report.json", 9998, true), (true, 9999, "report-9999.json".to_string()));
    assert_eq!(step("report.json", 9999, true), (false, 9999, "report.json".to_string()));
    assert_eq!(step("..", 0, true), (true, 1, "export-1".to_string()));
    assert_eq!(step("a/b.txt", 0, true), (true, 1, "b-1.txt".to_string()));
    assert_eq!(step("", 4, false), (false, 4, "export-4".to_string()));
}

#[test]
fn decimal_text_of_the_smallest_integer() {
    assert_eq!(hermes_remote::text::int_to_string(i64::MIN), i64::MIN.to_string());
    assert_eq!(hermes_remote::text::int_to_string(-7), "-7");
}

fn path_candidate(name: &str, index: u32) -> String {
    let path = std::path::Path::new(name);
    let stem = path
        .file_stem()
        .map(|s| s.to_string_lossy().into_owned())
        .unwrap_or_else(|| "export".to_string());
    match path.extension() {
        Some(ext) => format!("{stem}-{index}.{}", ext.to_string_lossy()),
        None => format!("{stem}-{index}"),
    }
}

#[test]
fn candidates_follow_the_last_path_component() {
    for name in [
        "report.json", "archive.tar.gz", ".env", "a.", "...", "a/b.txt", "x/", "a/.", "a/..", "/",
        "", ".", "..", "dir//c.d/", "./notes", "a/.hidden.md",
    ] {
        assert_eq!(export_candidate_name(name, 7), path_candidate(name, 7), "{name:?}");
    }
}
