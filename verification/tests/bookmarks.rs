use hermes_remote::error::HermesError;
use hermes_remote::file::{
    display_title, list_workspace_file_bookmarks_inner, normalize_optional,
    remove_workspace_file_bookmark_inner, upsert_workspace_file_bookmark_inner,
    WorkspaceFileBookmark,
};
use hermes_remote::identity::Timestamp;

const ID_A: &str = "550e8400-e29b-41d4-a716-446655440000";

fn bookmark(id: u128, scope: &str, path: &str, title: Option<&str>) -> WorkspaceFileBookmark {
    WorkspaceFileBookmark {
        id,
        workspace_scope_fingerprint: scope.to_string(),
        remote_path: path.to_string(),
        title: title.map(str::to_string),
        created_at: Timestamp { seconds: 5, nanos: 0 },
        updated_at: Timestamp { seconds: 5, nanos: 0 },
    }
}

#[test]
fn titles_fall_back_to_the_file_name() {
    assert_eq!(display_title(&bookmark(1, "s", "/a/b.txt", Some("  Notes "))), "Notes");
    assert_eq!(display_title(&bookmark(1, "s", " /a/b.txt ", Some("  "))), "b.txt");
    assert_eq!(display_title(&bookmark(1, "s", "/srv/logs/", None)), "logs");
    assert_eq!(display_title(&bookmark(1, "s", "/", None)), "/");
    assert_eq!(display_title(&bookmark(1, "s", "//", None)), "/");
    assert_eq!(display_title(&bookmark(1, "s", "   ", None)), "Untitled file");
    assert_eq!(display_title(&bookmark(1, "s", "plain", None)), "plain");
}

#[test]
fn optional_texts_are_trimmed_or_dropped() {
    assert_eq!(normalize_optional(Some("  x ".to_string())), Some("x".to_string()));
    assert_eq!(normalize_optional(Some("  ".to_string())), None);
    assert_eq!(normalize_optional(None), None);
}

#[test]
fn bookmarks_are_listed_by_title_then_path_then_id() {
    let stored = vec![
        bookmark(3, "s", "/x/b.txt", None),
        bookmark(2, "s", "/y/B.txt", None),
        bookmark(1, "s", "/y/B.txt", None),
        bookmark(4, "t", "/a.txt", None),
        bookmark(5, "s", "/z", Some("a")),
    ];
    let listed = list_workspace_file_bookmarks_inner(stored, "s");
    let ids: Vec<u128> = listed.iter().map(|b| b.id).collect();
    assert_eq!(ids, vec![5, 3, 1, 2]);
}

#[test]
fn upserting_adds_then_updates_in_place() {
    let t = |seconds: i64| Timestamp { seconds, nanos: 0 };
    let (stored, listed) =
        upsert_workspace_file_bookmark_inner(Vec::new(), "s", "  /etc/hosts ", None, t(10), 77).unwrap();
    assert_eq!(stored.len(), 1);
    assert_eq!(stored[0].remote_path, "/etc/hosts");
    assert_eq!(stored[0].id, 77);
    assert_eq!(stored[0].created_at, t(10));
    assert_eq!(stored[0].updated_at, t(10));
    assert_eq!(listed.len(), 1);
    let (stored, _) = upsert_workspace_file_bookmark_inner(
        stored,
        "s",
        "/etc/hosts",
        Some(" Hosts ".to_string()),
        t(20),
        78,
    )
    .unwrap();
    assert_eq!(stored.len(), 1);
    assert_eq!(stored[0].id, 77);
    assert_eq!(stored[0].title, Some("Hosts".to_string()));
    assert_eq!(stored[0].created_at, t(10));
    assert_eq!(stored[0].updated_at, t(20));
    let (stored, _) = upsert_workspace_file_bookmark_inner(
        stored,
        "s",
        "/etc/hosts",
        Some(" ".to_string()),
        t(30),
        79,
    )
    .unwrap();
    assert_eq!(stored[0].title, Some("Hosts".to_string()));
    assert_eq!(stored[0].updated_at, t(30));
    let (stored, listed) =
        upsert_workspace_file_bookmark_inner(stored, "other", "/etc/hosts", None, t(40), 80).unwrap();
    assert_eq!(stored.len(), 2);
    assert_eq!(stored[1].id, 80);
    assert_eq!(listed.len(), 1);
    assert_eq!(listed[0].workspace_scope_fingerprint, "other");
}

#[test]
fn upserting_a_blank_path_fails() {
    match upsert_workspace_file_bookmark_inner(Vec::new(), "s", "  ", None, Timestamp { seconds: 1, nanos: 0 }, 1) {
        Err(HermesError::Validation(message)) => assert_eq!(message, "Remote file path is required."),
        other => panic!("unexpected {:?}", other.map(|r| r.0.len())),
    }
}

#[test]
fn removing_drops_the_id_in_every_scope() {
    let a = uuid::Uuid::parse_str(ID_A).unwrap().as_u128();
    let stored = vec![bookmark(a, "s", "/1", None), bookmark(a, "t", "/2", None), bookmark(7, "s", "/3", None)];
    let (kept, listed) = remove_workspace_file_bookmark_inner(stored, "s", ID_A).unwrap();
    assert_eq!(kept.len(), 1);
    assert_eq!(kept[0].id, 7);
    assert_eq!(listed.len(), 1);
    match remove_workspace_file_bookmark_inner(Vec::new(), "s", "xyz") {
        Err(HermesError::Validation(message)) => {
            assert_eq!(message, "The bookmark id is not a valid UUID.")
        }
        other => panic!("unexpected {:?}", other.map(|r| r.0.len())),
    }
}
