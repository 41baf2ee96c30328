use hermes_remote::error::HermesError;
use hermes_remote::kanban::{
    add_kanban_comment_request, created_task_id, create_kanban_task_request,
    dispatch_kanban_now_request, kanban_body, kanban_cli_profile_name, reassign_kanban_task_request,
    remote_kanban_home_path, task_action_request, KanbanMutationRequest, KanbanTaskDraftPayload,
    KANBAN_HELPERS_1, KANBAN_HELPERS_4,
};
use hermes_remote::models::ConnectionProfile;
use hermes_remote::skill::{
    launchable_records_from_result, launchable_skill_order, parse_launchable_record,
    parse_launchable_skill_records, skill_body, LaunchableSkillRecord, SkillSummaryKey,
    SHARED_SKILL_HELPERS,
};
use hermes_remote::ssh::SshCommandResult;

const TABLE: &str = "┏━━━━━━┓\n│ Name │ Category │ Source │ Trust │ Status │\r\n│ release │ ops │ local │ trusted │ enabled │\n│ draft │ ops │ local │ trusted │ disabled │\n│ plain │  │ local │ trusted │ enabled │\n  │ broken │ x │\n";

#[test]
fn table_rows_become_records() {
    let records = parse_launchable_skill_records(TABLE);
    let ids: Vec<String> = records.into_iter().map(|r| r.launch_identifier()).collect();
    assert_eq!(ids, vec!["ops/release".to_string(), "plain".to_string()]);
}

#[test]
fn rows_need_separators_five_columns_and_enabled_status() {
    assert!(parse_launchable_record("release │ ops │ a │ b │ enabled │").is_none());
    assert!(parse_launchable_record("│ release │ ops │ a │ b │").is_none());
    assert!(parse_launchable_record("│ Name │ ops │ a │ b │ enabled │").is_none());
    assert!(parse_launchable_record("│  │ ops │ a │ b │ enabled │").is_none());
    let record = parse_launchable_record(" │ r │  c  │ a │ b │ enabled │ extra │ ").unwrap();
    assert_eq!(record.name, "r");
    assert_eq!(record.category, Some("c".to_string()));
}

#[test]
fn identifiers_ignore_blank_categories() {
    let record = LaunchableSkillRecord { name: "n".to_string(), category: Some(" ".to_string()) };
    assert_eq!(record.launch_identifier(), "n");
}

#[test]
fn failed_listing_reports_stderr_then_stdout_then_a_default() {
    let result = |stdout: &str, stderr: &str, code: i32| SshCommandResult {
        stdout: stdout.to_string(),
        stderr: stderr.to_string(),
        exit_code: code,
    };
    for (out, err, expected) in [
        ("o", " Hermes CLI not found. ", "Hermes CLI not found."),
        (" o ", "", "o"),
        ("", "", "Unable to load launchable skill inventory."),
    ] {
        match launchable_records_from_result(&result(out, err, 127)) {
            Err(HermesError::Remote(message)) => assert_eq!(message, expected),
            other => panic!("unexpected {:?}", other.map(|r| r.len())),
        }
    }
    assert_eq!(launchable_records_from_result(&result(TABLE, "", 0)).unwrap().len(), 2);
}

#[test]
fn launchable_skills_are_filtered_and_sorted() {
    let key = |slug: &str, path: &str| SkillSummaryKey {
        slug: slug.to_string(),
        relative_path: path.to_string(),
    };
    let skills = vec![
        key("zeta", "ops/zeta"),
        key("Alpha", "ops/alpha"),
        key("hidden", "ops/hidden"),
        key("alpha", "misc/alpha"),
    ];
    let records = vec![
        LaunchableSkillRecord { name: "zeta".to_string(), category: Some("ops".to_string()) },
        LaunchableSkillRecord { name: "alpha".to_string(), category: Some("ops".to_string()) },
        LaunchableSkillRecord { name: "alpha".to_string(), category: Some("misc".to_string()) },
    ];
    assert_eq!(launchable_skill_order(&skills, records), vec![3, 1, 0]);
}

#[test]
fn program_bodies_follow_their_helpers() {
    let skill = skill_body("print(1)");
    assert!(skill.starts_with(SHARED_SKILL_HELPERS));
    assert!(skill.ends_with("\nprint(1)"));
    let kanban = kanban_body("print(2)");
    assert!(kanban.starts_with(KANBAN_HELPERS_1));
    assert!(kanban.ends_with(&format!("{}\nprint(2)", KANBAN_HELPERS_4)));
}

#[test]
fn mutation_requests_set_only_their_fields() {
    let comment = add_kanban_comment_request("t_1".to_string(), "hi".to_string());
    assert_eq!(comment.action, "comment");
    assert_eq!(comment.task_id, Some("t_1".to_string()));
    assert_eq!(comment.text, Some("hi".to_string()));
    assert_eq!(comment.body, None);

    let action = task_action_request("t_2".to_string(), "block", None, Some("why".to_string()));
    assert_eq!(action.action, "block");
    assert_eq!(action.text, Some("why".to_string()));

    let reassign = reassign_kanban_task_request("t_3".to_string(), Some("ann".to_string()), true, None);
    assert_eq!(reassign.reclaim_first, Some(true));
    assert_eq!(reassign.assignee, Some("ann".to_string()));

    let dispatch = dispatch_kanban_now_request(4);
    assert_eq!(dispatch.action, "dispatch");
    assert_eq!(dispatch.max_spawn, Some(4));
    assert_eq!(dispatch.task_id, None);

    let created = create_kanban_task_request(KanbanTaskDraftPayload {
        title: "T".to_string(),
        body: Some("B".to_string()),
        assignee: None,
        priority: 2,
        tenant: None,
        skills: vec!["s".to_string()],
        triage: true,
        max_retries: Some(1),
        parent_ids: Vec::new(),
    });
    assert_eq!(created.action, "create");
    assert_eq!(created.title, Some("T".to_string()));
    assert_eq!(created.priority, Some(2));
    assert_eq!(created.triage, Some(true));
    assert_eq!(created.parent_ids, Some(Vec::new()));

    let payload = KanbanMutationRequest::empty().with_context(
        "~/.hermes".to_string(),
        "/h".to_string(),
        "default".to_string(),
        "dev".to_string(),
    );
    assert_eq!(payload.action, "");
    assert_eq!(payload.hermes_home, "/h");
    assert_eq!(payload.author, "dev");
}

#[test]
fn created_task_needs_an_id() {
    assert_eq!(created_task_id(Some("t_9".to_string())).unwrap(), "t_9");
    match created_task_id(None) {
        Err(HermesError::Remote(message)) => assert!(message.contains("did not return a task ID")),
        other => panic!("unexpected {other:?}"),
    }
}

#[test]
fn kanban_author_is_default_with_a_custom_home() {
    let mut profile = ConnectionProfile::default();
    assert_eq!(kanban_cli_profile_name(&profile, "dev".to_string()), "dev");
    profile.custom_hermes_home_path = Some("/h".to_string());
    assert_eq!(kanban_cli_profile_name(&profile, "dev".to_string()), "default");
    assert_eq!(remote_kanban_home_path(), "~/.hermes");
}
