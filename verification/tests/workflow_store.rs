use hermes_remote::error::HermesError;
use hermes_remote::identity::Timestamp;
use hermes_remote::models::ConnectionProfile;
use hermes_remote::workflow::{
    create_workflow_inner, delete_workflow_inner, hermes_cli_preview_command,
    list_workflows_inner, normalize_prompt_for_launch, normalized_skill_references,
    update_workflow_inner, validate_draft, workflow_launch_preview_inner, WorkflowDraftPayload,
    WorkflowPreset, WorkflowSkillReference,
};

const ID_A: &str = "550e8400-e29b-41d4-a716-446655440000";
const ID_B: &str = "6ba7b810-9dad-11d1-80b4-00c04fd430c8";

fn id(text: &str) -> u128 {
    uuid::Uuid::parse_str(text).unwrap().as_u128()
}

fn stamp(seconds: i64) -> Timestamp {
    Timestamp { seconds, nanos: 0 }
}

fn reference(path: &str, slug: &str, name: Option<&str>) -> WorkflowSkillReference {
    WorkflowSkillReference {
        relative_path: path.to_string(),
        slug: slug.to_string(),
        name: name.map(str::to_string),
    }
}

fn preset(identifier: u128, scope: &str, name: &str) -> WorkflowPreset {
    WorkflowPreset {
        id: identifier,
        workspace_scope_fingerprint: scope.to_string(),
        name: name.to_string(),
        prompt: "Do it.".to_string(),
        assigned_skills: Vec::new(),
        created_at: stamp(1),
        updated_at: stamp(1),
    }
}

fn names(list: &[WorkflowPreset]) -> Vec<String> {
    list.iter().map(|w| w.name.clone()).collect()
}

fn draft(name: &str, prompt: &str) -> WorkflowDraftPayload {
    WorkflowDraftPayload { name: name.to_string(), prompt: prompt.to_string(), assigned_skills: Vec::new() }
}

#[test]
fn listing_keeps_the_scope_sorted_by_name_ignoring_case() {
    let stored = vec![
        preset(1, "s", "beta"),
        preset(2, "other", "alpha"),
        preset(3, "s", "Alpha"),
        preset(4, "s", "gamma"),
        preset(5, "s", "alpha"),
    ];
    let listed = list_workflows_inner(stored, "s");
    assert_eq!(names(&listed), vec!["Alpha", "alpha", "beta", "gamma"]);
    assert_eq!(listed[0].id, 3);
    assert_eq!(listed[1].id, 5);
}

#[test]
fn deleting_removes_only_the_workflow_of_the_scope() {
    let stored = vec![preset(id(ID_A), "s", "one"), preset(id(ID_A), "t", "two"), preset(id(ID_B), "s", "three")];
    let (kept, listed) = delete_workflow_inner(stored, "s", ID_A).unwrap();
    assert_eq!(names(&kept), vec!["two", "three"]);
    assert_eq!(names(&listed), vec!["three"]);
}

#[test]
fn deleting_with_a_bad_id_is_a_validation_error() {
    match delete_workflow_inner(Vec::new(), "s", "not-a-uuid") {
        Err(HermesError::Validation(message)) => {
            assert_eq!(message, "The workflow id is not a valid UUID.")
        }
        other => panic!("unexpected {other:?}"),
    }
}

#[test]
fn drafts_need_a_name_then_a_prompt() {
    match validate_draft(&draft("  ", "")) {
        Err(HermesError::Validation(message)) => assert_eq!(message, "Workflow name is required."),
        other => panic!("unexpected {other:?}"),
    }
    match validate_draft(&draft("x", " \n ")) {
        Err(HermesError::Validation(message)) => assert_eq!(message, "Workflow prompt is required."),
        other => panic!("unexpected {other:?}"),
    }
    assert!(validate_draft(&draft("x", "y")).is_ok());
}

#[test]
fn creating_trims_and_appends_a_new_workflow() {
    let mut d = draft("  Release  ", "  Ship it  ");
    d.assigned_skills = vec![reference(" ops/release ", "", Some("  "))];
    let (stored, created) = create_workflow_inner(vec![preset(9, "s", "old")], "s", d, stamp(50), 0x1234).unwrap();
    assert_eq!(stored.len(), 2);
    assert_eq!(stored[1].id, created.id);
    assert_eq!(created.name, "Release");
    assert_eq!(created.prompt, "Ship it");
    assert_eq!(created.workspace_scope_fingerprint, "s");
    assert_eq!(created.id, 0x1234);
    assert_eq!(created.created_at, stamp(50));
    assert_eq!(created.updated_at, stamp(50));
    assert_eq!(created.assigned_skills.len(), 1);
    assert_eq!(created.assigned_skills[0].relative_path, "ops/release");
    assert_eq!(created.assigned_skills[0].slug, "release");
    assert_eq!(created.assigned_skills[0].name, None);
    let listed = list_workflows_inner(stored, "s");
    assert_eq!(names(&listed), vec!["old", "Release"]);
}

#[test]
fn creating_with_an_invalid_draft_fails() {
    assert!(create_workflow_inner(Vec::new(), "s", draft("", "p"), stamp(1), 1).is_err());
}

#[test]
fn updating_checks_draft_then_id_then_existence() {
    let stored = || vec![preset(id(ID_A), "s", "one")];
    match update_workflow_inner(stored(), "s", "bad", draft("", ""), stamp(60)) {
        Err(HermesError::Validation(message)) => assert_eq!(message, "Workflow name is required."),
        other => panic!("unexpected {other:?}"),
    }
    match update_workflow_inner(stored(), "s", "bad", draft("n", "p"), stamp(60)) {
        Err(HermesError::Validation(message)) => {
            assert_eq!(message, "The workflow id is not a valid UUID.")
        }
        other => panic!("unexpected {other:?}"),
    }
    match update_workflow_inner(stored(), "t", ID_A, draft("n", "p"), stamp(60)) {
        Err(HermesError::Validation(message)) => assert_eq!(message, "The workflow does not exist."),
        other => panic!("unexpected {other:?}"),
    }
    let (kept, updated) = update_workflow_inner(stored(), "s", ID_A, draft(" new ", " p "), stamp(60)).unwrap();
    assert_eq!(updated.id, id(ID_A));
    assert_eq!(updated.name, "new");
    assert_eq!(updated.created_at, stamp(1));
    assert_eq!(updated.updated_at, stamp(60));
    assert_eq!(kept.len(), 1);
    assert_eq!(kept[0].name, "new");
}

#[test]
fn skill_references_are_deduplicated_by_path_and_sorted() {
    let result = normalized_skill_references(vec![
        reference("ops/zeta", "Zeta", None),
        reference("  ", "blank", None),
        reference("ops/alpha", "first", Some("First")),
        reference("ops/alpha", "alpha", Some(" Alpha ")),
        reference("tools/", "", None),
    ]);
    let summary: Vec<(String, String, Option<String>)> = result
        .iter()
        .map(|r| (r.relative_path.clone(), r.slug.clone(), r.name.clone()))
        .collect();
    assert_eq!(
        summary,
        vec![
            ("tools/".to_string(), "".to_string(), None),
            ("ops/alpha".to_string(), "alpha".to_string(), Some("Alpha".to_string())),
            ("ops/zeta".to_string(), "Zeta".to_string(), None),
        ]
    );
}

#[test]
fn prompts_are_flattened_to_one_line() {
    assert_eq!(normalize_prompt_for_launch("  a \r\n\n b\t\n"), "a b");
    assert_eq!(normalize_prompt_for_launch(" \n "), "");
}

#[test]
fn preview_commands_join_quoted_arguments() {
    assert_eq!(hermes_cli_preview_command(&Vec::new()), "hermes");
    assert_eq!(
        hermes_cli_preview_command(&vec!["'--tui'".to_string(), "chat".to_string()]),
        "hermes '--tui' chat"
    );
}

#[test]
fn launch_plan_of_a_stored_workflow() {
    let mut w = preset(id(ID_A), "s", "Audit");
    w.prompt = "Line one\nLine two".to_string();
    w.assigned_skills = vec![
        reference("ops/a", "a", None),
        reference(" ops/a ", "a", None),
        reference("ops/b", " ", None),
    ];
    let profile = ConnectionProfile {
        hermes_profile: Some(" dev ".to_string()),
        ..ConnectionProfile::default()
    };
    let stored = vec![w];
    let plan = workflow_launch_preview_inner(&stored, "s", ID_A, &profile).unwrap();
    assert_eq!(
        plan.arguments,
        vec!["--profile", "dev", "--skills", "ops/a", "--skills", "ops/b", "chat"]
    );
    assert_eq!(plan.initial_input, "Line one Line two");
    assert_eq!(plan.chat_arguments, vec!["--profile", "dev", "--tui"]);
    assert_eq!(plan.chat_initial_input, "/a\n/a\nLine one Line two");
    match workflow_launch_preview_inner(&stored, "s", ID_B, &profile) {
        Err(HermesError::Validation(message)) => assert_eq!(message, "The workflow does not exist."),
        other => panic!("unexpected {:?}", other.map(|p| p.arguments)),
    }
}

fn summary_of(result: &[WorkflowSkillReference]) -> Vec<(String, String, Option<String>)> {
    result
        .iter()
        .map(|r| (r.relative_path.clone(), r.slug.clone(), r.name.clone()))
        .collect()
}

#[test]
fn normalizing_skill_references_twice_changes_nothing() {
    let once = normalized_skill_references(vec![
        reference(" ops/zeta ", "", Some(" Zeta ")),
        reference("tools/", "", None),
        reference("ops/alpha", " Alpha ", Some("  ")),
        reference("ops/zeta", "z", None),
    ]);
    let again: Vec<WorkflowSkillReference> = once
        .iter()
        .map(|r| WorkflowSkillReference {
            relative_path: r.relative_path.clone(),
            slug: r.slug.clone(),
            name: r.name.clone(),
        })
        .collect();
    let twice = normalized_skill_references(again);
    assert_eq!(summary_of(&twice), summary_of(&once));
    let blank_slug = normalized_skill_references(vec![reference("ops/ x", "", None)]);
    assert_eq!(blank_slug[0].slug, " x");
}
