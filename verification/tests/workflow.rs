use hermes_remote::identity::Timestamp;
use hermes_remote::models::ConnectionProfile;
use hermes_remote::workflow::{
    workflow_arguments, workflow_chat_arguments, workflow_chat_initial_input, WorkflowPreset,
    WorkflowSkillReference,
};

fn now() -> Timestamp {
    let now = chrono::Utc::now();
    Timestamp { seconds: now.timestamp(), nanos: now.timestamp_subsec_nanos() }
}

fn workflow_fixture() -> WorkflowPreset {
    WorkflowPreset {
        id: uuid::Uuid::new_v4().as_u128(),
        workspace_scope_fingerprint: "scope".to_string(),
        name: "Release audit".to_string(),
        prompt: "  Check release notes.\n\nSummarize risk.  ".to_string(),
        assigned_skills: vec![
            WorkflowSkillReference {
                relative_path: "ops/release".to_string(),
                slug: "release".to_string(),
                name: Some("Release".to_string()),
            },
            WorkflowSkillReference {
                relative_path: "ops/security".to_string(),
                slug: "security".to_string(),
                name: Some("Security".to_string()),
            },
        ],
        created_at: now(),
        updated_at: now(),
    }
}

#[test]
fn workflow_chat_launch_uses_tui_and_slash_skill_prelude() {
    let profile = ConnectionProfile {
        hermes_profile: Some("staging".to_string()),
        ..ConnectionProfile::default()
    };
    let workflow = workflow_fixture();

    assert_eq!(
        workflow_chat_arguments(&profile),
        vec![
            "--profile".to_string(),
            "staging".to_string(),
            "--tui".to_string()
        ]
    );
    assert_eq!(
        workflow_chat_initial_input(&workflow),
        "/release\n/security\nCheck release notes. Summarize risk."
    );
}

#[test]
fn workflow_launch_omits_profile_when_custom_home_is_used() {
    let profile = ConnectionProfile {
        hermes_profile: Some("staging".to_string()),
        custom_hermes_home_path: Some("~/.hermes".to_string()),
        ..ConnectionProfile::default()
    };
    let workflow = workflow_fixture();

    assert_eq!(
        workflow_arguments(&profile, &workflow),
        vec![
            "--skills".to_string(),
            "ops/release".to_string(),
            "--skills".to_string(),
            "ops/security".to_string(),
            "chat".to_string()
        ]
    );
    assert_eq!(workflow_chat_arguments(&profile), vec!["--tui".to_string()]);
}
