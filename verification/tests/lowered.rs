use radium_cli::agents::{
    effort_from_lowered, profile_from_lowered, single_sort_from_lowered, sort_field_from_lowered,
    PerformanceProfile, ReasoningEffort, SortField, SortOrder,
};
use radium_cli::braingrid::{
    requirement_status_from_upper, task_status_from_upper, RequirementStatus, TaskStatus,
};
use radium_cli::init::{network_from_lowered, sandbox_from_lowered, NetworkMode, SandboxType};
use radium_cli::playbook::{priority_from_lowered, PlaybookPriority};
use radium_cli::policy::{is_lowered_confirmation, validate_lowered_rule, PolicyRuleError};

fn s(x: &str) -> String {
    x.to_string()
}

#[test]
fn lowered_agent_options() {
    assert_eq!(profile_from_lowered(&s("thinking")), Some(PerformanceProfile::Thinking));
    assert_eq!(profile_from_lowered(&s("Thinking")), None);
    assert_eq!(effort_from_lowered(&s("medium")), Some(ReasoningEffort::Medium));
    assert_eq!(effort_from_lowered(&s("HIGH")), None);
    assert_eq!(sort_field_from_lowered(&s("model")), Some(SortField::Model));
    assert_eq!(sort_field_from_lowered(&s(" id")), None);
    assert_eq!(single_sort_from_lowered(&s("engine")), (SortOrder::Engine, true));
    assert_eq!(single_sort_from_lowered(&s("model")), (SortOrder::Name, false));
}

#[test]
fn upper_cased_statuses() {
    assert_eq!(task_status_from_upper(&s("INPROGRESS")), Some(TaskStatus::InProgress));
    assert_eq!(task_status_from_upper(&s("canceled")), None);
    assert_eq!(task_status_from_upper(&s("CANCELED")), Some(TaskStatus::Cancelled));
    assert_eq!(requirement_status_from_upper(&s("REVIEW")), Some(RequirementStatus::Review));
    assert_eq!(requirement_status_from_upper(&s("DONE")), None);
}

#[test]
fn lowered_init_and_playbook_options() {
    assert_eq!(sandbox_from_lowered(&s("none")), Some(SandboxType::Disabled));
    assert_eq!(sandbox_from_lowered(&s("Docker")), None);
    assert_eq!(network_from_lowered(&s("proxied")), Some(NetworkMode::Proxied));
    assert_eq!(network_from_lowered(&s("offline")), None);
    assert_eq!(priority_from_lowered(&s("optional")), Some(PlaybookPriority::Optional));
    assert_eq!(priority_from_lowered(&s("Required")), None);
}

#[test]
fn lowered_policy_answers() {
    assert!(is_lowered_confirmation(&s("yes")));
    assert!(!is_lowered_confirmation(&s("YES")));
    assert!(!is_lowered_confirmation(&s("no")));
    assert_eq!(
        validate_lowered_rule("bash", s("admin"), s("deny")),
        Ok((s("admin"), s("deny")))
    );
    assert_eq!(
        validate_lowered_rule("bash", s("Admin"), s("deny")),
        Err(PolicyRuleError::InvalidPriority)
    );
    assert_eq!(
        validate_lowered_rule("bash", s("user"), s("block")),
        Err(PolicyRuleError::InvalidAction)
    );
    assert_eq!(
        validate_lowered_rule("", s("x"), s("y")),
        Err(PolicyRuleError::MissingToolPattern)
    );
}
