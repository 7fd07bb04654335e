use radium_cli::agents::{
    estimate_tokens, is_kebab_case_id, parse_performance_profile, parse_reasoning_effort,
    parse_sort_order, split_tags, PerformanceProfile, ReasoningEffort, SortField, SortOrder,
};
use radium_cli::braingrid::{
    get_project_id, parse_requirement_status, parse_task_status, RequirementStatus, StatusError,
    TaskStatus,
};
use radium_cli::capability::{requested_capabilities, CostTier, ModelClass, UnknownCapability};
use radium_cli::hooks::{parse_hook_type, HookType};
use radium_cli::init::{parse_network_mode, parse_sandbox_type, NetworkMode, SandboxType};
use radium_cli::playbook::{parse_playbook_priority, playbook_filename, InvalidPriority, PlaybookPriority};
use radium_cli::policy::{answer_or_default, is_confirmation, validate_policy_rule, PolicyRuleError};
use radium_cli::requirement::{check_requirement_id, json_payload};

#[test]
fn profiles_and_efforts() {
    assert_eq!(parse_performance_profile("Speed"), Some(PerformanceProfile::Speed));
    assert_eq!(parse_performance_profile("EXPERT"), Some(PerformanceProfile::Expert));
    assert_eq!(parse_performance_profile("fast"), None);
    assert_eq!(parse_reasoning_effort(Some("HIGH")), Some(ReasoningEffort::High));
    assert_eq!(parse_reasoning_effort(Some("extreme")), None);
    assert_eq!(parse_reasoning_effort(None), None);
}

#[test]
fn sort_orders() {
    assert_eq!(
        parse_sort_order("category,name"),
        (SortOrder::Multiple(vec![SortField::Category, SortField::Name]), true)
    );
    assert_eq!(parse_sort_order(" id , x "), (SortOrder::Multiple(vec![SortField::Id]), true));
    assert_eq!(parse_sort_order("foo,bar"), (SortOrder::Name, true));
    assert_eq!(parse_sort_order("Engine"), (SortOrder::Engine, true));
    assert_eq!(parse_sort_order("model"), (SortOrder::Name, false));
}

#[test]
fn tags_and_tokens_and_ids() {
    assert_eq!(split_tags("a, b,,c "), vec!["a", "b", "", "c"]);
    assert_eq!(split_tags(""), vec![""]);
    assert_eq!(estimate_tokens(None, None, Some(3001)), (1500, 1500));
    assert_eq!(estimate_tokens(Some(10), None, None), (10, 500));
    assert_eq!(estimate_tokens(None, Some(7), None), (1000, 7));
    assert!(is_kebab_case_id("my-agent-2"));
    assert!(!is_kebab_case_id("My_Agent"));
    assert!(is_kebab_case_id(""));
}

#[test]
fn braingrid_statuses() {
    assert_eq!(parse_task_status("in_progress"), Ok(TaskStatus::InProgress));
    assert_eq!(parse_task_status("canceled"), Ok(TaskStatus::Cancelled));
    assert_eq!(parse_task_status("done"), Err(StatusError::InvalidTaskStatus("done".to_string())));
    assert_eq!(parse_requirement_status("Review"), Ok(RequirementStatus::Review));
    assert_eq!(parse_requirement_status("inprogress"), Ok(RequirementStatus::InProgress));
    assert_eq!(
        parse_requirement_status("later"),
        Err(StatusError::InvalidRequirementStatus("later".to_string()))
    );
}

#[test]
fn project_id_choice() {
    assert_eq!(get_project_id(None, None), ("PROJ-14".to_string(), true));
    assert_eq!(get_project_id(Some("P1".to_string()), Some("P2".to_string())), ("P1".to_string(), false));
    assert_eq!(get_project_id(None, Some("P2".to_string())), ("P2".to_string(), false));
}

#[test]
fn requirement_ids_and_payloads() {
    assert!(check_requirement_id("REQ-173").is_ok());
    assert!(check_requirement_id("req-1").is_err());
    assert_eq!(json_payload("⠋ loading {\"a\":1}"), "{\"a\":1}");
    assert_eq!(json_payload("none"), "none");
}

#[test]
fn policy_answers() {
    assert!(is_confirmation(" Yes \n"));
    assert!(is_confirmation("y"));
    assert!(!is_confirmation("n"));
    assert!(!is_confirmation(""));
    assert_eq!(answer_or_default("  ", "user"), "user");
    assert_eq!(answer_or_default(" admin \n", "user"), "admin");
}

#[test]
fn policy_rule_validation() {
    assert_eq!(validate_policy_rule("", "admin", "allow"), Err(PolicyRuleError::MissingToolPattern));
    assert_eq!(validate_policy_rule("read_*", "root", "allow"), Err(PolicyRuleError::InvalidPriority));
    assert_eq!(validate_policy_rule("read_*", "User", "block"), Err(PolicyRuleError::InvalidAction));
    assert_eq!(
        validate_policy_rule("read_*", "ADMIN", "Ask_User"),
        Ok(("admin".to_string(), "ask_user".to_string()))
    );
}

#[test]
fn sandbox_options() {
    assert_eq!(parse_sandbox_type("Docker"), (SandboxType::Docker, true));
    assert_eq!(parse_sandbox_type("none"), (SandboxType::Disabled, true));
    assert_eq!(parse_sandbox_type("vm"), (SandboxType::Disabled, false));
    assert_eq!(parse_network_mode(None), (NetworkMode::Open, true));
    assert_eq!(parse_network_mode(Some("CLOSED")), (NetworkMode::Closed, true));
    assert_eq!(parse_network_mode(Some("x")), (NetworkMode::Open, false));
}

#[test]
fn playbook_options() {
    assert_eq!(parse_playbook_priority("Required"), Ok(PlaybookPriority::Required));
    assert_eq!(parse_playbook_priority("high"), Err(InvalidPriority("high".to_string())));
    assert_eq!(playbook_filename("radium://org/team/pb.md", Some("local.md")), "pb.md");
    assert_eq!(playbook_filename("radium://org/", None), "");
    assert_eq!(playbook_filename("file.md", Some("x.md")), "x.md");
    assert_eq!(playbook_filename("other", None), "playbook.md");
}

#[test]
fn hook_types_and_capabilities() {
    assert_eq!(parse_hook_type("before_model"), Some(HookType::BeforeModel));
    assert_eq!(parse_hook_type("performance_monitoring"), Some(HookType::PerformanceMonitoring));
    assert_eq!(parse_hook_type("Before_Model"), None);
    let admin = requested_capabilities("admin").unwrap();
    assert_eq!(admin.model_class, ModelClass::Reasoning);
    assert_eq!(admin.cost_tier, CostTier::High);
    assert_eq!(admin.max_concurrent_tasks, 3);
    let network = requested_capabilities("network").unwrap();
    assert_eq!((network.model_class, network.cost_tier, network.max_concurrent_tasks), (ModelClass::Fast, CostTier::Low, 10));
    assert_eq!(requested_capabilities("root"), Err(UnknownCapability("root".to_string())));
}
