use radium_cli::braingrid::StatusError;
use radium_cli::budget::BudgetPathError;
use radium_cli::capability::UnknownCapability;
use radium_cli::chat::ChatSessionError;
use radium_cli::code::SelectionError;
use radium_cli::custom::TemplateSyntaxError;
use radium_cli::playbook::InvalidPriority;
use radium_cli::policy::PolicyRuleError;
use radium_cli::requirement::InvalidRequirementId;

#[test]
fn template_error_messages() {
    assert_eq!(TemplateSyntaxError::UnmatchedClosingBrace(17).message(), "Unmatched closing brace at position 17");
    assert_eq!(TemplateSyntaxError::UnclosedShellInjection.message(), "Unclosed shell command injection (!{)");
    assert_eq!(TemplateSyntaxError::UnclosedFileInjection.message(), "Unclosed file injection (@{)");
    assert_eq!(TemplateSyntaxError::UnclosedArgumentPlaceholder.message(), "Unclosed argument placeholder ({{)");
}

#[test]
fn option_error_messages() {
    assert_eq!(
        StatusError::InvalidTaskStatus("done".to_string()).message(),
        "Invalid task status: done. Valid values: PLANNED, IN_PROGRESS, COMPLETED, CANCELLED"
    );
    assert_eq!(
        StatusError::InvalidRequirementStatus("x".to_string()).message(),
        "Invalid requirement status: x. Valid values: IDEA, PLANNED, IN_PROGRESS, REVIEW, COMPLETED, CANCELLED"
    );
    assert_eq!(SelectionError::InvalidRangeStart.message(), "Invalid range start");
    assert_eq!(SelectionError::InvalidRangeEnd.message(), "Invalid range end");
    assert_eq!(SelectionError::InvalidBlockIndex.message(), "Invalid block index");
    assert_eq!(BudgetPathError::HomeNotSet.message(), "HOME environment variable not set");
    assert_eq!(PolicyRuleError::MissingToolPattern.message(), "Tool pattern is required");
    assert_eq!(PolicyRuleError::InvalidPriority.message(), "Priority must be one of: admin, user, default");
    assert_eq!(PolicyRuleError::InvalidAction.message(), "Action must be one of: allow, deny, ask_user");
    assert_eq!(ChatSessionError::ResumeNeedsName.message(), "--resume requires a session name");
    assert_eq!(
        InvalidRequirementId.message(),
        "Invalid requirement ID format. Expected format: REQ-XXX (e.g., REQ-173)"
    );
    assert_eq!(
        InvalidPriority("urgent".to_string()).message(),
        "Invalid priority: urgent. Must be: required, recommended, or optional"
    );
    assert_eq!(
        UnknownCapability("root".to_string()).message(),
        "Unknown capability: root. Valid options: write, network, admin"
    );
}
