use radium_cli::monitor::{approval_label, tool_usage_summary, ToolRecord, ToolUsage};

fn rec(tool: Option<&str>, approved: Option<bool>) -> ToolRecord {
    ToolRecord { tool_name: tool.map(|t| t.to_string()), tool_approved: approved }
}

fn line(tool: &str, executions: u64, approved: u64, denied: u64) -> ToolUsage {
    ToolUsage { tool: tool.to_string(), executions, approved, denied }
}

#[test]
fn tool_usage_counts_and_order() {
    assert_eq!(tool_usage_summary(&vec![]), vec![]);
    assert_eq!(tool_usage_summary(&vec![rec(None, Some(true))]), vec![]);
    let records = vec![
        rec(Some("read"), Some(true)),
        rec(Some("bash"), Some(false)),
        rec(None, None),
        rec(Some("bash"), Some(true)),
        rec(Some("bash"), None),
        rec(Some("read"), None),
        rec(Some("grep"), Some(false)),
    ];
    let summary = tool_usage_summary(&records);
    assert_eq!(summary[0], line("bash", 3, 1, 1));
    assert_eq!(summary.len(), 3);
    assert!(summary.contains(&line("read", 2, 1, 0)));
    assert_eq!(summary[1], line("read", 2, 1, 0));
    assert_eq!(summary[2], line("grep", 1, 0, 1));
    let named = records.iter().filter(|r| r.tool_name.is_some()).count() as u64;
    assert_eq!(summary.iter().map(|u| u.executions).sum::<u64>(), named);
}

#[test]
fn approval_labels() {
    assert_eq!(approval_label(None, Some("auto")), "-");
    assert_eq!(approval_label(Some(false), Some("auto")), "denied");
    assert_eq!(approval_label(Some(true), None), "approved");
    assert_eq!(approval_label(Some(true), Some("auto")), "auto");
}
