use radium_cli::agents::{agent_basic_errors, agent_config_errors, strict_findings, LintFindings};
use radium_cli::hooks::{all_hook_types, HookType};
use radium_cli::policy::{
    listed_rules, new_policy_rule, parse_policy_file, render_policy_file, rule_count, rule_json,
    rule_listing, shown_approval_mode, with_rule, without_rule, PolicyRuleError, PolicyRuleFields,
    RemoveRuleError, TomlEntry, TomlItem, TomlScalar, DEFAULT_POLICY, EMPTY_POLICY,
};
use radium_cli::analytics::{date_range, keep_for_dates};
use radium_cli::doctor::{all_checks_passed, engine_issues, required_dirs};

#[test]
fn valid_agent_config_has_no_errors() {
    assert!(agent_config_errors("docs-writer-2", vec![], Some((3, None)), 1).is_empty());
    assert!(agent_config_errors("arch", vec![], None, 4).is_empty());
}

#[test]
fn agent_config_errors_in_order() {
    let errors = agent_config_errors(
        "Docs_Writer",
        vec!["Prompt file not found or not readable: p.md".to_string()],
        Some((0, Some(0))),
        0,
    );
    assert_eq!(
        errors,
        vec![
            "Agent ID 'Docs_Writer' must be in kebab-case (lowercase letters, numbers, hyphens only)"
                .to_string(),
            "Prompt file not found or not readable: p.md".to_string(),
            "Loop behavior: steps must be greater than 0".to_string(),
            "Loop behavior: max_iterations must be greater than 0".to_string(),
            "Capabilities: max_concurrent_tasks must be greater than 0".to_string(),
        ]
    );
    assert_eq!(
        agent_config_errors("ok", vec![], Some((2, Some(0))), 1),
        vec!["Loop behavior: max_iterations must be greater than 0".to_string()]
    );
}

#[test]
fn basic_agent_errors() {
    assert!(agent_basic_errors("A", "p.md").is_empty());
    assert_eq!(
        agent_basic_errors("", ""),
        vec!["Name is empty".to_string(), "Prompt path is empty".to_string()]
    );
}

#[test]
fn doctor_engine_checks() {
    assert!(engine_issues(true, true, true).is_empty());
    assert_eq!(
        engine_issues(false, false, false),
        vec![
            "invalid config".to_string(),
            "missing credentials".to_string(),
            "API unreachable".to_string(),
        ]
    );
    assert_eq!(engine_issues(true, false, true), vec!["missing credentials".to_string()]);
    assert_eq!(required_dirs(), vec![".radium", ".radium/plan", ".radium/memory"]);
    assert!(all_checks_passed(true, true, false));
    assert!(!all_checks_passed(true, false, false));
    assert!(!all_checks_passed(false, true, false));
    assert!(!all_checks_passed(true, true, true));
}

#[test]
fn analytics_date_bounds() {
    assert_eq!(date_range(None, None), (None, None));
    assert_eq!(
        date_range(Some("2024-01-02"), Some("2024-01-02")),
        (Some(1704153600), Some(1704239999))
    );
    assert_eq!(date_range(Some("1970-01-01"), Some("not a date")), (Some(0), None));
    assert_eq!(date_range(Some("2023-02-30"), None), (None, None));
}

#[test]
fn analytics_kept_by_dates() {
    assert!(keep_for_dates(None, None, None));
    assert!(!keep_for_dates(None, Some(0), None));
    assert!(keep_for_dates(Some(5), Some(5), Some(5)));
    assert!(!keep_for_dates(Some(4), Some(5), None));
    assert!(!keep_for_dates(Some(6), None, Some(5)));
    assert!(keep_for_dates(Some(-3), None, Some(5)));
}

#[test]
fn strict_lint_promotes_warnings() {
    let f = LintFindings {
        valid: true,
        errors: vec!["e".to_string()],
        warnings: vec!["w1".to_string(), "w2".to_string()],
    };
    assert_eq!(strict_findings(f.clone(), false), f);
    assert_eq!(
        strict_findings(f, true),
        LintFindings {
            valid: false,
            errors: vec!["e".to_string(), "w1".to_string(), "w2".to_string()],
            warnings: vec![],
        }
    );
    let clean = LintFindings { valid: true, errors: vec![], warnings: vec![] };
    assert_eq!(strict_findings(clean.clone(), true), clean);
}

#[test]
fn policy_rule_defaults() {
    let empty = PolicyRuleFields {
        name: None,
        priority: None,
        action: None,
        tool_pattern: None,
        arg_pattern: None,
        reason: None,
    };
    let l = rule_listing(&empty);
    assert_eq!(
        (l.name.as_str(), l.priority.as_str(), l.action.as_str(), l.tool_pattern.as_str(), l.arg_pattern.as_str()),
        ("(unnamed)", "user", "allow", "", "(none)")
    );
    let full = PolicyRuleFields {
        name: Some("no-rm".to_string()),
        priority: Some("admin".to_string()),
        action: Some("deny".to_string()),
        tool_pattern: Some("run_*".to_string()),
        arg_pattern: Some("rm -rf*".to_string()),
        reason: Some("safety".to_string()),
    };
    let l = rule_listing(&full);
    assert_eq!(
        (l.name.as_str(), l.priority.as_str(), l.action.as_str(), l.tool_pattern.as_str(), l.arg_pattern.as_str()),
        ("no-rm", "admin", "deny", "run_*", "rm -rf*")
    );
}

#[test]
fn hook_types_in_order() {
    let all = all_hook_types();
    assert_eq!(all.len(), 13);
    assert_eq!(all[0], HookType::BeforeModel);
    assert_eq!(all[4], HookType::ToolSelection);
    assert_eq!(all[12], HookType::PerformanceMonitoring);
}

#[test]
fn policy_files_read_edited_and_written() {
    let p = parse_policy_file(DEFAULT_POLICY).unwrap();
    assert_eq!(shown_approval_mode(&p), "ask");
    assert_eq!(rule_count(&p), 4);
    let rules = listed_rules(&p);
    assert_eq!(rules[2].name.as_deref(), Some("Deny dangerous shell commands"));
    assert_eq!(rules[2].arg_pattern.as_deref(), Some("rm -rf *"));
    assert_eq!(rules[0].arg_pattern, None);
    assert_eq!(rules[0].reason.as_deref(), Some("Safe read operations are always allowed"));
    assert!(parse_policy_file("rules = [").is_err());

    let empty = parse_policy_file(EMPTY_POLICY).unwrap();
    assert_eq!(listed_rules(&empty), vec![]);
    assert_eq!(rule_count(&empty), 0);
    assert_eq!(shown_approval_mode(&parse_policy_file("").unwrap()), "ask");

    let rule = new_policy_rule("r".to_string(), "ADMIN", "Deny", "run_*".to_string(), Some(String::new()), Some("why".to_string())).unwrap();
    assert_eq!(rule.priority.as_deref(), Some("admin"));
    assert_eq!(rule.action.as_deref(), Some("deny"));
    assert_eq!(rule.arg_pattern, None);
    assert_eq!(rule.reason.as_deref(), Some("why"));
    assert_eq!(
        new_policy_rule("r".to_string(), "root", "deny", "x".to_string(), None, None),
        Err(PolicyRuleError::InvalidPriority)
    );
    assert_eq!(
        new_policy_rule("r".to_string(), "user", "deny", String::new(), None, None),
        Err(PolicyRuleError::MissingToolPattern)
    );

    let added = with_rule(empty, rule.clone());
    assert_eq!(listed_rules(&added), vec![rule.clone()]);
    let text = render_policy_file(&added).unwrap();
    assert_eq!(listed_rules(&parse_policy_file(&text).unwrap()), vec![rule.clone()]);
    assert!(text.contains("approval_mode = \"ask\""));

    assert_eq!(without_rule(parse_policy_file(EMPTY_POLICY).unwrap(), "r"), Err(RemoveRuleError::NoRules));
    assert_eq!(without_rule(parse_policy_file("rules = 3").unwrap(), "r"), Err(RemoveRuleError::NoRules));
    assert_eq!(without_rule(added.clone(), "s"), Err(RemoveRuleError::NotFound("s".to_string())));
    let gone = without_rule(added, "r").unwrap();
    assert_eq!(listed_rules(&gone), vec![]);
    assert!(gone.items.iter().any(|(k, v)| k == "rules" && *v == TomlItem::Array(vec![])));
    let fewer = without_rule(p, "Allow file writes with approval").unwrap();
    assert_eq!(rule_count(&fewer), 3);
    assert_eq!(RemoveRuleError::NotFound("s".to_string()).message(), "Rule 's' not found");
    assert_eq!(RemoveRuleError::NoRules.message(), "No rules found in policy file");

    let j = rule_json(&rules[0]);
    assert_eq!((j.name.as_str(), j.priority.as_str()), ("Allow safe file operations", "user"));
}

#[test]
fn policy_rewrites_keep_what_they_do_not_edit() {
    let content = "approval_mode = \"ask\"\nversion = 2\n\n[meta]\nowner = \"ops\"\nstarted = 1979-05-27T07:32:00Z\n\n[[rules]]\nname = \"keep\"\npriority = 5\ntool_pattern = \"read_*\"\nextra = [1, 2]\n\n[[rules]]\nname = \"drop\"\ntool_pattern = \"x\"\n";
    let doc = parse_policy_file(content).unwrap();
    let rules = listed_rules(&doc);
    assert_eq!(rules.len(), 2);
    assert_eq!(rules[0].priority, None);
    let kept = without_rule(doc, "drop").unwrap();
    let text = render_policy_file(&kept).unwrap();
    let back: toml::Table = toml::from_str(&text).unwrap();
    let orig: toml::Table = toml::from_str(content).unwrap();
    assert_eq!(back["version"], orig["version"]);
    assert_eq!(back["meta"], orig["meta"]);
    let back_rules = back["rules"].as_array().unwrap();
    assert_eq!(back_rules.len(), 1);
    assert_eq!(back_rules[0], orig["rules"].as_array().unwrap()[0]);

    let mixed = parse_policy_file("rules = [\"not a table\", { name = \"a\", tool_pattern = \"t\" }]\n").unwrap();
    assert_eq!(listed_rules(&mixed).len(), 1);
    assert_eq!(rule_count(&mixed), 1);
    let rule = new_policy_rule("b".to_string(), "user", "allow", "u".to_string(), None, None).unwrap();
    let grown = with_rule(mixed, rule);
    let back: toml::Table = toml::from_str(&render_policy_file(&grown).unwrap()).unwrap();
    let arr = back["rules"].as_array().unwrap();
    assert_eq!(arr.len(), 3);
    assert_eq!(arr[0], toml::Value::String("not a table".to_string()));
    match &grown.items[0].1 {
        TomlItem::Array(es) => {
            assert_eq!(es[0], TomlEntry::Other("\"not a table\"".to_string()));
            assert_eq!(
                es[2],
                TomlEntry::Table(vec![
                    ("name".to_string(), TomlScalar::Str("b".to_string())),
                    ("priority".to_string(), TomlScalar::Str("user".to_string())),
                    ("action".to_string(), TomlScalar::Str("allow".to_string())),
                    ("tool_pattern".to_string(), TomlScalar::Str("u".to_string())),
                ])
            );
        },
        TomlItem::Scalar(_) => panic!("rules should be an array"),
    }
}

#[test]
fn policy_file_texts() {
    assert!(DEFAULT_POLICY.starts_with("# Radium Policy Configuration\n"));
    assert!(DEFAULT_POLICY.contains("arg_pattern = \"rm -rf *\"\n"));
    assert_eq!(EMPTY_POLICY, "approval_mode = \"ask\"\n\n");
}
