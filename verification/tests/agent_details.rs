use radium_cli::agents::{
    frontmatter_finding, validation_counts, FrontmatterFinding, FrontmatterOutcome,
    agent_details, agent_file_paths, check_agent_id, detail_answer, given_agent_details, id_answer,
    AgentDetailAnswers, AgentDetailDefaults, AgentDetails, AgentDetailsError,
};

fn s(x: &str) -> String {
    x.to_string()
}

fn no_defaults() -> AgentDetailDefaults {
    AgentDetailDefaults {
        id: None,
        name: None,
        description: None,
        category: None,
        engine: None,
        model: None,
        reasoning: None,
    }
}

fn blank_answers() -> AgentDetailAnswers {
    AgentDetailAnswers {
        id: s("\n"),
        name: s("\n"),
        description: s("\n"),
        category: s("\n"),
        engine: s("\n"),
        model: s("\n"),
        reasoning: s("\n"),
    }
}

#[test]
fn typed_answer_is_trimmed_and_wins_over_default() {
    assert_eq!(detail_answer("  gemini \n", Some(s("openai"))), Some(s("gemini")));
}

#[test]
fn blank_answer_keeps_default() {
    assert_eq!(detail_answer("   \n", Some(s("openai"))), Some(s("openai")));
    assert_eq!(detail_answer("\n", None), None);
}

#[test]
fn empty_id_answer_is_refused() {
    assert_eq!(id_answer("  \n", None), Err(AgentDetailsError::EmptyId));
    assert_eq!(id_answer("\n", Some(s(""))), Ok(s("")));
    assert_eq!(id_answer("\n", Some(s("arch"))), Ok(s("arch")));
    assert_eq!(id_answer(" my-agent\n", Some(s("arch"))), Ok(s("my-agent")));
}

#[test]
fn interactive_details_without_defaults() {
    let answers = AgentDetailAnswers {
        id: s("my-agent\n"),
        name: s(" My Agent \n"),
        description: s("\n"),
        category: s("core\n"),
        engine: s("\n"),
        model: s("gpt-4\n"),
        reasoning: s("high\n"),
    };
    assert_eq!(
        agent_details(&answers, no_defaults()),
        Ok(AgentDetails {
            id: s("my-agent"),
            name: s("My Agent"),
            description: None,
            category: Some(s("core")),
            engine: None,
            model: Some(s("gpt-4")),
            reasoning: Some(s("high")),
        })
    );
}

#[test]
fn interactive_details_keep_defaults_on_blank_lines() {
    let defaults = AgentDetailDefaults {
        id: Some(s("arch")),
        name: Some(s("Architect")),
        description: Some(s("Designs")),
        category: Some(s("design")),
        engine: Some(s("anthropic")),
        model: None,
        reasoning: Some(s("low")),
    };
    assert_eq!(
        agent_details(&blank_answers(), defaults),
        Ok(AgentDetails {
            id: s("arch"),
            name: s("Architect"),
            description: Some(s("Designs")),
            category: Some(s("design")),
            engine: Some(s("anthropic")),
            model: None,
            reasoning: Some(s("low")),
        })
    );
}

#[test]
fn interactive_blank_name_without_default_is_empty() {
    let mut answers = blank_answers();
    answers.id = s("x\n");
    let d = agent_details(&answers, no_defaults()).unwrap();
    assert_eq!(d.name, s(""));
}

#[test]
fn interactive_blank_id_is_refused() {
    assert_eq!(
        agent_details(&blank_answers(), no_defaults()),
        Err(AgentDetailsError::EmptyId)
    );
    assert_eq!(AgentDetailsError::EmptyId.message(), "Agent ID cannot be empty");
}

#[test]
fn given_details_need_id_and_name() {
    assert_eq!(given_agent_details(no_defaults()), Err(AgentDetailsError::IdRequired));
    let mut d = no_defaults();
    d.id = Some(s("a"));
    assert_eq!(given_agent_details(d.clone()), Err(AgentDetailsError::NameRequired));
    d.name = Some(s("A"));
    d.model = Some(s("m"));
    assert_eq!(
        given_agent_details(d.clone()),
        Ok(AgentDetails {
            id: s("a"),
            name: s("A"),
            description: None,
            category: None,
            engine: None,
            model: Some(s("m")),
            reasoning: None,
        })
    );
    d.id = Some(s(""));
    assert_eq!(given_agent_details(d).map(|x| x.id), Ok(s("")));
    assert_eq!(check_agent_id(""), Err(AgentDetailsError::EmptyId));
    assert_eq!(check_agent_id("a"), Ok(()));
    assert_eq!(
        AgentDetailsError::IdRequired.message(),
        "Agent ID is required (use --interactive to prompt)"
    );
    assert_eq!(
        AgentDetailsError::NameRequired.message(),
        "Agent name is required (use --interactive to prompt)"
    );
}

#[test]
fn agent_files_default_places() {
    let p = agent_file_paths("my-agent", None, None);
    assert_eq!(p.agent_dir, "./agents/custom");
    assert_eq!(p.prompts_dir, "./prompts/agents/custom");
    assert_eq!(p.config_path, "./agents/custom/my-agent.toml");
    assert_eq!(p.prompt_path, "./prompts/agents/custom/my-agent.md");
    assert_eq!(p.prompt_path_relative, "prompts/agents/custom/my-agent.md");
}

#[test]
fn agent_files_given_places() {
    let p = agent_file_paths("arch", Some("design"), Some("/tmp/out/"));
    assert_eq!(p.agent_dir, "/tmp/out/design");
    assert_eq!(p.config_path, "/tmp/out/design/arch.toml");
    assert_eq!(p.prompt_path, "./prompts/agents/design/arch.md");
    assert_eq!(p.prompt_path_relative, "prompts/agents/design/arch.md");
}

#[test]
fn interactive_empty_given_id_is_kept_for_the_later_check() {
    let mut defaults = no_defaults();
    defaults.id = Some(s(""));
    let d = agent_details(&blank_answers(), defaults).unwrap();
    assert_eq!(d.id, s(""));
    assert_eq!(check_agent_id(&d.id), Err(AgentDetailsError::EmptyId));
}

#[test]
fn frontmatter_findings_by_mode() {
    let ok = FrontmatterOutcome::Parsed { name: s("Arch"), color: s("blue") };
    assert_eq!(
        frontmatter_finding(&ok, false, true),
        FrontmatterFinding::Warning(s("Metadata parsed: name=Arch, color=blue"))
    );
    assert_eq!(frontmatter_finding(&ok, true, false), FrontmatterFinding::Nothing);
    let bad = FrontmatterOutcome::Failed(s("missing name"));
    assert_eq!(
        frontmatter_finding(&bad, true, false),
        FrontmatterFinding::Error(s("YAML frontmatter parsing error: missing name"))
    );
    assert_eq!(
        frontmatter_finding(&bad, false, true),
        FrontmatterFinding::Warning(s("YAML frontmatter parsing warning: missing name"))
    );
}

#[test]
fn validation_summary_counts() {
    assert_eq!(validation_counts(&vec![]), (0, 0));
    assert_eq!(validation_counts(&vec![(true, 0), (true, 2), (false, 0), (true, 0)]), (2, 2));
}
