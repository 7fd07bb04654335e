use radium_cli::custom::{
    check_template_syntax, display_option, template_file_references, TemplateSyntaxError,
};
use radium_cli::template::{
    generate_prompt_template, substitute_prompt_template_variables,
    substitute_template_variables, OptionalField, TemplateError, PROMPT_BODY,
};

#[test]
fn config_template_with_engine() {
    let t = "id={{id}} name={{name}}{{#engine}} engine={{engine}}{{/engine}}";
    assert_eq!(
        substitute_template_variables(t, "x", "X", None, "cat", Some("gemini"), None, None),
        Ok("id=x name=X engine=gemini".to_string())
    );
    assert_eq!(
        substitute_template_variables(t, "x", "X", None, "cat", None, None, None),
        Ok("id=x name=X".to_string())
    );
}

#[test]
fn config_template_fields_and_leftover_blocks() {
    let t = "{{description}}|{{category}}|{{#model}}m={{model}}{{/model}}|a{{#foo}}b{{/foo}}c";
    assert_eq!(
        substitute_template_variables(t, "i", "n", None, "core", None, Some("pro"), None),
        Ok("|core|m=pro|ac".to_string())
    );
    assert_eq!(
        substitute_template_variables(t, "i", "n", Some("d"), "core", None, None, None),
        Ok("d|core||ac".to_string())
    );
}

#[test]
fn config_template_misordered_block() {
    let t = "{{/reasoning}}x{{#reasoning}}";
    assert_eq!(
        substitute_template_variables(t, "i", "n", None, "c", None, None, None),
        Err(TemplateError::MisorderedBlock(OptionalField::Reasoning))
    );
}

#[test]
fn plain_config_template_unchanged() {
    let t = "no placeholders { here }";
    assert_eq!(
        substitute_template_variables(t, "i", "n", Some("d"), "c", Some("e"), Some("m"), Some("r")),
        Ok(t.to_string())
    );
}

#[test]
fn prompt_template_defaults() {
    assert_eq!(
        substitute_prompt_template_variables("# {{name}}\n{{description}}\n{{domain}}", "Bot", None),
        "# Bot\nAdd agent description here\nyour domain"
    );
    assert_eq!(
        substitute_prompt_template_variables("{{note_3}} {{step_2_title}}", "B", Some("D")),
        "Important note 3 Second step"
    );
}

#[test]
fn generated_prompt_template() {
    let p = generate_prompt_template("Bot", Some("Helps"));
    assert_eq!(p, format!("# Bot\n\nHelps{}", PROMPT_BODY));
    assert!(p.starts_with("# Bot\n\nHelps\n\n## Role\n"));
    assert!(generate_prompt_template("Bot", None).contains("Add agent description here"));
}

#[test]
fn template_syntax_check() {
    assert_eq!(check_template_syntax("plain text"), Ok(()));
    assert_eq!(check_template_syntax("run !{ls} on @{file.txt}"), Ok(()));
    assert_eq!(check_template_syntax("{{args}}"), Ok(()));
    assert_eq!(check_template_syntax("!{echo 'Hello {{args}}'}"), Ok(()));
    assert_eq!(check_template_syntax("{{args}}}"), Err(TemplateSyntaxError::UnmatchedClosingBrace(8)));
    assert_eq!(check_template_syntax("@{f}}"), Err(TemplateSyntaxError::UnmatchedClosingBrace(4)));
    assert_eq!(check_template_syntax("{{name}"), Ok(()));
    assert_eq!(check_template_syntax("}"), Err(TemplateSyntaxError::UnmatchedClosingBrace(0)));
    assert_eq!(check_template_syntax("!{a"), Err(TemplateSyntaxError::UnclosedShellInjection));
    assert_eq!(check_template_syntax("@{"), Err(TemplateSyntaxError::UnclosedFileInjection));
    assert_eq!(check_template_syntax("{{"), Err(TemplateSyntaxError::UnclosedArgumentPlaceholder));
    assert_eq!(check_template_syntax("!{@{"), Err(TemplateSyntaxError::UnclosedShellInjection));
    assert_eq!(check_template_syntax(""), Ok(()));
}

#[test]
fn file_references_in_order() {
    assert_eq!(template_file_references("see @{a.txt} and @{b.md}"), vec!["a.txt", "b.md"]);
    assert_eq!(template_file_references("@{x"), Vec::<String>::new());
    assert_eq!(template_file_references("@@{a}{b}"), vec!["a", "b"]);
    assert_eq!(template_file_references("@{}"), vec![""]);
    assert_eq!(template_file_references("no refs"), Vec::<String>::new());
}

#[test]
fn option_display() {
    assert_eq!(display_option(&None), "-");
    assert_eq!(display_option(&Some("ns".to_string())), "ns");
}

#[test]
fn leftover_conditional_blocks_are_all_cut_out() {
    let t = "a{{#x}}b{{/x}}c{{#y}}d{{/y}}e";
    assert_eq!(
        substitute_template_variables(t, "i", "n", None, "core", None, None, None),
        Ok("ace".to_string())
    );
    let unclosed = "a{{#x}}b";
    assert_eq!(
        substitute_template_variables(unclosed, "i", "n", None, "core", None, None, None),
        Ok("a{{#x}}b".to_string())
    );
}
