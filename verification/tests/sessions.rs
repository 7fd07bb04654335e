use radium_cli::chat::{
    build_turn_prompt, chat_session_id, classify_chat_input, history_context, ChatInput,
    ChatSessionError, SessionMessage,
};
use radium_cli::code::{appended_text, concatenate_blocks, most_recent_session, CodeBlock};

fn block(language: Option<&str>, content: &str) -> CodeBlock {
    CodeBlock { language: language.map(|l| l.to_string()), content: content.to_string() }
}

#[test]
fn chat_input_kinds() {
    assert_eq!(classify_chat_input("   "), (String::new(), ChatInput::Empty));
    assert_eq!(classify_chat_input(" /quit \n"), ("/quit".to_string(), ChatInput::Quit));
    assert_eq!(classify_chat_input("/exit").1, ChatInput::Quit);
    assert_eq!(classify_chat_input("/q").1, ChatInput::Quit);
    assert_eq!(classify_chat_input("/h").1, ChatInput::Help);
    assert_eq!(classify_chat_input("/help").1, ChatInput::Help);
    assert_eq!(classify_chat_input("/mcp-help").1, ChatInput::McpCommands);
    assert_eq!(classify_chat_input("/history").1, ChatInput::History);
    assert_eq!(classify_chat_input("/clear").1, ChatInput::Clear);
    assert_eq!(classify_chat_input("/save").1, ChatInput::Save);
    assert_eq!(classify_chat_input("/review main.rs").1, ChatInput::SlashCommand);
    assert_eq!(classify_chat_input("// a comment").1, ChatInput::Message);
    assert_eq!(
        classify_chat_input("  explain this  "),
        ("explain this".to_string(), ChatInput::Message)
    );
}

#[test]
fn turn_prompts() {
    assert_eq!(build_turn_prompt("", "", "hi"), "hi");
    assert_eq!(build_turn_prompt("", "H", "hi"), "H\n\nCurrent Request: hi");
    assert_eq!(
        build_turn_prompt("C", "", "hi"),
        "# Context Files\n\nC\n\n---\n\nCurrent Request: hi"
    );
    assert_eq!(
        build_turn_prompt("C", "H", "hi"),
        "# Context Files\n\nC\n\n---\n\n# Conversation History\n\nH\n\n---\n\nCurrent Request: hi"
    );
}

#[test]
fn blocks_concatenated() {
    assert_eq!(concatenate_blocks(&vec![]), "");
    assert_eq!(concatenate_blocks(&vec![block(Some("rust"), "fn a() {}")]), "fn a() {}");
    let bs = vec![
        block(Some("rust"), "fn a() {}"),
        block(Some("python"), "x = 1"),
        block(None, "plain"),
    ];
    assert_eq!(concatenate_blocks(&bs), "fn a() {}# ---\n\nx = 1// ---\n\nplain");
}

#[test]
fn appended_blocks() {
    let b = block(Some("html"), "<p/>");
    assert_eq!(appended_text(false, &b), "<p/>\n");
    assert_eq!(appended_text(true, &b), "<!-- --- -->\n\n<p/>\n");
}

#[test]
fn latest_session_is_chosen() {
    assert_eq!(most_recent_session(&vec![]), None);
    let ss = vec![
        ("a".to_string(), 10i128),
        ("b".to_string(), 30i128),
        ("c".to_string(), 30i128),
        ("d".to_string(), 20i128),
    ];
    assert_eq!(most_recent_session(&ss), Some("b".to_string()));
}

#[test]
fn chat_session_ids() {
    assert_eq!(chat_session_id("arch", Some("mine".to_string()), true, "x"), Ok("mine".to_string()));
    assert_eq!(chat_session_id("arch", Some("mine".to_string()), false, "x"), Ok("mine".to_string()));
    assert_eq!(chat_session_id("arch", None, true, "x"), Err(ChatSessionError::ResumeNeedsName));
    assert_eq!(
        chat_session_id("arch", None, false, "20240102_030405"),
        Ok("arch_20240102_030405".to_string())
    );
}

#[test]
fn chat_history_context_choice() {
    let ms = vec![SessionMessage { role: "user".to_string(), content: "q".to_string() }];
    assert_eq!(history_context(Some(&ms), "sum".to_string()), "Conversation History:\nuser: q\n");
    assert_eq!(history_context(Some(&vec![]), "sum".to_string()), "sum");
    assert_eq!(history_context(None, "sum".to_string()), "sum");
}
