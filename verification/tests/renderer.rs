use radium_cli::event_renderer::{
    finish_outcome, is_approval, output_preview, Outcome, RenderAction, RendererState, StreamEvent,
};

fn started(name: &str) -> StreamEvent {
    StreamEvent::ToolCallStarted { tool_name: name.to_string() }
}

fn finished(name: &str, success: bool, output: &str) -> StreamEvent {
    StreamEvent::ToolCallFinished {
        tool_name: name.to_string(),
        success,
        output: output.to_string(),
    }
}

#[test]
fn other_sessions_are_skipped() {
    let mut st = RendererState::new();
    assert_eq!(st.step("s1", "s2", started("grep"), 5), RenderAction::Skip);
    assert!(st.running().is_empty());
    assert_eq!(
        st.step("s1", "s2", StreamEvent::Done { finish_reason: "stop".to_string() }, 6),
        RenderAction::Skip
    );
}

#[test]
fn tools_run_in_parallel_and_finish() {
    let mut st = RendererState::new();
    assert_eq!(
        st.step("s", "s", started("read"), 100),
        RenderAction::ShowToolStart { tool_name: "read".to_string(), running: vec!["read".to_string()] }
    );
    assert_eq!(
        st.step("s", "s", started("grep"), 150),
        RenderAction::ShowToolStart {
            tool_name: "grep".to_string(),
            running: vec!["read".to_string(), "grep".to_string()],
        }
    );
    assert_eq!(
        st.step("s", "s", finished("read", true, "ok"), 400),
        RenderAction::ShowToolSuccess {
            tool_name: "read".to_string(),
            elapsed_nanos: Some(300),
            output: "ok".to_string(),
            still_running: vec!["grep".to_string()],
        }
    );
    assert_eq!(
        st.step("s", "s", finished("grep", false, "boom"), 160),
        RenderAction::ShowToolFailure {
            tool_name: "grep".to_string(),
            elapsed_nanos: Some(10),
            output: "boom".to_string(),
        }
    );
    assert!(st.running().is_empty());
    assert_eq!(
        st.step("s", "s", finished("never", true, ""), 500),
        RenderAction::ShowToolSuccess {
            tool_name: "never".to_string(),
            elapsed_nanos: None,
            output: String::new(),
            still_running: vec![],
        }
    );
}

#[test]
fn restarted_tool_keeps_its_place() {
    let mut st = RendererState::new();
    st.step("s", "s", started("a"), 1);
    st.step("s", "s", started("b"), 2);
    st.step("s", "s", started("a"), 10);
    assert_eq!(st.running(), vec!["a".to_string(), "b".to_string()]);
    assert_eq!(
        st.step("s", "s", finished("a", false, ""), 15),
        RenderAction::ShowToolFailure { tool_name: "a".to_string(), elapsed_nanos: Some(5), output: String::new() }
    );
}

#[test]
fn messages_and_endings() {
    let mut st = RendererState::new();
    assert_eq!(
        st.step("s", "s", StreamEvent::UserInput { content: "  hi \n".to_string() }, 0),
        RenderAction::EchoInput { text: "hi".to_string() }
    );
    assert_eq!(
        st.step("s", "s", StreamEvent::AssistantMessage { content: " \n ".to_string() }, 0),
        RenderAction::Skip
    );
    assert_eq!(
        st.step("s", "s", StreamEvent::AssistantMessage { content: " yes ".to_string() }, 0),
        RenderAction::ShowMessage { text: " yes ".to_string() }
    );
    assert_eq!(
        st.step("s", "s", StreamEvent::Error { message: "bad".to_string() }, 0),
        RenderAction::ShowError { message: "bad".to_string() }
    );
    assert_eq!(st.step("s", "s", StreamEvent::Progress, 0), RenderAction::ShowProgress);
    assert_eq!(
        st.step("s", "s", StreamEvent::Done { finish_reason: "max_iterations".to_string() }, 0),
        RenderAction::Finish { outcome: Outcome::MaxIterations, reason: "max_iterations".to_string() }
    );
    assert_eq!(
        st.step("s", "s", StreamEvent::Done { finish_reason: "cancelled".to_string() }, 0),
        RenderAction::Finish { outcome: Outcome::Other, reason: "cancelled".to_string() }
    );
}

#[test]
fn finish_reasons() {
    assert_eq!(finish_outcome("stop"), Outcome::Completed);
    assert_eq!(finish_outcome("max_iterations"), Outcome::MaxIterations);
    assert_eq!(finish_outcome("tool_error"), Outcome::ToolError);
    assert_eq!(finish_outcome("error"), Outcome::ExecutionError);
    assert_eq!(finish_outcome("cancelled"), Outcome::Other);
}

#[test]
fn approval_answers() {
    assert!(is_approval(""));
    assert!(is_approval("  \n"));
    assert!(is_approval("Y"));
    assert!(is_approval(" yEs "));
    assert!(!is_approval("no"));
    assert!(!is_approval("yess"));
}

#[test]
fn output_previews() {
    assert_eq!(output_preview("short"), "short");
    let exact = "x".repeat(100);
    assert_eq!(output_preview(&exact), exact);
    let long = format!("{}{}", "a".repeat(100), "tail");
    assert_eq!(output_preview(&long), format!("{}...", "a".repeat(100)));
    let wide = format!("{}é{}", "b".repeat(98), "rest");
    assert_eq!(output_preview(&wide), format!("{}é...", "b".repeat(98)));
}
