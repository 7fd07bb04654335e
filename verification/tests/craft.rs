use radium_cli::craft::{
    decide_task, engine_choice, in_scope, may_make_pass, model_choice, response_preview, run_mode,
    RunMode, TaskDecision,
};

#[test]
fn run_modes_and_passes() {
    assert_eq!(run_mode(true), RunMode::Continuous);
    assert_eq!(run_mode(false), RunMode::Bounded(5));
    assert!(may_make_pass(RunMode::Bounded(5), 5));
    assert!(!may_make_pass(RunMode::Bounded(5), 6));
    assert!(may_make_pass(RunMode::Continuous, 1000));
    assert!(!may_make_pass(RunMode::Continuous, 1001));
}

#[test]
fn scopes() {
    let all = vec!["I1".to_string(), "I2".to_string()];
    assert_eq!(in_scope(None, all.clone()), all);
    assert_eq!(in_scope(Some("I9".to_string()), all), vec!["I9".to_string()]);
}

#[test]
fn task_decisions() {
    assert_eq!(decide_task(false, true, false, true, true), TaskDecision::AlreadyDone);
    assert_eq!(decide_task(false, false, true, false, false), TaskDecision::AlreadyDone);
    assert_eq!(decide_task(true, true, true, false, true), TaskDecision::BlockedByDependencies);
    assert_eq!(decide_task(false, false, false, true, false), TaskDecision::NoAgent);
    assert_eq!(decide_task(true, true, true, true, true), TaskDecision::Run);
    assert_eq!(decide_task(false, false, false, true, true), TaskDecision::Run);
}

#[test]
fn engine_and_model_choice() {
    assert_eq!(engine_choice(Some("anthropic"), Some("gemini")), ("anthropic".to_string(), true));
    assert_eq!(engine_choice(Some("gemini"), Some("gemini")), ("gemini".to_string(), false));
    assert_eq!(engine_choice(Some("openai"), None), ("openai".to_string(), true));
    assert_eq!(engine_choice(None, Some("gemini")), ("gemini".to_string(), false));
    assert_eq!(engine_choice(None, None), ("mock".to_string(), false));
    assert_eq!(model_choice(Some("gpt-4o")), "gpt-4o");
    assert_eq!(model_choice(None), "default");
}

#[test]
fn response_previews() {
    assert_eq!(response_preview(""), (vec![], 0));
    assert_eq!(response_preview("a\nb"), (vec!["a".to_string(), "b".to_string()], 2));
    let (shown, total) = response_preview("1\n2\n3\n4\n5\n6\n7\n");
    assert_eq!(shown, vec!["1", "2", "3", "4", "5"]);
    assert_eq!(total, 7);
}
