//! The decisions of `rad craft` while it executes a plan: how many passes
//! it makes over the plan, which iterations and tasks each pass looks at,
//! which of them run, with which engine and model, and how much of a
//! task's response is shown.
use vstd::prelude::*;
use crate::text;
use crate::text::{chars_of, lines_of, string_from_chars};

verus! {

/// How many passes over the plan are made.
#[derive(Debug, Clone, Copy, PartialEq, Eq)]
pub enum RunMode {
    /// At most this many passes.
    Bounded(usize),
    /// Passes until no task is left, up to a sanity limit.
    Continuous,
}

/// The number of passes a bounded run makes unless told otherwise.
pub const DEFAULT_PASSES: usize = 5;

/// The number of passes after which a continuous run stops anyway.
pub const CONTINUOUS_SANITY_LIMIT: usize = 1000;

/// The run mode: continuous with `--yolo`, otherwise bounded to five passes.
pub fn run_mode(yolo: bool) -> (r: RunMode)
    ensures
        r == (if yolo {
            RunMode::Continuous
        } else {
            RunMode::Bounded(DEFAULT_PASSES)
        }),
{
    if yolo {
        RunMode::Continuous
    } else {
        RunMode::Bounded(DEFAULT_PASSES)
    }
}

/// Whether pass number `pass` (counted from 1) may be made.
pub open spec fn pass_allowed(mode: RunMode, pass: nat) -> bool {
    match mode {
        RunMode::Bounded(max) => pass <= max,
        RunMode::Continuous => pass <= CONTINUOUS_SANITY_LIMIT,
    }
}

/// Whether pass number `pass` (counted from 1) may be made.
pub fn may_make_pass(mode: RunMode, pass: usize) -> (r: bool)
    ensures
        r == pass_allowed(mode, pass as nat),
{
    match mode {
        RunMode::Bounded(max) => pass <= max,
        RunMode::Continuous => pass <= CONTINUOUS_SANITY_LIMIT,
    }
}

/// The iterations, or the tasks of an iteration, that a pass looks at: the
/// one a filter names, else all of them in order.
pub fn in_scope(filter: Option<String>, all: Vec<String>) -> (r: Vec<String>)
    ensures
        match filter {
            Some(f) => r@ == seq![f],
            None => r@ == all@,
        },
{
    match filter {
        Some(f) => vec![f],
        None => all,
    }
}

/// What happens to a task when a pass reaches it.
#[derive(Debug, Clone, Copy, PartialEq, Eq)]
pub enum TaskDecision {
    /// Its iteration, or the task itself, is done and this is no resumed
    /// run: it is passed over.
    AlreadyDone,
    /// A task it depends on is not done: it waits for a later pass.
    BlockedByDependencies,
    /// No agent is assigned to it: it is passed over.
    NoAgent,
    /// It runs.
    Run,
}

/// What happens to a task, checked in this order: a finished iteration or
/// task is passed over (unless the run resumes), then the dependencies must
/// be met, then an agent must be assigned.
pub open spec fn task_decision(
    resume: bool,
    iteration_done: bool,
    task_done: bool,
    dependencies_met: bool,
    has_agent: bool,
) -> TaskDecision {
    if !resume && (iteration_done || task_done) {
        TaskDecision::AlreadyDone
    } else if !dependencies_met {
        TaskDecision::BlockedByDependencies
    } else if !has_agent {
        TaskDecision::NoAgent
    } else {
        TaskDecision::Run
    }
}

/// What happens to a task when a pass reaches it.
pub fn decide_task(
    resume: bool,
    iteration_done: bool,
    task_done: bool,
    dependencies_met: bool,
    has_agent: bool,
) -> (r: TaskDecision)
    ensures
        r == task_decision(resume, iteration_done, task_done, dependencies_met, has_agent),
{
    if !resume && (iteration_done || task_done) {
        TaskDecision::AlreadyDone
    } else if !dependencies_met {
        TaskDecision::BlockedByDependencies
    } else if !has_agent {
        TaskDecision::NoAgent
    } else {
        TaskDecision::Run
    }
}

/// The view of an optional string slice.
pub open spec fn opt_text(o: Option<&str>) -> Option<Seq<char>> {
    match o {
        Some(s) => Some(s@),
        None => None,
    }
}

/// The engine a task runs on: the one given on the command line, else the
/// agent's, else `mock`; and whether the command line overrides the agent's
/// choice (an engine is given and differs from the agent's).
pub fn engine_choice(cli_engine: Option<&str>, agent_engine: Option<&str>) -> (r: (String, bool))
    ensures
        r.0@ == match opt_text(cli_engine) {
            Some(e) => e,
            None => match opt_text(agent_engine) {
                Some(e) => e,
                None => "mock"@,
            },
        },
        r.1 == (opt_text(cli_engine) is Some && opt_text(cli_engine) != opt_text(agent_engine)),
{
    let engine = match cli_engine {
        Some(e) => String::from_str(e),
        None => match agent_engine {
            Some(e) => String::from_str(e),
            None => String::from_str("mock"),
        },
    };
    let overrides = match cli_engine {
        Some(c) => match agent_engine {
            Some(a) => String::from_str(c) != String::from_str(a),
            None => true,
        },
        None => false,
    };
    (engine, overrides)
}

/// The model a task runs with: the agent's, else `default`.
pub fn model_choice(agent_model: Option<&str>) -> (r: String)
    ensures
        r@ == match opt_text(agent_model) {
            Some(m) => m,
            None => "default"@,
        },
{
    match agent_model {
        Some(m) => String::from_str(m),
        None => String::from_str("default"),
    }
}

/// The number of lines of a response shown.
pub const RESPONSE_PREVIEW_LINES: usize = 5;

/// What is shown of a task's response: its first five lines, and how many
/// lines it has in all (more than five are announced as "more lines").
pub fn response_preview(response: &str) -> (r: (Vec<String>, usize))
    ensures
        r.1 == text::lines(response@).len(),
        text::strings_view(r.0@) == text::lines(response@).take(
            if r.1 < RESPONSE_PREVIEW_LINES {
                r.1 as int
            } else {
                RESPONSE_PREVIEW_LINES as int
            },
        ),
{
    let ls = lines_of(&chars_of(response));
    let ghost all = text::lines(response@);
    let n = if ls.len() < RESPONSE_PREVIEW_LINES {
        ls.len()
    } else {
        RESPONSE_PREVIEW_LINES
    };
    let mut shown: Vec<String> = Vec::new();
    let mut k: usize = 0;
    while k < n
        invariant
            k <= n <= ls.len(),
            text::views(ls@) == all,
            shown.len() == k,
            text::strings_view(shown@) == all.take(k as int),
        decreases n - k,
    {
        assert(all[k as int] == ls@[k as int]@);
        shown.push(string_from_chars(&ls[k]));
        k += 1;
        assert(text::strings_view(shown@) =~= all.take(k as int));
    }
    (shown, ls.len())
}

} // verus!
