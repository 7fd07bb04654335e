//! What the terminal shows of an orchestration session's event stream, and
//! which tools are running at each moment. The caller receives the events,
//! hands each one to [`RendererState::step`] and shows what it returns.
use vstd::prelude::*;
use crate::text;
use crate::text::{chars_of, push_str, string_from_chars, trim_chars};
use vstd::string::StringSliceAdditionalSpecFns;
use vstd::utf8::{encode_utf8, is_char_boundary};

verus! {

/// An orchestration event, as far as the renderer reads it.
#[derive(Debug, Clone, PartialEq, Eq)]
pub enum StreamEvent {
    /// The user's input was received.
    UserInput { content: String },
    /// The assistant answered.
    AssistantMessage { content: String },
    /// The model asked for a tool call.
    ToolCallRequested { tool_name: String },
    /// A tool began to run.
    ToolCallStarted { tool_name: String },
    /// A tool finished, successfully or not, with its output.
    ToolCallFinished { tool_name: String, success: bool, output: String },
    /// A tool needs the user's approval.
    ApprovalRequired { tool_name: String, reason: String },
    /// The orchestration failed.
    Error { message: String },
    /// The orchestration ended for the given reason.
    Done { finish_reason: String },
    /// A thinking or recommendation event, shown as it is.
    Progress,
}

/// How a session ended, by its finish reason.
#[derive(Debug, Clone, Copy, PartialEq, Eq)]
pub enum Outcome {
    /// `stop`.
    Completed,
    /// `max_iterations`.
    MaxIterations,
    /// `tool_error`.
    ToolError,
    /// `error`.
    ExecutionError,
    /// Any other reason, shown as it is.
    Other,
}

/// What to show for one event.
#[derive(Debug, Clone, PartialEq, Eq)]
pub enum RenderAction {
    /// Nothing: the event belongs to another session, or is an empty answer.
    Skip,
    /// Echo the user's input, trimmed.
    EchoInput { text: String },
    /// Show the assistant's answer.
    ShowMessage { text: String },
    /// Announce a requested tool.
    ShowToolRequest { tool_name: String },
    /// Announce a started tool, with all tools now running (in the order
    /// they started; more than one means they run in parallel).
    ShowToolStart { tool_name: String, running: Vec<String> },
    /// A tool succeeded, after the given nanoseconds when its start was
    /// seen, with its output and the tools still running.
    ShowToolSuccess {
        tool_name: String,
        elapsed_nanos: Option<u64>,
        output: String,
        still_running: Vec<String>,
    },
    /// A tool failed, after the given nanoseconds when its start was seen.
    ShowToolFailure { tool_name: String, elapsed_nanos: Option<u64>, output: String },
    /// Ask whether a tool may run.
    AskApproval { tool_name: String, reason: String },
    /// Show an error.
    ShowError { message: String },
    /// Show a thinking or recommendation event.
    ShowProgress,
    /// Show how the session ended (by its outcome, or by its reason when
    /// the outcome is `Other`), and stop reading events.
    Finish { outcome: Outcome, reason: String },
}

/// The tools running, each with the time it started, in the order they
/// started.
pub type ActiveTools = Seq<(Seq<char>, u64)>;

/// Whether `name` is among the running tools.
pub open spec fn is_running(s: ActiveTools, name: Seq<char>) -> bool {
    exists|i: int| 0 <= i < s.len() && #[trigger] s[i].0 == name
}

/// No tool is listed twice.
pub open spec fn distinct_tools(s: ActiveTools) -> bool {
    forall|i: int, j: int| 0 <= i < j < s.len() ==> #[trigger] s[i].0 != #[trigger] s[j].0
}

/// The position of a running tool.
pub open spec fn position_of(s: ActiveTools, name: Seq<char>) -> int {
    choose|i: int| 0 <= i < s.len() && #[trigger] s[i].0 == name
}

/// The running tools after `name` starts at `now`: a tool already running
/// gets the new start time in its place, another is added last.
pub open spec fn after_start(s: ActiveTools, name: Seq<char>, now: u64) -> ActiveTools {
    if is_running(s, name) {
        s.update(position_of(s, name), (name, now))
    } else {
        s.push((name, now))
    }
}

/// The time from `start` to `now`, or zero if the clock went back.
pub open spec fn elapsed(start: u64, now: u64) -> u64 {
    if now >= start {
        (now - start) as u64
    } else {
        0
    }
}

/// The running tools after `name` finishes at `now`, and how long it ran
/// when its start was seen.
pub open spec fn after_finish(s: ActiveTools, name: Seq<char>, now: u64) -> (ActiveTools, Option<u64>) {
    if is_running(s, name) {
        let i = position_of(s, name);
        (s.remove(i), Some(elapsed(s[i].1, now)))
    } else {
        (s, None)
    }
}

/// The names of the running tools, in order.
pub open spec fn tool_names(s: ActiveTools) -> Seq<Seq<char>> {
    s.map_values(|p: (Seq<char>, u64)| p.0)
}

/// The outcome a finish reason names.
pub open spec fn outcome_of(reason: Seq<char>) -> Outcome {
    if reason == "stop"@ {
        Outcome::Completed
    } else if reason == "max_iterations"@ {
        Outcome::MaxIterations
    } else if reason == "tool_error"@ {
        Outcome::ToolError
    } else if reason == "error"@ {
        Outcome::ExecutionError
    } else {
        Outcome::Other
    }
}

/// The renderer's memory between events: the tools running.
pub struct RendererState {
    active: Vec<(String, u64)>,
}

impl RendererState {
    /// The running tools, with their start times.
    pub closed spec fn tools(&self) -> ActiveTools {
        self.active@.map_values(|p: (String, u64)| (p.0@, p.1))
    }

    /// The state is well formed: no tool is listed twice.
    pub open spec fn wf(&self) -> bool {
        distinct_tools(self.tools())
    }

    /// The state before any event: no tool running.
    pub fn new() -> (r: Self)
        ensures
            r.wf(),
            r.tools() == Seq::<(Seq<char>, u64)>::empty(),
    {
        let r = RendererState { active: Vec::new() };
        assert(r.tools() =~= Seq::<(Seq<char>, u64)>::empty());
        r
    }

    /// The names of the running tools, in the order they started.
    pub fn running(&self) -> (r: Vec<String>)
        ensures
            text::strings_view(r@) == tool_names(self.tools()),
    {
        let mut r: Vec<String> = Vec::new();
        let mut k: usize = 0;
        while k < self.active.len()
            invariant
                k <= self.active.len(),
                r.len() == k,
                self.tools().len() == self.active.len(),
                text::strings_view(r@) == tool_names(self.tools()).take(k as int),
            decreases self.active.len() - k,
        {
            r.push(self.active[k].0.clone());
            k += 1;
            assert(text::strings_view(r@) =~= tool_names(self.tools()).take(k as int));
        }
        assert(tool_names(self.tools()).take(k as int) =~= tool_names(self.tools()));
        r
    }

    /// The position of `name` among the running tools, if it runs.
    fn find(&self, name: &String) -> (r: Option<usize>)
        requires
            self.wf(),
        ensures
            r is None <==> !is_running(self.tools(), name@),
            r matches Some(i) ==> i < self.active.len() && i == position_of(self.tools(), name@),
    {
        let mut k: usize = 0;
        while k < self.active.len()
            invariant
                self.wf(),
                k <= self.active.len(),
                forall|j: int| 0 <= j < k ==> self.tools()[j].0 != name@,
            decreases self.active.len() - k,
        {
            if self.active[k].0 == *name {
                proof {
                    let s = self.tools();
                    assert(s[k as int].0 == name@);
                    let p = position_of(s, name@);
                    assert(0 <= p < s.len() && s[p].0 == name@);
                    if p != k {
                        if p < k {
                            assert(s[p].0 != s[k as int].0);
                        } else {
                            assert(s[k as int].0 != s[p].0);
                        }
                    }
                }
                return Some(k);
            }
            k += 1;
        }
        None
    }

    /// Records that `name` started at `now` (nanoseconds of a monotonic
    /// clock).
    pub fn start_tool(&mut self, name: &String, now: u64)
        requires
            old(self).wf(),
        ensures
            final(self).wf(),
            final(self).tools() == after_start(old(self).tools(), name@, now),
    {
        let ghost s = self.tools();
        match self.find(name) {
            Some(i) => {
                self.active.set(i, (name.clone(), now));
                proof {
                    assert(self.tools() =~= s.update(i as int, (name@, now)));
                }
            },
            None => {
                self.active.push((name.clone(), now));
                proof {
                    assert(self.tools() =~= s.push((name@, now)));
                    assert forall|a: int, b: int| 0 <= a < b < self.tools().len() implies
                        #[trigger] self.tools()[a].0 != #[trigger] self.tools()[b].0 by {
                        if b == s.len() {
                            assert(s[a].0 != name@);
                        } else {
                            assert(s[a].0 != s[b].0);
                        }
                    }
                }
            },
        }
    }

    /// Records that `name` finished at `now`, and returns how long it ran
    /// when its start was seen.
    pub fn finish_tool(&mut self, name: &String, now: u64) -> (r: Option<u64>)
        requires
            old(self).wf(),
        ensures
            final(self).wf(),
            (final(self).tools(), r) == after_finish(old(self).tools(), name@, now),
    {
        let ghost s = self.tools();
        match self.find(name) {
            Some(i) => {
                let start = self.active[i].1;
                let e = if now >= start {
                    now - start
                } else {
                    0
                };
                self.active.remove(i);
                proof {
                    assert(self.tools() =~= s.remove(i as int));
                    assert forall|a: int, b: int| 0 <= a < b < self.tools().len() implies
                        #[trigger] self.tools()[a].0 != #[trigger] self.tools()[b].0 by {
                        if a < i {
                            if b < i {
                                assert(s[a].0 != s[b].0);
                            } else {
                                assert(s[a].0 != s[b + 1].0);
                            }
                        } else {
                            assert(s[a + 1].0 != s[b + 1].0);
                        }
                    }
                }
                Some(e)
            },
            None => None,
        }
    }
}

/// Whether an answer to an approval question approves: nothing, `y` or
/// `yes` in any ASCII case, ignoring surrounding whitespace.
pub open spec fn approves(answer: Seq<char>) -> bool {
    let a = text::trim(answer);
    a.len() == 0 || text::ascii_lowercase(a) == "y"@ || text::ascii_lowercase(a) == "yes"@
}

/// Whether the user's answer to an approval question approves the tool.
pub fn is_approval(answer: &str) -> (r: bool)
    ensures
        r == approves(answer@),
{
    let a = trim_chars(&chars_of(answer));
    if a.len() == 0 {
        return true;
    }
    let l = string_from_chars(&text::ascii_lowercase_chars(&a));
    l == String::from_str("y") || l == String::from_str("yes")
}

/// What an event of the session shows, given the running tools `s` before
/// it and `next` after it, at time `now`.
pub open spec fn renders(s: ActiveTools, e: StreamEvent, now: u64, r: RenderAction, next: ActiveTools) -> bool {
    match e {
        StreamEvent::UserInput { content } => {
            &&& next == s
            &&& r matches RenderAction::EchoInput { text: t } && t@ == text::trim(content@)
        },
        StreamEvent::AssistantMessage { content } => {
            &&& next == s
            &&& if text::trim(content@).len() == 0 {
                r is Skip
            } else {
                r matches RenderAction::ShowMessage { text: t } && t@ == content@
            }
        },
        StreamEvent::ToolCallRequested { tool_name } => {
            &&& next == s
            &&& r matches RenderAction::ShowToolRequest { tool_name: t } && t@ == tool_name@
        },
        StreamEvent::ToolCallStarted { tool_name } => {
            &&& next == after_start(s, tool_name@, now)
            &&& r matches RenderAction::ShowToolStart { tool_name: t, running } && t@ == tool_name@
                && text::strings_view(running@) == tool_names(next)
        },
        StreamEvent::ToolCallFinished { tool_name, success, output } => {
            let (n, el) = after_finish(s, tool_name@, now);
            &&& next == n
            &&& if success {
                r matches RenderAction::ShowToolSuccess {
                    tool_name: t,
                    elapsed_nanos,
                    output: o,
                    still_running,
                } && t@ == tool_name@ && elapsed_nanos == el && o@ == output@ && text::strings_view(
                    still_running@,
                ) == tool_names(n)
            } else {
                r matches RenderAction::ShowToolFailure { tool_name: t, elapsed_nanos, output: o }
                    && t@ == tool_name@ && elapsed_nanos == el && o@ == output@
            }
        },
        StreamEvent::ApprovalRequired { tool_name, reason } => {
            &&& next == s
            &&& r matches RenderAction::AskApproval { tool_name: t, reason: why } && t@ == tool_name@
                && why@ == reason@
        },
        StreamEvent::Error { message } => {
            &&& next == s
            &&& r matches RenderAction::ShowError { message: m } && m@ == message@
        },
        StreamEvent::Done { finish_reason } => {
            &&& next == s
            &&& r matches RenderAction::Finish { outcome, reason } && outcome == outcome_of(
                finish_reason@,
            ) && reason@ == finish_reason@
        },
        StreamEvent::Progress => {
            &&& next == s
            &&& r is ShowProgress
        },
    }
}

/// The outcome a finish reason names.
pub fn finish_outcome(reason: &str) -> (r: Outcome)
    ensures
        r == outcome_of(reason@),
{
    let s = String::from_str(reason);
    if s == String::from_str("stop") {
        Outcome::Completed
    } else if s == String::from_str("max_iterations") {
        Outcome::MaxIterations
    } else if s == String::from_str("tool_error") {
        Outcome::ToolError
    } else if s == String::from_str("error") {
        Outcome::ExecutionError
    } else {
        Outcome::Other
    }
}

impl RendererState {
    /// Takes in one event of the stream of `session`, stamped with the
    /// session it belongs to and the time `now` it arrived, and says what
    /// to show. Events of other sessions are skipped and change nothing.
    pub fn step(&mut self, session: &str, event_session: &str, event: StreamEvent, now: u64) -> (r:
        RenderAction)
        requires
            old(self).wf(),
        ensures
            final(self).wf(),
            event_session@ != session@ ==> r is Skip && final(self).tools() == old(self).tools(),
            event_session@ == session@ ==> renders(old(self).tools(), event, now, r, final(self).tools()),
    {
        if String::from_str(event_session) != String::from_str(session) {
            return RenderAction::Skip;
        }
        match event {
            StreamEvent::UserInput { content } => {
                let t = string_from_chars(&trim_chars(&chars_of(content.as_str())));
                RenderAction::EchoInput { text: t }
            },
            StreamEvent::AssistantMessage { content } => {
                if trim_chars(&chars_of(content.as_str())).len() == 0 {
                    RenderAction::Skip
                } else {
                    RenderAction::ShowMessage { text: content }
                }
            },
            StreamEvent::ToolCallRequested { tool_name } => RenderAction::ShowToolRequest { tool_name },
            StreamEvent::ToolCallStarted { tool_name } => {
                self.start_tool(&tool_name, now);
                let running = self.running();
                RenderAction::ShowToolStart { tool_name, running }
            },
            StreamEvent::ToolCallFinished { tool_name, success, output } => {
                let elapsed_nanos = self.finish_tool(&tool_name, now);
                if success {
                    let still_running = self.running();
                    RenderAction::ShowToolSuccess { tool_name, elapsed_nanos, output, still_running }
                } else {
                    RenderAction::ShowToolFailure { tool_name, elapsed_nanos, output }
                }
            },
            StreamEvent::ApprovalRequired { tool_name, reason } => RenderAction::AskApproval {
                tool_name,
                reason,
            },
            StreamEvent::Error { message } => RenderAction::ShowError { message },
            StreamEvent::Done { finish_reason } => {
                let outcome = finish_outcome(finish_reason.as_str());
                RenderAction::Finish { outcome, reason: finish_reason }
            },
            StreamEvent::Progress => RenderAction::ShowProgress,
        }
    }
}

/// Starting a tool keeps the tools distinct, and afterwards exactly the
/// tools that ran before and the started one are running.
pub proof fn lemma_start_adds_tool(s: ActiveTools, name: Seq<char>, now: u64, other: Seq<char>)
    requires
        distinct_tools(s),
    ensures
        distinct_tools(after_start(s, name, now)),
        is_running(after_start(s, name, now), other) <==> is_running(s, other) || other == name,
{
    let n = after_start(s, name, now);
    if is_running(s, name) {
        let p = position_of(s, name);
        assert forall|i: int, j: int| 0 <= i < j < n.len() implies #[trigger] n[i].0 != #[trigger] n[j].0 by {
            assert(s[i].0 != s[j].0);
        }
        if is_running(s, other) {
            let k = choose|k: int| 0 <= k < s.len() && #[trigger] s[k].0 == other;
            assert(n[k].0 == other);
        }
        if is_running(n, other) {
            let k = choose|k: int| 0 <= k < n.len() && #[trigger] n[k].0 == other;
            if k != p {
                assert(s[k].0 == other);
            }
        }
        assert(n[p].0 == name);
    } else {
        assert forall|i: int, j: int| 0 <= i < j < n.len() implies #[trigger] n[i].0 != #[trigger] n[j].0 by {
            if j == s.len() {
                assert(s[i].0 != name);
            } else {
                assert(s[i].0 != s[j].0);
            }
        }
        if is_running(s, other) {
            let k = choose|k: int| 0 <= k < s.len() && #[trigger] s[k].0 == other;
            assert(n[k].0 == other);
        }
        if is_running(n, other) {
            let k = choose|k: int| 0 <= k < n.len() && #[trigger] n[k].0 == other;
            if k < s.len() {
                assert(s[k].0 == other);
            }
        }
        assert(n[s.len() as int].0 == name);
    }
}

/// Finishing a tool keeps the tools distinct, and afterwards exactly the
/// tools that ran before, but the finished one, are running.
pub proof fn lemma_finish_removes_tool(s: ActiveTools, name: Seq<char>, now: u64, other: Seq<char>)
    requires
        distinct_tools(s),
    ensures
        distinct_tools(after_finish(s, name, now).0),
        is_running(after_finish(s, name, now).0, other) <==> is_running(s, other) && other != name,
{
    if is_running(s, name) {
        let p = position_of(s, name);
        let n = s.remove(p);
        assert(n == after_finish(s, name, now).0);
        assert forall|i: int, j: int| 0 <= i < j < n.len() implies #[trigger] n[i].0 != #[trigger] n[j].0 by {
            if i < p {
                if j < p {
                    assert(s[i].0 != s[j].0);
                } else {
                    assert(s[i].0 != s[j + 1].0);
                }
            } else {
                assert(s[i + 1].0 != s[j + 1].0);
            }
        }
        if is_running(n, other) {
            let k = choose|k: int| 0 <= k < n.len() && #[trigger] n[k].0 == other;
            if k < p {
                assert(s[k].0 == other);
                assert(s[k].0 != s[p].0);
            } else {
                assert(s[k + 1].0 == other);
                assert(s[p].0 != s[k + 1].0);
            }
        }
        if is_running(s, other) && other != name {
            let k = choose|k: int| 0 <= k < s.len() && #[trigger] s[k].0 == other;
            if k < p {
                assert(n[k].0 == other);
            } else {
                assert(k != p);
                assert(n[k - 1].0 == other);
            }
        }
    }
}

/// A tool that starts at `start` and then finishes at `finish` is reported
/// to have run for the time between, and is no longer running.
pub proof fn lemma_start_then_finish(s: ActiveTools, name: Seq<char>, start: u64, finish: u64)
    requires
        distinct_tools(s),
    ensures
        after_finish(after_start(s, name, start), name, finish).1 == Some(elapsed(start, finish)),
        !is_running(after_finish(after_start(s, name, start), name, finish).0, name),
{
    let n = after_start(s, name, start);
    lemma_start_adds_tool(s, name, start, name);
    lemma_finish_removes_tool(n, name, finish, name);
    let q = position_of(n, name);
    let p = if is_running(s, name) {
        position_of(s, name)
    } else {
        s.len() as int
    };
    assert(n[p] == (name, start));
    if q != p {
        if q < p {
            assert(n[q].0 != n[p].0);
        } else {
            assert(n[p].0 != n[q].0);
        }
    }
}

/// The UTF-8 encoding of two character sequences one after the other is
/// the encoding of the first followed by that of the second.
proof fn lemma_encode_concat(a: Seq<char>, b: Seq<char>)
    ensures
        encode_utf8(a + b) == encode_utf8(a) + encode_utf8(b),
    decreases a.len(),
{
    if a.len() == 0 {
        assert(a + b =~= b);
    } else {
        lemma_encode_concat(a.drop_first(), b);
        assert((a + b).drop_first() =~= a.drop_first() + b);
        assert((a + b)[0] == a[0]);
    }
}

/// The output shown for a successful tool: at most its first hundred bytes,
/// followed by `...` when it was longer.
pub fn output_preview(output: &str) -> (r: String)
    requires
        output.spec_bytes().len() <= usize::MAX,
        output.spec_bytes().len() <= 100 || is_char_boundary(output.spec_bytes(), 100),
    ensures
        output.spec_bytes().len() <= 100 ==> r@ == output@,
        output.spec_bytes().len() > 100 ==> encode_utf8(r@) == output.spec_bytes().take(100)
            + encode_utf8("..."@),
{
    if output.len() > 100 {
        let (head, _tail) = output.split_at(100);
        let mut v = chars_of(head);
        push_str(&mut v, "...");
        proof {
            lemma_encode_concat(head@, "..."@);
            assert(encode_utf8(head@) =~= output.spec_bytes().take(100));
        }
        string_from_chars(&v)
    } else {
        String::from_str(output)
    }
}

} // verus!
