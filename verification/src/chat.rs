//! The chat session: what a typed line asks for, the session's id, the
//! history and prompt handed to the model, and how long ago a session was
//! active.
use vstd::prelude::*;
use crate::text;
use crate::text::{chars_of, push_decimal, push_str, string_from_chars};

verus! {

/// How long ago, `secs` seconds back (negative when in the future):
/// `just now` under a minute, then whole minutes, hours or days.
pub open spec fn since_text(secs: int) -> Seq<char> {
    if secs < 60 {
        "just now"@
    } else if secs < 3600 {
        text::decimal((secs / 60) as nat) + "m ago"@
    } else if secs < 86400 {
        text::decimal((secs / 3600) as nat) + "h ago"@
    } else {
        text::decimal((secs / 86400) as nat) + "d ago"@
    }
}

/// A relative time such as `2h ago` for a moment `elapsed_secs` seconds
/// in the past.
pub fn format_relative_time(elapsed_secs: i64) -> (r: String)
    ensures
        r@ == since_text(elapsed_secs as int),
{
    if elapsed_secs < 60 {
        return String::from_str("just now");
    }
    let secs = elapsed_secs as u64;
    let mut out: Vec<char> = Vec::new();
    if secs < 3600 {
        push_decimal(&mut out, secs / 60);
        push_str(&mut out, "m ago");
    } else if secs < 86400 {
        push_decimal(&mut out, secs / 3600);
        push_str(&mut out, "h ago");
    } else {
        push_decimal(&mut out, secs / 86400);
        push_str(&mut out, "d ago");
    }
    string_from_chars(&out)
}

/// One message of a chat session: who spoke, and what was said.
#[derive(Debug, Clone, PartialEq, Eq)]
pub struct SessionMessage {
    /// The speaker's role as displayed, such as `user` or `assistant`.
    pub role: String,
    /// The message text.
    pub content: String,
}

/// The lines `role: content` of the messages, each ended by a newline.
pub open spec fn history_lines(ms: Seq<SessionMessage>) -> Seq<char>
    decreases ms.len(),
{
    if ms.len() == 0 {
        Seq::empty()
    } else {
        history_lines(ms.drop_last()) + ms.last().role@ + ": "@ + ms.last().content@ + "\n"@
    }
}

/// The conversation history given to the model: empty without messages,
/// otherwise a `Conversation History:` line followed by one `role: content`
/// line per message.
pub open spec fn history_text(ms: Seq<SessionMessage>) -> Seq<char> {
    if ms.len() == 0 {
        Seq::empty()
    } else {
        "Conversation History:\n"@ + history_lines(ms)
    }
}

/// The conversation history of loaded session messages, as handed to the model.
pub fn format_session_history(messages: &Vec<SessionMessage>) -> (r: String)
    ensures
        r@ == history_text(messages@),
{
    if messages.len() == 0 {
        return String::new();
    }
    let mut out = chars_of("Conversation History:\n");
    let ghost head = out@;
    let mut k: usize = 0;
    while k < messages.len()
        invariant
            k <= messages.len(),
            head == "Conversation History:\n"@,
            out@ == head + history_lines(messages@.take(k as int)),
        decreases messages.len() - k,
    {
        assert(messages@.take(k + 1).drop_last() =~= messages@.take(k as int));
        push_str(&mut out, messages[k].role.as_str());
        push_str(&mut out, ": ");
        push_str(&mut out, messages[k].content.as_str());
        push_str(&mut out, "\n");
        k += 1;
        assert(out@ =~= head + history_lines(messages@.take(k as int)));
    }
    assert(messages@.take(messages.len() as int) =~= messages@);
    string_from_chars(&out)
}

/// What a line typed in a chat session asks for.
#[derive(Debug, Clone, Copy, PartialEq, Eq)]
pub enum ChatInput {
    /// Nothing was typed.
    Empty,
    /// `/quit`, `/exit` or `/q`: end the session.
    Quit,
    /// `/help` or `/h`.
    Help,
    /// `/mcp-commands` or `/mcp-help`.
    McpCommands,
    /// `/history`.
    History,
    /// `/clear`.
    Clear,
    /// `/save`.
    Save,
    /// Another command starting with a single `/`, looked up among the MCP prompts.
    SlashCommand,
    /// A message for the agent.
    Message,
}

/// What the trimmed line `t` asks for.
pub open spec fn input_kind(t: Seq<char>) -> ChatInput {
    if t.len() == 0 {
        ChatInput::Empty
    } else if t == "/quit"@ || t == "/exit"@ || t == "/q"@ {
        ChatInput::Quit
    } else if t == "/help"@ || t == "/h"@ {
        ChatInput::Help
    } else if t == "/mcp-commands"@ || t == "/mcp-help"@ {
        ChatInput::McpCommands
    } else if t == "/history"@ {
        ChatInput::History
    } else if t == "/clear"@ {
        ChatInput::Clear
    } else if t == "/save"@ {
        ChatInput::Save
    } else if t[0] == '/' && !(t.len() >= 2 && t[1] == '/') {
        ChatInput::SlashCommand
    } else {
        ChatInput::Message
    }
}

/// A line typed in a chat session: its trimmed text and what it asks for.
pub fn classify_chat_input(line: &str) -> (r: (String, ChatInput))
    ensures
        r.0@ == text::trim(line@),
        r.1 == input_kind(text::trim(line@)),
{
    let t = text::trim_chars(&chars_of(line));
    let s = string_from_chars(&t);
    let kind = if t.len() == 0 {
        ChatInput::Empty
    } else if s == String::from_str("/quit") || s == String::from_str("/exit") || s
        == String::from_str("/q") {
        ChatInput::Quit
    } else if s == String::from_str("/help") || s == String::from_str("/h") {
        ChatInput::Help
    } else if s == String::from_str("/mcp-commands") || s == String::from_str("/mcp-help") {
        ChatInput::McpCommands
    } else if s == String::from_str("/history") {
        ChatInput::History
    } else if s == String::from_str("/clear") {
        ChatInput::Clear
    } else if s == String::from_str("/save") {
        ChatInput::Save
    } else if t[0] == '/' && !(t.len() >= 2 && t[1] == '/') {
        ChatInput::SlashCommand
    } else {
        ChatInput::Message
    };
    (s, kind)
}

/// The prompt of a chat turn: the context files and the conversation
/// history, each under its own heading when present, then the request.
pub open spec fn turn_prompt(context: Seq<char>, history: Seq<char>, input: Seq<char>) -> Seq<char> {
    if context.len() > 0 && history.len() > 0 {
        "# Context Files\n\n"@ + context + "\n\n---\n\n# Conversation History\n\n"@ + history
            + "\n\n---\n\nCurrent Request: "@ + input
    } else if context.len() > 0 {
        "# Context Files\n\n"@ + context + "\n\n---\n\nCurrent Request: "@ + input
    } else if history.len() > 0 {
        history + "\n\nCurrent Request: "@ + input
    } else {
        input
    }
}

/// The prompt of a chat turn, from the context files, the conversation
/// history and the user's request.
pub fn build_turn_prompt(context_files: &str, history_context: &str, input: &str) -> (r: String)
    ensures
        r@ == turn_prompt(context_files@, history_context@, input@),
{
    let has_context = chars_of(context_files).len() > 0;
    let has_history = chars_of(history_context).len() > 0;
    let mut out: Vec<char> = Vec::new();
    if has_context && has_history {
        push_str(&mut out, "# Context Files\n\n");
        push_str(&mut out, context_files);
        push_str(&mut out, "\n\n---\n\n# Conversation History\n\n");
        push_str(&mut out, history_context);
        push_str(&mut out, "\n\n---\n\nCurrent Request: ");
    } else if has_context {
        push_str(&mut out, "# Context Files\n\n");
        push_str(&mut out, context_files);
        push_str(&mut out, "\n\n---\n\nCurrent Request: ");
    } else if has_history {
        push_str(&mut out, history_context);
        push_str(&mut out, "\n\nCurrent Request: ");
    }
    push_str(&mut out, input);
    assert(out@ =~= turn_prompt(context_files@, history_context@, input@));
    string_from_chars(&out)
}

/// Why a chat session could not be started.
#[derive(Debug, Clone, Copy, PartialEq, Eq)]
pub enum ChatSessionError {
    /// `--resume` was given without a session name.
    ResumeNeedsName,
}

/// The id of a chat session: the given name; when starting a new session
/// without one, the agent's id and the start time (`YYYYMMDD_HHMMSS`,
/// `stamp`) joined by `_`. Resuming needs a name.
pub fn chat_session_id(agent_id: &str, session_name: Option<String>, resume: bool, stamp: &str) -> (r:
    Result<String, ChatSessionError>)
    ensures
        match session_name {
            Some(n) => r matches Ok(id) && id@ == n@,
            None => if resume {
                r == Err::<String, ChatSessionError>(ChatSessionError::ResumeNeedsName)
            } else {
                r matches Ok(id) && id@ == agent_id@ + "_"@ + stamp@
            },
        },
{
    match session_name {
        Some(n) => Ok(n),
        None => {
            if resume {
                Err(ChatSessionError::ResumeNeedsName)
            } else {
                let mut id = chars_of(agent_id);
                push_str(&mut id, "_");
                push_str(&mut id, stamp);
                Ok(string_from_chars(&id))
            }
        },
    }
}

/// The conversation history given with a request: the session's own
/// messages when it has some, else the summary of earlier interactions.
pub fn history_context(messages: Option<&Vec<SessionMessage>>, summary: String) -> (r: String)
    ensures
        match messages {
            Some(ms) => if ms@.len() > 0 {
                r@ == history_text(ms@)
            } else {
                r == summary
            },
            None => r == summary,
        },
{
    match messages {
        Some(ms) => {
            if ms.len() > 0 {
                format_session_history(ms)
            } else {
                summary
            }
        },
        None => summary,
    }
}

impl ChatSessionError {
    /// The message shown for the error.
    pub fn message(&self) -> (r: String)
        ensures
            r@ == "--resume requires a session name"@,
    {
        String::from_str("--resume requires a session name")
    }
}

} // verus!
