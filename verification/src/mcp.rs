//! MCP server configuration: which server names the setup wizard accepts,
//! which transport a choice names, how a server's arguments are read, and
//! how long an OAuth token has left.
use vstd::prelude::*;
use crate::text;
use crate::text::{
    chars_of, push_decimal, push_str, split_words, starts_with, string_from_chars, trim_chars,
};

verus! {

/// How an MCP server is reached.
#[derive(Debug, Clone, Copy, PartialEq, Eq)]
pub enum Transport {
    /// A local command talking over its standard input and output.
    Stdio,
    /// A Server-Sent Events endpoint.
    Sse,
    /// An HTTP endpoint.
    Http,
}

/// The transport choices offered, in order.
pub open spec fn transport_option_texts() -> Seq<Seq<char>> {
    seq![
        "stdio - Local command-line server"@,
        "sse - Server-Sent Events (SSE) endpoint"@,
        "http - HTTP-based server"@,
    ]
}

/// The transport choices offered, in order.
pub fn transport_options() -> (r: Vec<String>)
    ensures
        text::strings_view(r@) == transport_option_texts(),
{
    let r = vec![
        String::from_str("stdio - Local command-line server"),
        String::from_str("sse - Server-Sent Events (SSE) endpoint"),
        String::from_str("http - HTTP-based server"),
    ];
    assert(text::strings_view(r@) =~= transport_option_texts());
    r
}

/// The transport a choice names by its first word.
pub open spec fn transport_named(choice: Seq<char>) -> Option<Transport> {
    if "stdio"@.is_prefix_of(choice) {
        Some(Transport::Stdio)
    } else if "sse"@.is_prefix_of(choice) {
        Some(Transport::Sse)
    } else if "http"@.is_prefix_of(choice) {
        Some(Transport::Http)
    } else {
        None
    }
}

/// The transport a choice names: it starts with `stdio`, `sse` or `http`.
pub fn transport_of(choice: &str) -> (r: Option<Transport>)
    ensures
        r == transport_named(choice@),
{
    let c = chars_of(choice);
    if starts_with(&c, &chars_of("stdio")) {
        Some(Transport::Stdio)
    } else if starts_with(&c, &chars_of("sse")) {
        Some(Transport::Sse)
    } else if starts_with(&c, &chars_of("http")) {
        Some(Transport::Http)
    } else {
        None
    }
}

/// Why a server name was refused.
#[derive(Debug, Clone, PartialEq, Eq)]
pub enum ServerNameError {
    /// The name is empty.
    Empty,
    /// A server of that name exists.
    Duplicate(String),
}

impl ServerNameError {
    /// The message shown for the refusal.
    pub fn message(&self) -> (r: String)
        ensures
            r@ == match self {
                ServerNameError::Empty => "Server name cannot be empty"@,
                ServerNameError::Duplicate(n) => "A server named '"@ + n@ + "' already exists"@,
            },
    {
        match self {
            ServerNameError::Empty => String::from_str("Server name cannot be empty"),
            ServerNameError::Duplicate(n) => {
                let mut m = chars_of("A server named '");
                push_str(&mut m, n.as_str());
                push_str(&mut m, "' already exists");
                string_from_chars(&m)
            },
        }
    }
}

/// Checks a new server's name: it must not be empty, nor the name of a
/// configured server.
pub fn check_server_name(name: &str, existing: &Vec<String>) -> (r: Result<(), ServerNameError>)
    ensures
        name@.len() == 0 ==> r == Err::<(), ServerNameError>(ServerNameError::Empty),
        name@.len() > 0 && text::strings_view(existing@).contains(name@) ==> (r matches Err(
            ServerNameError::Duplicate(n),
        ) && n@ == name@),
        name@.len() > 0 && !text::strings_view(existing@).contains(name@) ==> r is Ok,
{
    if chars_of(name).len() == 0 {
        return Err(ServerNameError::Empty);
    }
    let target = String::from_str(name);
    let mut k: usize = 0;
    while k < existing.len()
        invariant
            k <= existing.len(),
            name@.len() > 0,
            target@ == name@,
            forall|j: int| 0 <= j < k ==> existing@[j]@ != name@,
        decreases existing.len() - k,
    {
        if existing[k] == target {
            assert(text::strings_view(existing@)[k as int] == name@);
            return Err(ServerNameError::Duplicate(target));
        }
        k += 1;
    }
    assert(!text::strings_view(existing@).contains(name@)) by {
        if text::strings_view(existing@).contains(name@) {
            let j = choose|j: int| 0 <= j < text::strings_view(existing@).len() && text::strings_view(existing@)[j] == name@;
            assert(existing@[j]@ == name@);
        }
    }
    Ok(())
}

/// The arguments of a command server: none when nothing but whitespace was
/// typed, else the whitespace-separated words.
pub fn server_args(input: &str) -> (r: Option<Vec<String>>)
    ensures
        text::trim(input@).len() == 0 ==> r is None,
        text::trim(input@).len() > 0 ==> (r matches Some(v) && text::strings_view(v@) == text::words(
            input@,
        )),
{
    let cs = chars_of(input);
    if trim_chars(&cs).len() == 0 {
        return None;
    }
    let ws = split_words(&cs);
    let mut out: Vec<String> = Vec::new();
    let mut k: usize = 0;
    while k < ws.len()
        invariant
            k <= ws.len(),
            text::views(ws@) == text::words(input@),
            out.len() == k,
            text::strings_view(out@) == text::views(ws@).take(k as int),
        decreases ws.len() - k,
    {
        out.push(string_from_chars(&ws[k]));
        k += 1;
        assert(text::strings_view(out@) =~= text::views(ws@).take(k as int));
    }
    assert(text::views(ws@).take(k as int) =~= text::views(ws@));
    Some(out)
}

/// The expiration line of an OAuth token that expires at `expires_at`,
/// seen at `now` (seconds since the Unix epoch): the hours and minutes left,
/// or how long ago it expired.
pub open spec fn expiry_text(expires_at: nat, now: nat) -> Seq<char> {
    if expires_at > now {
        "Expires in: "@ + text::decimal(((expires_at - now) as nat) / 3600) + "h "@ + text::decimal(
            (((expires_at - now) as nat) % 3600) / 60,
        ) + "m"@
    } else {
        "Expired: "@ + text::decimal((now - expires_at) as nat) + " seconds ago"@
    }
}

/// The expiration line shown for an OAuth token.
pub fn token_expiry(expires_at: u64, now: u64) -> (r: String)
    ensures
        r@ == expiry_text(expires_at as nat, now as nat),
{
    let mut out: Vec<char> = Vec::new();
    if expires_at > now {
        let remaining = expires_at - now;
        push_str(&mut out, "Expires in: ");
        push_decimal(&mut out, remaining / 3600);
        push_str(&mut out, "h ");
        push_decimal(&mut out, (remaining % 3600) / 60);
        push_str(&mut out, "m");
    } else {
        push_str(&mut out, "Expired: ");
        push_decimal(&mut out, now - expires_at);
        push_str(&mut out, " seconds ago");
    }
    string_from_chars(&out)
}

} // verus!
