//! Options of the playbook commands: priority filters and where an applied
//! playbook is stored.
use vstd::prelude::*;
use crate::text;
use crate::text::{
    chars_of, push_str, slice, split_chars, starts_with, str_to_lowercase, string_from_chars,
};

verus! {

/// How strongly a playbook applies.
#[derive(Debug, Clone, Copy, PartialEq, Eq)]
pub enum PlaybookPriority {
    Required,
    Recommended,
    Optional,
}

/// The priority filter given is not `required`, `recommended` or `optional`.
#[derive(Debug, Clone, PartialEq, Eq)]
pub struct InvalidPriority(pub String);

/// The playbook priority named by `s` in any case, if any.
pub open spec fn priority_named(s: Seq<char>) -> Option<PlaybookPriority> {
    priority_of_lowered(text::lowercase(s))
}

/// The playbook priority named by an already lower-cased text, if any.
pub open spec fn priority_of_lowered(l: Seq<char>) -> Option<PlaybookPriority> {
    if l == "required"@ {
        Some(PlaybookPriority::Required)
    } else if l == "recommended"@ {
        Some(PlaybookPriority::Recommended)
    } else if l == "optional"@ {
        Some(PlaybookPriority::Optional)
    } else {
        None
    }
}

/// The priority of a `--priority` filter: `required`, `recommended` or
/// `optional`, in any case.
pub fn parse_playbook_priority(s: &str) -> (r: Result<PlaybookPriority, InvalidPriority>)
    ensures
        match priority_named(s@) {
            Some(p) => r == Ok::<PlaybookPriority, InvalidPriority>(p),
            None => r matches Err(InvalidPriority(t)) && t@ == s@,
        },
{
    let l = str_to_lowercase(s);
    match priority_from_lowered(&l) {
        Some(p) => Ok(p),
        None => Err(InvalidPriority(String::from_str(s))),
    }
}

/// The playbook priority an already lower-cased text names, if any.
pub fn priority_from_lowered(l: &String) -> (r: Option<PlaybookPriority>)
    ensures
        r == priority_of_lowered(l@),
{
    if *l == String::from_str("required") {
        Some(PlaybookPriority::Required)
    } else if *l == String::from_str("recommended") {
        Some(PlaybookPriority::Recommended)
    } else if *l == String::from_str("optional") {
        Some(PlaybookPriority::Optional)
    } else {
        None
    }
}

/// The file name an applied playbook is stored under: for a `radium://`
/// URI, its last `/`-separated segment; otherwise the name of the applied
/// file, or `playbook.md` when it has none.
pub open spec fn playbook_file_name(uri: Seq<char>, file_name: Option<Seq<char>>) -> Seq<char> {
    if "radium://"@.is_prefix_of(uri) {
        text::split(uri.skip(9), '/').last()
    } else {
        match file_name {
            Some(n) => n,
            None => "playbook.md"@,
        }
    }
}

/// The file name an applied playbook is stored under.
pub fn playbook_filename(uri: &str, file_name: Option<&str>) -> (r: String)
    ensures
        r@ == playbook_file_name(
            uri@,
            match file_name {
                Some(n) => Some(n@),
                None => None,
            },
        ),
{
    let u = chars_of(uri);
    let scheme = chars_of("radium://");
    assert(scheme@.len() == 9) by {
        reveal_strlit("radium://");
    }
    if starts_with(&u, &scheme) {
        let rest = slice(&u, 9, u.len());
        assert(rest@ =~= uri@.skip(9));
        let parts = split_chars(&rest, '/');
        assert(text::views(parts@).len() == parts@.len());
        let n = parts.len();
        assert(text::views(parts@)[n - 1] == parts@[n - 1]@);
        string_from_chars(&parts[n - 1])
    } else {
        match file_name {
            Some(n) => String::from_str(n),
            None => String::from_str("playbook.md"),
        }
    }
}

impl InvalidPriority {
    /// The message shown for the error.
    pub fn message(&self) -> (r: String)
        ensures
            r@ == "Invalid priority: "@ + self.0@ + ". Must be: required, recommended, or optional"@,
    {
        let mut m = chars_of("Invalid priority: ");
        push_str(&mut m, self.0.as_str());
        push_str(&mut m, ". Must be: required, recommended, or optional");
        string_from_chars(&m)
    }
}

} // verus!
