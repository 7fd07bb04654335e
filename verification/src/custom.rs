//! Custom command templates: the brace syntax check, the file references a
//! template makes, and how an optional field is shown in a table.
use vstd::prelude::*;
use crate::text;
use crate::text::{chars_of, find_from, push_all, push_decimal, slice, string_from_chars};

verus! {

/// Why a template's braces do not balance.
#[derive(Debug, Clone, PartialEq, Eq)]
pub enum TemplateSyntaxError {
    /// A `}` that closes nothing, at this character position.
    UnmatchedClosingBrace(usize),
    /// A shell injection `!{` left open.
    UnclosedShellInjection,
    /// A file injection `@{` left open.
    UnclosedFileInjection,
    /// An argument placeholder `{{` left open.
    UnclosedArgumentPlaceholder,
}

/// Whether the two characters `a`, `b` start at position `i` of `cs`.
pub open spec fn opener_at(cs: Seq<char>, i: int, a: char, b: char) -> bool {
    i + 1 < cs.len() && cs[i] == a && cs[i + 1] == b
}

/// The brace check from position `i` on, with `sh` shell injections, `fi`
/// file injections and `ar` argument placeholders open. Two-character
/// openers (`!{`, `@{`, `{{`) are recognised first; a `}}` while a
/// placeholder is open closes that placeholder; any other `}` closes a
/// shell injection first, then a file injection, then a placeholder.
pub open spec fn scan_braces(cs: Seq<char>, i: int, sh: nat, fi: nat, ar: nat) -> Result<
    (),
    TemplateSyntaxError,
>
    decreases cs.len() - i,
{
    if i < 0 || i >= cs.len() {
        if sh > 0 {
            Err(TemplateSyntaxError::UnclosedShellInjection)
        } else if fi > 0 {
            Err(TemplateSyntaxError::UnclosedFileInjection)
        } else if ar > 0 {
            Err(TemplateSyntaxError::UnclosedArgumentPlaceholder)
        } else {
            Ok(())
        }
    } else if opener_at(cs, i, '!', '{') {
        scan_braces(cs, i + 2, sh + 1, fi, ar)
    } else if opener_at(cs, i, '@', '{') {
        scan_braces(cs, i + 2, sh, fi + 1, ar)
    } else if opener_at(cs, i, '{', '{') {
        scan_braces(cs, i + 2, sh, fi, ar + 1)
    } else if ar > 0 && opener_at(cs, i, '}', '}') {
        scan_braces(cs, i + 2, sh, fi, (ar - 1) as nat)
    } else if cs[i] == '}' {
        if sh > 0 {
            scan_braces(cs, i + 1, (sh - 1) as nat, fi, ar)
        } else if fi > 0 {
            scan_braces(cs, i + 1, sh, (fi - 1) as nat, ar)
        } else if ar > 0 {
            scan_braces(cs, i + 1, sh, fi, (ar - 1) as nat)
        } else {
            Err(TemplateSyntaxError::UnmatchedClosingBrace(i as usize))
        }
    } else {
        scan_braces(cs, i + 1, sh, fi, ar)
    }
}

/// Checks that the braces of a template balance: every `!{` and `@{` is
/// closed by a `}`, every `{{` by a `}}` (or a `}`), and no `}` closes
/// nothing; `{{args}}` and `!{echo 'Hello {{args}}'}` balance.
pub fn check_template_syntax(template: &str) -> (r: Result<(), TemplateSyntaxError>)
    ensures
        r == scan_braces(template@, 0, 0, 0, 0),
{
    let cs = chars_of(template);
    let mut shell_depth: usize = 0;
    let mut file_depth: usize = 0;
    let mut arg_depth: usize = 0;
    let mut i: usize = 0;
    while i < cs.len()
        invariant
            i <= cs.len() + 1,
            cs@ == template@,
            shell_depth <= i,
            file_depth <= i,
            arg_depth <= i,
            scan_braces(cs@, 0, 0, 0, 0) == scan_braces(
                cs@,
                i as int,
                shell_depth as nat,
                file_depth as nat,
                arg_depth as nat,
            ),
        decreases cs.len() + 1 - i,
    {
        if i + 1 < cs.len() {
            if cs[i] == '!' && cs[i + 1] == '{' {
                shell_depth += 1;
                i += 2;
                continue;
            }
            if cs[i] == '@' && cs[i + 1] == '{' {
                file_depth += 1;
                i += 2;
                continue;
            }
            if cs[i] == '{' && cs[i + 1] == '{' {
                arg_depth += 1;
                i += 2;
                continue;
            }
            if arg_depth > 0 && cs[i] == '}' && cs[i + 1] == '}' {
                arg_depth -= 1;
                i += 2;
                continue;
            }
        }
        if cs[i] == '}' {
            if shell_depth > 0 {
                shell_depth -= 1;
            } else if file_depth > 0 {
                file_depth -= 1;
            } else if arg_depth > 0 {
                arg_depth -= 1;
            } else {
                return Err(TemplateSyntaxError::UnmatchedClosingBrace(i));
            }
        }
        i += 1;
    }
    if shell_depth > 0 {
        return Err(TemplateSyntaxError::UnclosedShellInjection);
    }
    if file_depth > 0 {
        return Err(TemplateSyntaxError::UnclosedFileInjection);
    }
    if arg_depth > 0 {
        return Err(TemplateSyntaxError::UnclosedArgumentPlaceholder);
    }
    Ok(())
}

/// The file references of a template, in the order they are found: the
/// first `@{` is paired with the first `}` at or after it, the text between
/// them is a reference, and the whole pattern is cut out of the template
/// before the search starts again from its beginning.
pub open spec fn file_references(s: Seq<char>) -> Seq<Seq<char>>
    decreases s.len(),
{
    match text::find_first(s, seq!['@', '{'], 0) {
        None => Seq::empty(),
        Some(st) => match text::find_first(s, seq!['}'], st) {
            None => Seq::empty(),
            Some(e) => {
                proof {
                    text::lemma_find_first(s, seq!['@', '{'], 0);
                    text::lemma_find_first(s, seq!['}'], st);
                    assert(s.subrange(st, st + 2) =~= seq!['@', '{']);
                    assert(s.subrange(e, e + 1) =~= seq!['}']);
                    assert(s[st] == '@' && s[st + 1] == '{' && s[e] == '}');
                }
                seq![s.subrange(st + 2, e)] + file_references(s.take(st) + s.skip(e + 1))
            },
        },
    }
}

/// The file references `@{path}` of a template, in the order in which the
/// referenced files are checked.
pub fn template_file_references(template: &str) -> (r: Vec<String>)
    ensures
        r@.map_values(|x: String| x@) == file_references(template@),
{
    let mut cur = chars_of(template);
    let open = vec!['@', '{'];
    let close = vec!['}'];
    assert(open@ =~= seq!['@', '{']);
    assert(close@ =~= seq!['}']);
    let mut refs: Vec<String> = Vec::new();
    loop
        invariant
            open@ == seq!['@', '{'],
            close@ == seq!['}'],
            file_references(template@) == refs@.map_values(|x: String| x@) + file_references(
                cur@,
            ),
        decreases cur.len(),
    {
        let ghost before = cur@;
        let ghost found = refs@.map_values(|x: String| x@);
        match find_from(&cur, &open, 0) {
            None => {
                assert(refs@.map_values(|x: String| x@) =~= found + file_references(before));
                return refs;
            },
            Some(st) => {
                match find_from(&cur, &close, st) {
                    None => {
                        assert(refs@.map_values(|x: String| x@) =~= found + file_references(
                            before,
                        ));
                        return refs;
                    },
                    Some(e) => {
                        proof {
                            text::lemma_find_first(before, seq!['@', '{'], 0);
                            text::lemma_find_first(before, seq!['}'], st as int);
                            assert(cur@.subrange(st as int, st + 2) == seq!['@', '{']);
                            assert(cur@.subrange(e as int, e + 1) == seq!['}']);
                            assert(cur@.subrange(st as int, st + 2)[0] == cur@[st as int]);
                            assert(cur@.subrange(st as int, st + 2)[1] == cur@[st + 1]);
                            assert(cur@.subrange(e as int, e + 1)[0] == cur@[e as int]);
                        }
                        let name = slice(&cur, st + 2, e);
                        refs.push(string_from_chars(&name));
                        let mut rest = slice(&cur, 0, st);
                        let tail = slice(&cur, e + 1, cur.len());
                        push_all(&mut rest, &tail);
                        assert(rest@ =~= before.take(st as int) + before.skip(e + 1));
                        assert(refs@.map_values(|x: String| x@) =~= found.push(name@));
                        assert(text::find_first(before, seq!['@', '{'], 0) == Some(st as int));
                        assert(text::find_first(before, seq!['}'], st as int) == Some(e as int));
                        assert(file_references(before) == seq![name@] + file_references(rest@));
                        assert(found.push(name@) + file_references(rest@) =~= found + (seq![
                            name@,
                        ] + file_references(rest@)));
                        cur = rest;
                    },
                }
            },
        }
    }
}

/// The brace check on a text without braces succeeds from any position once
/// nothing is open.
proof fn lemma_scan_plain(cs: Seq<char>, i: int)
    requires
        0 <= i,
        forall|k: int| 0 <= k < cs.len() ==> cs[k] != '{' && cs[k] != '}',
    ensures
        scan_braces(cs, i, 0, 0, 0) == Ok::<(), TemplateSyntaxError>(()),
    decreases cs.len() - i,
{
    if i < cs.len() {
        assert(cs[i] != '{');
        if i + 1 < cs.len() {
            assert(cs[i + 1] != '{');
        }
        lemma_scan_plain(cs, i + 1);
    }
}

/// A template without braces passes the brace check.
pub proof fn lemma_plain_template_accepted(cs: Seq<char>)
    requires
        forall|k: int| 0 <= k < cs.len() ==> cs[k] != '{' && cs[k] != '}',
    ensures
        scan_braces(cs, 0, 0, 0, 0) == Ok::<(), TemplateSyntaxError>(()),
{
    lemma_scan_plain(cs, 0);
}

/// No file reference contains a closing brace: a reference ends at the
/// first `}` after its `@{`.
pub proof fn lemma_references_without_brace(s: Seq<char>)
    ensures
        forall|i: int, j: int|
            0 <= i < file_references(s).len() && 0 <= j < file_references(s)[i].len()
                ==> #[trigger] file_references(s)[i][j] != '}',
    decreases s.len(),
{
    match text::find_first(s, seq!['@', '{'], 0) {
        None => {},
        Some(st) => match text::find_first(s, seq!['}'], st) {
            None => {},
            Some(e) => {
                text::lemma_find_first(s, seq!['@', '{'], 0);
                text::lemma_find_first(s, seq!['}'], st);
                assert(s.subrange(st, st + 2) =~= seq!['@', '{']);
                assert(s.subrange(e, e + 1) =~= seq!['}']);
                assert(s[st] == '@' && s[st + 1] == '{');
                let rest = s.take(st) + s.skip(e + 1);
                lemma_references_without_brace(rest);
                let first = s.subrange(st + 2, e);
                assert forall|j: int| 0 <= j < first.len() implies first[j] != '}' by {
                    if first[j] == '}' {
                        assert(s.subrange(st + 2 + j, st + 2 + j + 1) =~= seq!['}']);
                        assert(text::occurs_at(s, seq!['}'], st + 2 + j));
                    }
                }
                assert forall|i: int, j: int|
                    0 <= i < file_references(s).len() && 0 <= j < file_references(s)[i].len()
                        implies #[trigger] file_references(s)[i][j] != '}' by {
                    if i == 0 {
                        assert(file_references(s)[0] == first);
                    } else {
                        assert(file_references(s)[i] == file_references(rest)[i - 1]);
                    }
                }
            },
        },
    }
}

/// An optional text as shown in a table cell: the text, or `-` when absent.
pub fn display_option(opt: &Option<String>) -> (r: String)
    ensures
        r@ == match opt {
            Some(s) => s@,
            None => "-"@,
        },
{
    match opt {
        Some(s) => s.clone(),
        None => String::from_str("-"),
    }
}

impl TemplateSyntaxError {
    /// The message shown for the error.
    pub fn message(&self) -> (r: String)
        ensures
            r@ == match self {
                TemplateSyntaxError::UnmatchedClosingBrace(i) => "Unmatched closing brace at position "@
                    + text::decimal(*i as nat),
                TemplateSyntaxError::UnclosedShellInjection => "Unclosed shell command injection (!{)"@,
                TemplateSyntaxError::UnclosedFileInjection => "Unclosed file injection (@{)"@,
                TemplateSyntaxError::UnclosedArgumentPlaceholder => "Unclosed argument placeholder ({{)"@,
            },
    {
        match self {
            TemplateSyntaxError::UnmatchedClosingBrace(i) => {
                let mut m = chars_of("Unmatched closing brace at position ");
                push_decimal(&mut m, *i as u64);
                string_from_chars(&m)
            },
            TemplateSyntaxError::UnclosedShellInjection => String::from_str("Unclosed shell command injection (!{)"),
            TemplateSyntaxError::UnclosedFileInjection => String::from_str("Unclosed file injection (@{)"),
            TemplateSyntaxError::UnclosedArgumentPlaceholder => String::from_str("Unclosed argument placeholder ({{)"),
        }
    }
}

} // verus!
