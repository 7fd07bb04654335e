//! Filling in agent templates: the `{{variable}}` substitution of a
//! configuration template with its optional `{{#field}}...{{/field}}`
//! blocks, the default values of a prompt template, and the prompt written
//! for a new agent.
use vstd::prelude::*;
use crate::text;
use crate::text::{chars_of, find_from, push_all, push_str, replace_chars, slice, string_from_chars};

verus! {

/// An optional field of an agent configuration template.
#[derive(Debug, Clone, Copy, PartialEq, Eq)]
pub enum OptionalField {
    /// `{{#engine}}...{{/engine}}`
    Engine,
    /// `{{#model}}...{{/model}}`
    Model,
    /// `{{#reasoning}}...{{/reasoning}}`
    Reasoning,
}

/// Why a configuration template cannot be filled in.
#[derive(Debug, Clone, Copy, PartialEq, Eq)]
pub enum TemplateError {
    /// The field is absent and the first closing tag of its block comes
    /// before the first opening tag, so the block to cut out runs backwards.
    MisorderedBlock(OptionalField),
}

/// `v` with every occurrence of `pat` replaced by `rep` (`str::replace`).
fn replace_in(v: Vec<char>, pat: &str, rep: &str) -> (r: Vec<char>)
    ensures
        r@ == text::replace_all(v@, pat@, rep@),
{
    let p = chars_of(pat);
    if p.len() == 0 {
        return v;
    }
    let r = chars_of(rep);
    replace_chars(&v, &p, &r)
}

/// `s` without the block from the first `open` tag to the end of the first
/// `close` tag, when both occur; `None` when that block would run backwards.
pub open spec fn cut_block(s: Seq<char>, open: Seq<char>, close: Seq<char>) -> Option<Seq<char>> {
    match (text::find_first(s, open, 0), text::find_first(s, close, 0)) {
        (Some(st), Some(en)) => if st <= en + close.len() {
            Some(s.take(st) + s.skip(en + close.len()))
        } else {
            None
        },
        _ => Some(s),
    }
}

/// Fills in one optional field: when it has a value, its block tags are
/// dropped and its variable replaced; otherwise its block is cut out.
pub open spec fn fill_optional(
    s: Seq<char>,
    open: Seq<char>,
    close: Seq<char>,
    var: Seq<char>,
    value: Option<Seq<char>>,
) -> Option<Seq<char>> {
    match value {
        Some(v) => Some(
            text::replace_all(
                text::replace_all(text::replace_all(s, open, Seq::empty()), close, Seq::empty()),
                var,
                v,
            ),
        ),
        None => cut_block(s, open, close),
    }
}

/// `s` with every remaining conditional block cut out: from the first
/// `{{#`, through the first `{{/` at or after it, to the end of the first
/// `}}` at or after that; it stops at the first `{{#` without both.
pub open spec fn strip_blocks(s: Seq<char>) -> Seq<char>
    decreases s.len(),
{
    match text::find_first(s, "{{#"@, 0) {
        None => s,
        Some(st) => match text::find_first(s, "{{/"@, st) {
            None => s,
            Some(en) => match text::find_first(s, "}}"@, en) {
                None => s,
                Some(m) => {
                    proof {
                        text::lemma_find_first(s, "{{#"@, 0);
                        text::lemma_find_first(s, "{{/"@, st);
                        text::lemma_find_first(s, "}}"@, en);
                    }
                    if m + 2 <= s.len() {
                        strip_blocks(s.take(st) + s.skip(m + 2))
                    } else {
                        s
                    }
                },
            },
        },
    }
}

/// The views of optional strings.
pub open spec fn opt_str(o: Option<&str>) -> Option<Seq<char>> {
    match o {
        Some(s) => Some(s@),
        None => None,
    }
}

/// The configuration text of a new agent: `{{id}}`, `{{name}}`,
/// `{{description}}` (empty when absent) and `{{category}}` replaced, then
/// the optional engine, model and reasoning fields filled in, then any
/// other conditional block cut out.
pub open spec fn config_from_template(
    template: Seq<char>,
    id: Seq<char>,
    name: Seq<char>,
    description: Option<Seq<char>>,
    category: Seq<char>,
    engine: Option<Seq<char>>,
    model: Option<Seq<char>>,
    reasoning: Option<Seq<char>>,
) -> Result<Seq<char>, TemplateError> {
    let s1 = text::replace_all(template, "{{id}}"@, id);
    let s2 = text::replace_all(s1, "{{name}}"@, name);
    let s3 = text::replace_all(
        s2,
        "{{description}}"@,
        match description {
            Some(d) => d,
            None => Seq::empty(),
        },
    );
    let s4 = text::replace_all(s3, "{{category}}"@, category);
    match fill_optional(s4, "{{#engine}}"@, "{{/engine}}"@, "{{engine}}"@, engine) {
        None => Err(TemplateError::MisorderedBlock(OptionalField::Engine)),
        Some(s5) => match fill_optional(s5, "{{#model}}"@, "{{/model}}"@, "{{model}}"@, model) {
            None => Err(TemplateError::MisorderedBlock(OptionalField::Model)),
            Some(s6) => match fill_optional(
                s6,
                "{{#reasoning}}"@,
                "{{/reasoning}}"@,
                "{{reasoning}}"@,
                reasoning,
            ) {
                None => Err(TemplateError::MisorderedBlock(OptionalField::Reasoning)),
                Some(s7) => Ok(strip_blocks(s7)),
            },
        },
    }
}

/// In a text where `{{` never occurs, no pattern starting with `{{` occurs.
proof fn lemma_no_open_braces(s: Seq<char>, p: Seq<char>)
    requires
        !text::contains(s, seq!['{', '{']),
        p.len() >= 2,
        p[0] == '{',
        p[1] == '{',
    ensures
        text::find_first(s, p, 0) is None,
{
    text::lemma_find_first(s, p, 0);
    if let Some(i) = text::find_first(s, p, 0) {
        assert(s.subrange(i, i + p.len())[0] == s[i]);
        assert(s.subrange(i, i + p.len())[1] == s[i + 1]);
        assert(s.subrange(i, i + 2) =~= seq!['{', '{']);
        assert(text::occurs_at(s, seq!['{', '{'], i));
    }
}

/// Replacing a `{{` pattern in a text without `{{` changes nothing.
proof fn lemma_replace_absent(s: Seq<char>, p: Seq<char>, r: Seq<char>)
    requires
        !text::contains(s, seq!['{', '{']),
        p.len() >= 2,
        p[0] == '{',
        p[1] == '{',
    ensures
        text::replace_all(s, p, r) == s,
{
    lemma_no_open_braces(s, p);
}

/// Filling an optional field whose tags start with `{{` leaves a text
/// without `{{` unchanged.
proof fn lemma_fill_absent(
    s: Seq<char>,
    open: Seq<char>,
    close: Seq<char>,
    var: Seq<char>,
    value: Option<Seq<char>>,
)
    requires
        !text::contains(s, seq!['{', '{']),
        open.len() >= 2 && open[0] == '{' && open[1] == '{',
        close.len() >= 2 && close[0] == '{' && close[1] == '{',
        var.len() >= 2 && var[0] == '{' && var[1] == '{',
    ensures
        fill_optional(s, open, close, var, value) == Some(s),
{
    lemma_no_open_braces(s, open);
    lemma_no_open_braces(s, close);
    lemma_replace_absent(s, open, Seq::empty());
    lemma_replace_absent(s, close, Seq::empty());
    lemma_replace_absent(s, var, match value {
        Some(v) => v,
        None => Seq::empty(),
    });
}


/// Whether `x` holds no `{`.
pub open spec fn no_lbrace(x: Seq<char>) -> bool {
    forall|k: int| 0 <= k < x.len() ==> x[k] != '{'
}

/// Whether `t` looks like a tag: at least four characters, starting with
/// `{{`, with no other `{`.
pub open spec fn tag_like(t: Seq<char>) -> bool {
    &&& t.len() >= 4
    &&& t[0] == '{'
    &&& t[1] == '{'
    &&& forall|k: int| 2 <= k < t.len() ==> t[k] != '{'
}

/// Whether the pattern `p`, which starts with `{{`, cannot start inside `t`:
/// `t` has no `{`, or is a tag whose third and fourth characters differ
/// from `p`'s.
pub open spec fn piece_ok(t: Seq<char>, p: Seq<char>) -> bool {
    no_lbrace(t) || (tag_like(t) && !(p[2] == t[2] && p[3] == t[3]))
}

/// A pattern starting with `{{` does not start inside a piece it cannot
/// start in.
proof fn lemma_piece_no_occ(s: Seq<char>, start: int, t: Seq<char>, p: Seq<char>)
    requires
        0 <= start,
        start + t.len() <= s.len(),
        s.subrange(start, start + t.len()) == t,
        p.len() >= 4,
        p[0] == '{',
        p[1] == '{',
        piece_ok(t, p),
    ensures
        forall|j: int| start <= j < start + t.len() ==> !text::occurs_at(s, p, j),
{
    assert forall|j: int| start <= j < start + t.len() implies !text::occurs_at(s, p, j) by {
        if text::occurs_at(s, p, j) {
            let w = s.subrange(j, j + p.len());
            let o = j - start;
            assert(w[0] == s[j] && w[1] == s[j + 1] && w[2] == s[j + 2] && w[3] == s[j + 3]);
            assert(s[j] == t[o]) by {
                assert(s.subrange(start, start + t.len())[o] == s[j]);
            }
            if !no_lbrace(t) {
                if o == 1 {
                    assert(s.subrange(start, start + t.len())[2] == s[j + 1]);
                } else if o == 0 {
                    assert(s.subrange(start, start + t.len())[2] == s[j + 2]);
                    assert(s.subrange(start, start + t.len())[3] == s[j + 3]);
                }
            }
        }
    }
}

/// A pattern starting with `{{` does not start in the first four pieces of
/// `a + b + c + d + rest` when it cannot start in any of them.
proof fn lemma_no_occ(a: Seq<char>, b: Seq<char>, c: Seq<char>, d: Seq<char>, rest: Seq<char>, p: Seq<char>)
    requires
        p.len() >= 4,
        p[0] == '{',
        p[1] == '{',
        piece_ok(a, p),
        piece_ok(b, p),
        piece_ok(c, p),
        piece_ok(d, p),
    ensures
        forall|j: int|
            0 <= j < a.len() + b.len() + c.len() + d.len() ==> !text::occurs_at(
                a + b + c + d + rest,
                p,
                j,
            ),
{
    let s = a + b + c + d + rest;
    let (la, lb, lc, ld) = (a.len() as int, b.len() as int, c.len() as int, d.len() as int);
    assert(s.subrange(0, la) =~= a);
    assert(s.subrange(la, la + lb) =~= b);
    assert(s.subrange(la + lb, la + lb + lc) =~= c);
    assert(s.subrange(la + lb + lc, la + lb + lc + ld) =~= d);
    lemma_piece_no_occ(s, 0, a, p);
    lemma_piece_no_occ(s, la, b, p);
    lemma_piece_no_occ(s, la + lb, c, p);
    lemma_piece_no_occ(s, la + lb + lc, d, p);
}

/// A pattern starting with `{{` that cannot start in any of four pieces
/// does not occur in their concatenation, and replacing it changes nothing.
proof fn lemma_absent4(a: Seq<char>, b: Seq<char>, c: Seq<char>, d: Seq<char>, p: Seq<char>, r: Seq<char>)
    requires
        p.len() >= 4,
        p[0] == '{',
        p[1] == '{',
        piece_ok(a, p),
        piece_ok(b, p),
        piece_ok(c, p),
        piece_ok(d, p),
    ensures
        text::find_first(a + b + c + d, p, 0) is None,
        text::replace_all(a + b + c + d, p, r) == a + b + c + d,
{
    let s = a + b + c + d;
    lemma_no_occ(a, b, c, d, Seq::empty(), p);
    assert(s + Seq::<char>::empty() =~= s);
    text::lemma_find_first(s, p, 0);
}

/// A pattern starting with `{{` that cannot start in `a`, `b` or `c` is
/// first found right after them when `d` starts with it.
proof fn lemma_first_after(a: Seq<char>, b: Seq<char>, c: Seq<char>, d: Seq<char>, p: Seq<char>)
    requires
        p.len() >= 4,
        p[0] == '{',
        p[1] == '{',
        piece_ok(a, p),
        piece_ok(b, p),
        piece_ok(c, p),
        p.is_prefix_of(d),
    ensures
        text::find_first(a + b + c + d, p, 0) == Some((a.len() + b.len() + c.len()) as int),
{
    let s = a + b + c + d;
    let k: int = (a.len() + b.len() + c.len()) as int;
    lemma_no_occ(a, b, c, Seq::empty(), d, p);
    assert(a + b + c + Seq::<char>::empty() + d =~= s);
    assert(s.subrange(k, k + p.len()) =~= p) by {
        assert forall|i: int| 0 <= i < p.len() implies s.subrange(k, k + p.len())[i] == p[i] by {
            assert(d.subrange(0, p.len() as int)[i] == d[i]);
        }
    }
    assert(text::occurs_at(s, p, k));
    text::lemma_find_first(s, p, 0);
}

/// Replacing in the empty text gives the empty text.
proof fn lemma_replace_empty(p: Seq<char>, r: Seq<char>)
    ensures
        text::replace_all(Seq::empty(), p, r) == Seq::<char>::empty(),
{
    text::lemma_find_first(Seq::empty(), p, 0);
    if p.len() > 0 {
        assert(text::find_first(Seq::<char>::empty(), p, 0) is None);
    }
}

/// The tags of one optional field: its opening tag, its variable and its
/// closing tag.
pub open spec fn field_tags(o: Seq<char>, v: Seq<char>, c: Seq<char>) -> bool {
    &&& tag_like(o) && tag_like(v) && tag_like(c)
    &&& o[2] == '#' && c[2] == '/' && v[2] != '#' && v[2] != '/'
}

/// A block of one optional field around `x`, with the variable at its end,
/// fills to `x` followed by the value when one is given, and to nothing
/// when none is.
proof fn lemma_fill_block(x: Seq<char>, o: Seq<char>, v: Seq<char>, c: Seq<char>, value: Option<Seq<char>>)
    requires
        no_lbrace(x),
        field_tags(o, v, c),
    ensures
        fill_optional(o + x + v + c, o, c, v, value) == Some(match value {
            Some(w) => x + w,
            None => Seq::<char>::empty(),
        }),
{
    let e = Seq::<char>::empty();
    let s = o + x + v + c;
    assert(o.is_prefix_of(s)) by {
        assert(s.subrange(0, o.len() as int) =~= o);
    }
    assert(c.is_prefix_of(c)) by {
        assert(c.subrange(0, c.len() as int) =~= c);
    }
    assert(v.is_prefix_of(v + c)) by {
        assert((v + c).subrange(0, v.len() as int) =~= v);
    }
    assert(no_lbrace(e));
    match value {
        Some(w) => {
            // The opening tag goes.
            lemma_first_after(e, e, e, s, o);
            assert(e + e + e + s =~= s);
            let rest = x + v + c;
            assert(s.skip(o.len() as int) =~= rest);
            assert(s.take(0) =~= e);
            lemma_absent4(x, v, c, e, o, e);
            assert(x + v + c + e =~= rest);
            assert(text::replace_all(s, o, e) == e + e + text::replace_all(rest, o, e));
            assert(text::replace_all(s, o, e) =~= rest);
            // The closing tag goes.
            lemma_first_after(x, v, e, c, c);
            assert(x + v + e + c =~= rest);
            let kc: int = (x.len() + v.len()) as int;
            assert(rest.take(kc) =~= x + v);
            assert(rest.skip(kc + c.len()) =~= e);
            lemma_replace_empty(c, e);
            assert(text::replace_all(rest, c, e) =~= x + v);
            // The variable is replaced.
            let xv = x + v;
            lemma_first_after(x, e, e, v, v);
            assert(x + e + e + v =~= xv);
            assert(xv.take(x.len() as int) =~= x);
            assert(xv.skip(x.len() + v.len() as int) =~= e);
            lemma_replace_empty(v, w);
            assert(text::replace_all(xv, v, w) =~= x + w);
        },
        None => {
            lemma_first_after(e, e, e, s, o);
            assert(e + e + e + s =~= s);
            lemma_first_after(o, x, v, c, c);
            let en: int = (o.len() + x.len() + v.len()) as int;
            assert(s.skip(en + c.len()) =~= e);
            assert(s.take(0) + s.skip(en + c.len()) =~= e);
        },
    }
}

/// Filling another optional field, whose tags and variable cannot start in
/// any of four pieces, leaves their concatenation as it is.
proof fn lemma_fill_other(
    a: Seq<char>,
    b: Seq<char>,
    c: Seq<char>,
    d: Seq<char>,
    open: Seq<char>,
    close: Seq<char>,
    var: Seq<char>,
    value: Option<Seq<char>>,
)
    requires
        open.len() >= 4 && open[0] == '{' && open[1] == '{',
        close.len() >= 4 && close[0] == '{' && close[1] == '{',
        var.len() >= 4 && var[0] == '{' && var[1] == '{',
        piece_ok(a, open) && piece_ok(b, open) && piece_ok(c, open) && piece_ok(d, open),
        piece_ok(a, close) && piece_ok(b, close) && piece_ok(c, close) && piece_ok(d, close),
        piece_ok(a, var) && piece_ok(b, var) && piece_ok(c, var) && piece_ok(d, var),
    ensures
        fill_optional(a + b + c + d, open, close, var, value) == Some(a + b + c + d),
{
    let e = Seq::<char>::empty();
    lemma_absent4(a, b, c, d, open, e);
    lemma_absent4(a, b, c, d, close, e);
    lemma_absent4(a, b, c, d, var, match value {
        Some(w) => w,
        None => e,
    });
}


/// A pattern starting with `{` does not occur in a text without `{`.
proof fn lemma_no_lbrace_absent(z: Seq<char>, p: Seq<char>, r: Seq<char>)
    requires
        no_lbrace(z),
        p.len() >= 1,
        p[0] == '{',
    ensures
        text::find_first(z, p, 0) is None,
        text::replace_all(z, p, r) == z,
{
    text::lemma_find_first(z, p, 0);
    if let Some(i) = text::find_first(z, p, 0) {
        assert(z.subrange(i, i + p.len())[0] == z[i]);
    }
}

/// A text without `{` keeps no conditional block to cut out.
proof fn lemma_strip_plain(z: Seq<char>)
    requires
        no_lbrace(z),
    ensures
        strip_blocks(z) == z,
{
    reveal_strlit("{{#");
    lemma_no_lbrace_absent(z, "{{#"@, Seq::empty());
}

/// The four variables `{{id}}`, `{{name}}`, `{{description}}` and
/// `{{category}}` do not occur in a text made of four pieces none of them can
/// start in, so replacing them leaves it as it is.
proof fn lemma_plain_vars(
    a: Seq<char>,
    b: Seq<char>,
    c: Seq<char>,
    d: Seq<char>,
    id: Seq<char>,
    name: Seq<char>,
    description: Seq<char>,
    category: Seq<char>,
)
    requires
        piece_ok(a, "{{id}}"@) && piece_ok(b, "{{id}}"@) && piece_ok(c, "{{id}}"@) && piece_ok(d, "{{id}}"@),
        piece_ok(a, "{{name}}"@) && piece_ok(b, "{{name}}"@) && piece_ok(c, "{{name}}"@) && piece_ok(d, "{{name}}"@),
        piece_ok(a, "{{description}}"@) && piece_ok(b, "{{description}}"@) && piece_ok(c, "{{description}}"@)
            && piece_ok(d, "{{description}}"@),
        piece_ok(a, "{{category}}"@) && piece_ok(b, "{{category}}"@) && piece_ok(c, "{{category}}"@)
            && piece_ok(d, "{{category}}"@),
    ensures
        text::replace_all(
            text::replace_all(
                text::replace_all(text::replace_all(a + b + c + d, "{{id}}"@, id), "{{name}}"@, name),
                "{{description}}"@,
                description,
            ),
            "{{category}}"@,
            category,
        ) == a + b + c + d,
{
    reveal_strlit("{{id}}");
    reveal_strlit("{{name}}");
    reveal_strlit("{{description}}");
    reveal_strlit("{{category}}");
    lemma_absent4(a, b, c, d, "{{id}}"@, id);
    lemma_absent4(a, b, c, d, "{{name}}"@, name);
    lemma_absent4(a, b, c, d, "{{description}}"@, description);
    lemma_absent4(a, b, c, d, "{{category}}"@, category);
}

/// The value a field fills its block with: `x` and the value when one is
/// given, nothing otherwise.
pub open spec fn block_fill(x: Seq<char>, value: Option<Seq<char>>) -> Seq<char> {
    match value {
        Some(w) => x + w,
        None => Seq::empty(),
    }
}

/// A template made of one `{{#reasoning}}` block around `x` (a text without
/// `{`), ending with `{{reasoning}}`, fills to `x` followed by the reasoning
/// value when one is given, and to nothing when none is, whatever the other
/// fields: the reasoning value is used exactly as the engine and model
/// values are (see `lemma_engine_block`, `lemma_model_block`).
pub proof fn lemma_reasoning_block(
    x: Seq<char>,
    id: Seq<char>,
    name: Seq<char>,
    description: Option<Seq<char>>,
    category: Seq<char>,
    engine: Option<Seq<char>>,
    model: Option<Seq<char>>,
    reasoning: Option<Seq<char>>,
)
    requires
        no_lbrace(x),
        reasoning matches Some(w) ==> no_lbrace(w),
    ensures
        config_from_template(
            "{{#reasoning}}"@ + x + "{{reasoning}}"@ + "{{/reasoning}}"@,
            id,
            name,
            description,
            category,
            engine,
            model,
            reasoning,
        ) == Ok::<Seq<char>, TemplateError>(block_fill(x, reasoning)),
{
    let o = "{{#reasoning}}"@;
    let v = "{{reasoning}}"@;
    let c = "{{/reasoning}}"@;
    reveal_strlit("{{#reasoning}}");
    reveal_strlit("{{reasoning}}");
    reveal_strlit("{{/reasoning}}");
    reveal_strlit("{{id}}");
    reveal_strlit("{{name}}");
    reveal_strlit("{{description}}");
    reveal_strlit("{{category}}");
    reveal_strlit("{{#engine}}");
    reveal_strlit("{{/engine}}");
    reveal_strlit("{{engine}}");
    reveal_strlit("{{#model}}");
    reveal_strlit("{{/model}}");
    reveal_strlit("{{model}}");
    let t = o + x + v + c;
    lemma_plain_vars(o, x, v, c, id, name, match description {
        Some(d) => d,
        None => Seq::empty(),
    }, category);
    lemma_fill_other(o, x, v, c, "{{#engine}}"@, "{{/engine}}"@, "{{engine}}"@, engine);
    lemma_fill_other(o, x, v, c, "{{#model}}"@, "{{/model}}"@, "{{model}}"@, model);
    lemma_fill_block(x, o, v, c, reasoning);
    let z = block_fill(x, reasoning);
    assert(no_lbrace(z));
    lemma_strip_plain(z);
}

/// A template made of one `{{#engine}}` block around `x` (a text without
/// `{`), ending with `{{engine}}`, fills to `x` followed by the engine value
/// when one is given, and to nothing when none is, whatever the other
/// fields.
pub proof fn lemma_engine_block(
    x: Seq<char>,
    id: Seq<char>,
    name: Seq<char>,
    description: Option<Seq<char>>,
    category: Seq<char>,
    engine: Option<Seq<char>>,
    model: Option<Seq<char>>,
    reasoning: Option<Seq<char>>,
)
    requires
        no_lbrace(x),
        engine matches Some(w) ==> no_lbrace(w),
    ensures
        config_from_template(
            "{{#engine}}"@ + x + "{{engine}}"@ + "{{/engine}}"@,
            id,
            name,
            description,
            category,
            engine,
            model,
            reasoning,
        ) == Ok::<Seq<char>, TemplateError>(block_fill(x, engine)),
{
    let o = "{{#engine}}"@;
    let v = "{{engine}}"@;
    let c = "{{/engine}}"@;
    let e = Seq::<char>::empty();
    reveal_strlit("{{#reasoning}}");
    reveal_strlit("{{reasoning}}");
    reveal_strlit("{{/reasoning}}");
    reveal_strlit("{{id}}");
    reveal_strlit("{{name}}");
    reveal_strlit("{{description}}");
    reveal_strlit("{{category}}");
    reveal_strlit("{{#engine}}");
    reveal_strlit("{{/engine}}");
    reveal_strlit("{{engine}}");
    reveal_strlit("{{#model}}");
    reveal_strlit("{{/model}}");
    reveal_strlit("{{model}}");
    lemma_plain_vars(o, x, v, c, id, name, match description {
        Some(d) => d,
        None => Seq::empty(),
    }, category);
    lemma_fill_block(x, o, v, c, engine);
    let z = block_fill(x, engine);
    assert(no_lbrace(z));
    assert(no_lbrace(e));
    assert(z + e + e + e =~= z);
    lemma_fill_other(z, e, e, e, "{{#model}}"@, "{{/model}}"@, "{{model}}"@, model);
    lemma_fill_other(z, e, e, e, "{{#reasoning}}"@, "{{/reasoning}}"@, "{{reasoning}}"@, reasoning);
    lemma_strip_plain(z);
}

/// A template made of one `{{#model}}` block around `x` (a text without
/// `{`), ending with `{{model}}`, fills to `x` followed by the model value
/// when one is given, and to nothing when none is, whatever the other
/// fields.
pub proof fn lemma_model_block(
    x: Seq<char>,
    id: Seq<char>,
    name: Seq<char>,
    description: Option<Seq<char>>,
    category: Seq<char>,
    engine: Option<Seq<char>>,
    model: Option<Seq<char>>,
    reasoning: Option<Seq<char>>,
)
    requires
        no_lbrace(x),
        model matches Some(w) ==> no_lbrace(w),
    ensures
        config_from_template(
            "{{#model}}"@ + x + "{{model}}"@ + "{{/model}}"@,
            id,
            name,
            description,
            category,
            engine,
            model,
            reasoning,
        ) == Ok::<Seq<char>, TemplateError>(block_fill(x, model)),
{
    let o = "{{#model}}"@;
    let v = "{{model}}"@;
    let c = "{{/model}}"@;
    let e = Seq::<char>::empty();
    reveal_strlit("{{#reasoning}}");
    reveal_strlit("{{reasoning}}");
    reveal_strlit("{{/reasoning}}");
    reveal_strlit("{{id}}");
    reveal_strlit("{{name}}");
    reveal_strlit("{{description}}");
    reveal_strlit("{{category}}");
    reveal_strlit("{{#engine}}");
    reveal_strlit("{{/engine}}");
    reveal_strlit("{{engine}}");
    reveal_strlit("{{#model}}");
    reveal_strlit("{{/model}}");
    reveal_strlit("{{model}}");
    lemma_plain_vars(o, x, v, c, id, name, match description {
        Some(d) => d,
        None => Seq::empty(),
    }, category);
    lemma_fill_other(o, x, v, c, "{{#engine}}"@, "{{/engine}}"@, "{{engine}}"@, engine);
    lemma_fill_block(x, o, v, c, model);
    let z = block_fill(x, model);
    assert(no_lbrace(z));
    assert(no_lbrace(e));
    assert(z + e + e + e =~= z);
    lemma_fill_other(z, e, e, e, "{{#reasoning}}"@, "{{/reasoning}}"@, "{{reasoning}}"@, reasoning);
    lemma_strip_plain(z);
}

/// Whether `s` holds no complete conditional block: no `{{#` followed by a
/// `{{/` that is followed by a `}}`.
pub open spec fn no_block(s: Seq<char>) -> bool {
    match text::find_first(s, "{{#"@, 0) {
        None => true,
        Some(st) => match text::find_first(s, "{{/"@, st) {
            None => true,
            Some(en) => text::find_first(s, "}}"@, en) is None,
        },
    }
}

/// Cutting out the remaining conditional blocks leaves none behind.
pub proof fn lemma_strip_leaves_no_block(s: Seq<char>)
    ensures
        no_block(strip_blocks(s)),
    decreases s.len(),
{
    if let Some(st) = text::find_first(s, "{{#"@, 0) {
        text::lemma_find_first(s, "{{#"@, 0);
        if let Some(en) = text::find_first(s, "{{/"@, st) {
            text::lemma_find_first(s, "{{/"@, st);
            if let Some(m) = text::find_first(s, "}}"@, en) {
                text::lemma_find_first(s, "}}"@, en);
                reveal_strlit("}}");
                let rest = s.take(st) + s.skip(m + 2);
                assert(rest.len() < s.len());
                lemma_strip_leaves_no_block(rest);
            }
        }
    }
}

/// A filled-in configuration holds no complete conditional block.
pub proof fn lemma_config_has_no_block(
    template: Seq<char>,
    id: Seq<char>,
    name: Seq<char>,
    description: Option<Seq<char>>,
    category: Seq<char>,
    engine: Option<Seq<char>>,
    model: Option<Seq<char>>,
    reasoning: Option<Seq<char>>,
)
    ensures
        config_from_template(template, id, name, description, category, engine, model, reasoning) matches Ok(c) ==> no_block(c),
{
    let s1 = text::replace_all(template, "{{id}}"@, id);
    let s2 = text::replace_all(s1, "{{name}}"@, name);
    let s3 = text::replace_all(
        s2,
        "{{description}}"@,
        match description {
            Some(d) => d,
            None => Seq::empty(),
        },
    );
    let s4 = text::replace_all(s3, "{{category}}"@, category);
    if let Some(s5) = fill_optional(s4, "{{#engine}}"@, "{{/engine}}"@, "{{engine}}"@, engine) {
        if let Some(s6) = fill_optional(s5, "{{#model}}"@, "{{/model}}"@, "{{model}}"@, model) {
            if let Some(s7) = fill_optional(
                s6,
                "{{#reasoning}}"@,
                "{{/reasoning}}"@,
                "{{reasoning}}"@,
                reasoning,
            ) {
                lemma_strip_leaves_no_block(s7);
            }
        }
    }
}

/// A configuration template without any `{{` comes out as it went in,
/// whatever the field values.
pub proof fn lemma_plain_template_unchanged(
    template: Seq<char>,
    id: Seq<char>,
    name: Seq<char>,
    description: Option<Seq<char>>,
    category: Seq<char>,
    engine: Option<Seq<char>>,
    model: Option<Seq<char>>,
    reasoning: Option<Seq<char>>,
)
    requires
        !text::contains(template, seq!['{', '{']),
    ensures
        config_from_template(template, id, name, description, category, engine, model, reasoning)
            == Ok::<Seq<char>, TemplateError>(template),
{
    reveal_strlit("{{id}}");
    reveal_strlit("{{name}}");
    reveal_strlit("{{description}}");
    reveal_strlit("{{category}}");
    reveal_strlit("{{#engine}}");
    reveal_strlit("{{/engine}}");
    reveal_strlit("{{engine}}");
    reveal_strlit("{{#model}}");
    reveal_strlit("{{/model}}");
    reveal_strlit("{{model}}");
    reveal_strlit("{{#reasoning}}");
    reveal_strlit("{{/reasoning}}");
    reveal_strlit("{{reasoning}}");
    reveal_strlit("{{#");
    lemma_replace_absent(template, "{{id}}"@, id);
    lemma_replace_absent(template, "{{name}}"@, name);
    lemma_replace_absent(template, "{{description}}"@, match description {
        Some(d) => d,
        None => Seq::empty(),
    });
    lemma_replace_absent(template, "{{category}}"@, category);
    lemma_fill_absent(template, "{{#engine}}"@, "{{/engine}}"@, "{{engine}}"@, engine);
    lemma_fill_absent(template, "{{#model}}"@, "{{/model}}"@, "{{model}}"@, model);
    lemma_fill_absent(template, "{{#reasoning}}"@, "{{/reasoning}}"@, "{{reasoning}}"@, reasoning);
    lemma_no_open_braces(template, "{{#"@);
}

/// Cuts the block from the first `open` tag to the end of the first `close` tag.
fn cut_block_chars(v: Vec<char>, open: &str, close: &str) -> (r: Option<Vec<char>>)
    ensures
        match r {
            Some(x) => cut_block(v@, open@, close@) == Some(x@),
            None => cut_block(v@, open@, close@) is None,
        },
{
    let o = chars_of(open);
    let c = chars_of(close);
    proof {
        text::lemma_find_first(v@, o@, 0);
        text::lemma_find_first(v@, c@, 0);
    }
    match (find_from(&v, &o, 0), find_from(&v, &c, 0)) {
        (Some(st), Some(en)) => {
            let end = en + c.len();
            if st <= end {
                let mut out = slice(&v, 0, st);
                let rest = slice(&v, end, v.len());
                push_all(&mut out, &rest);
                assert(out@ =~= v@.take(st as int) + v@.skip(end as int));
                Some(out)
            } else {
                None
            }
        },
        _ => Some(v),
    }
}

/// Fills in one optional field.
fn fill_optional_chars(v: Vec<char>, open: &str, close: &str, var: &str, value: Option<&str>) -> (r:
    Option<Vec<char>>)
    ensures
        match r {
            Some(x) => fill_optional(v@, open@, close@, var@, opt_str(value)) == Some(x@),
            None => fill_optional(v@, open@, close@, var@, opt_str(value)) is None,
        },
{
    match value {
        Some(val) => {
            let a = replace_in(v, open, "");
            let b = replace_in(a, close, "");
            assert(""@ =~= Seq::<char>::empty()) by {
                reveal_strlit("");
            }
            Some(replace_in(b, var, val))
        },
        None => cut_block_chars(v, open, close),
    }
}

/// Cuts out every remaining conditional block.
fn strip_blocks_chars(v: Vec<char>) -> (r: Vec<char>)
    ensures
        r@ == strip_blocks(v@),
{
    let open = chars_of("{{#");
    let mid = chars_of("{{/");
    let close = chars_of("}}");
    let mut cur = v;
    loop
        invariant
            open@ == "{{#"@,
            mid@ == "{{/"@,
            close@ == "}}"@,
            strip_blocks(v@) == strip_blocks(cur@),
        decreases cur.len(),
    {
        proof {
            text::lemma_find_first(cur@, open@, 0);
        }
        let st = match find_from(&cur, &open, 0) {
            None => return cur,
            Some(st) => st,
        };
        proof {
            text::lemma_find_first(cur@, mid@, st as int);
        }
        let en = match find_from(&cur, &mid, st) {
            None => return cur,
            Some(en) => en,
        };
        proof {
            text::lemma_find_first(cur@, close@, en as int);
        }
        let m = match find_from(&cur, &close, en) {
            None => return cur,
            Some(m) => m,
        };
        assert(close@.len() == 2) by {
            reveal_strlit("}}");
        }
        assert(m + 2 <= cur.len());
        let mut out = slice(&cur, 0, st);
        let rest = slice(&cur, m + 2, cur.len());
        push_all(&mut out, &rest);
        assert(out@ =~= cur@.take(st as int) + cur@.skip(m + 2));
        assert(cur@.subrange(st as int, st + open@.len()) == open@);
        cur = out;
    }
}

/// Fills in an agent configuration template: replaces `{{id}}`,
/// `{{name}}`, `{{description}}` and `{{category}}`; for each of engine,
/// model and reasoning, keeps the `{{#field}}...{{/field}}` block and
/// replaces `{{field}}` when a value is given, or cuts the block out when
/// not; finally cuts out any other conditional block.
pub fn substitute_template_variables(
    template: &str,
    id: &str,
    name: &str,
    description: Option<&str>,
    category: &str,
    engine: Option<&str>,
    model: Option<&str>,
    reasoning: Option<&str>,
) -> (r: Result<String, TemplateError>)
    ensures
        match r {
            Ok(s) => config_from_template(
                template@,
                id@,
                name@,
                opt_str(description),
                category@,
                opt_str(engine),
                opt_str(model),
                opt_str(reasoning),
            ) == Ok::<Seq<char>, TemplateError>(s@),
            Err(e) => config_from_template(
                template@,
                id@,
                name@,
                opt_str(description),
                category@,
                opt_str(engine),
                opt_str(model),
                opt_str(reasoning),
            ) == Err::<Seq<char>, TemplateError>(e),
        },
{
    let mut result = chars_of(template);
    result = replace_in(result, "{{id}}", id);
    result = replace_in(result, "{{name}}", name);
    let desc = match description {
        Some(d) => d,
        None => "",
    };
    assert(""@ =~= Seq::<char>::empty()) by {
        reveal_strlit("");
    }
    result = replace_in(result, "{{description}}", desc);
    result = replace_in(result, "{{category}}", category);
    let result = match fill_optional_chars(result, "{{#engine}}", "{{/engine}}", "{{engine}}", engine) {
        None => return Err(TemplateError::MisorderedBlock(OptionalField::Engine)),
        Some(x) => x,
    };
    let result = match fill_optional_chars(result, "{{#model}}", "{{/model}}", "{{model}}", model) {
        None => return Err(TemplateError::MisorderedBlock(OptionalField::Model)),
        Some(x) => x,
    };
    let result = match fill_optional_chars(
        result,
        "{{#reasoning}}",
        "{{/reasoning}}",
        "{{reasoning}}",
        reasoning,
    ) {
        None => return Err(TemplateError::MisorderedBlock(OptionalField::Reasoning)),
        Some(x) => x,
    };
    let result = strip_blocks_chars(result);
    Ok(string_from_chars(&result))
}

/// The placeholders of a prompt template and the default text each gets.
pub open spec fn prompt_placeholders() -> Seq<(Seq<char>, Seq<char>)> {
    seq![
        ("{{domain}}"@, "your domain"@),
        ("{{primary_responsibility}}"@, "performing specific tasks"@),
        ("{{capability_1}}"@, "Capability 1"@),
        ("{{capability_2}}"@, "Capability 2"@),
        ("{{capability_3}}"@, "Capability 3"@),
        ("{{input_1}}"@, "Input 1"@),
        ("{{input_2}}"@, "Input 2"@),
        ("{{input_3}}"@, "Input 3"@),
        ("{{output_1}}"@, "Output 1"@),
        ("{{output_2}}"@, "Output 2"@),
        ("{{output_3}}"@, "Output 3"@),
        ("{{step_1_title}}"@, "First step"@),
        ("{{step_1_detail_1}}"@, "Detail 1"@),
        ("{{step_1_detail_2}}"@, "Detail 2"@),
        ("{{step_2_title}}"@, "Second step"@),
        ("{{step_2_detail_1}}"@, "Detail 1"@),
        ("{{step_2_detail_2}}"@, "Detail 2"@),
        ("{{step_3_title}}"@, "Third step"@),
        ("{{step_3_detail_1}}"@, "Detail 1"@),
        ("{{step_3_detail_2}}"@, "Detail 2"@),
        ("{{example_1_title}}"@, "Example Scenario"@),
        ("{{example_1_input}}"@, "Sample input"@),
        ("{{example_1_output}}"@, "Expected output"@),
        ("{{note_1}}"@, "Important note 1"@),
        ("{{note_2}}"@, "Important note 2"@),
        ("{{note_3}}"@, "Important note 3"@),
    ]
}

/// `s` with each placeholder of `ps`, in order, replaced by its text.
pub open spec fn apply_placeholders(s: Seq<char>, ps: Seq<(Seq<char>, Seq<char>)>) -> Seq<char>
    decreases ps.len(),
{
    if ps.len() == 0 {
        s
    } else {
        apply_placeholders(text::replace_all(s, ps[0].0, ps[0].1), ps.drop_first())
    }
}

/// The prompt text of a new agent from a prompt template: `{{name}}` and
/// `{{description}}` replaced (the latter by a reminder when absent), then
/// every other placeholder replaced by its default text.
pub open spec fn prompt_from_template(template: Seq<char>, name: Seq<char>, description: Option<
    Seq<char>,
>) -> Seq<char> {
    let s1 = text::replace_all(template, "{{name}}"@, name);
    let s2 = text::replace_all(
        s1,
        "{{description}}"@,
        match description {
            Some(d) => d,
            None => "Add agent description here"@,
        },
    );
    apply_placeholders(s2, prompt_placeholders())
}

/// Fills in an agent prompt template: `{{name}}`, `{{description}}`, and
/// default texts for the remaining placeholders.
pub fn substitute_prompt_template_variables(
    template: &str,
    name: &str,
    description: Option<&str>,
) -> (r: String)
    ensures
        r@ == prompt_from_template(template@, name@, opt_str(description)),
{
    let mut result = chars_of(template);
    result = replace_in(result, "{{name}}", name);
    let desc = match description {
        Some(d) => d,
        None => "Add agent description here",
    };
    result = replace_in(result, "{{description}}", desc);
    let placeholders: Vec<(&str, &str)> = vec![
        ("{{domain}}", "your domain"),
        ("{{primary_responsibility}}", "performing specific tasks"),
        ("{{capability_1}}", "Capability 1"),
        ("{{capability_2}}", "Capability 2"),
        ("{{capability_3}}", "Capability 3"),
        ("{{input_1}}", "Input 1"),
        ("{{input_2}}", "Input 2"),
        ("{{input_3}}", "Input 3"),
        ("{{output_1}}", "Output 1"),
        ("{{output_2}}", "Output 2"),
        ("{{output_3}}", "Output 3"),
        ("{{step_1_title}}", "First step"),
        ("{{step_1_detail_1}}", "Detail 1"),
        ("{{step_1_detail_2}}", "Detail 2"),
        ("{{step_2_title}}", "Second step"),
        ("{{step_2_detail_1}}", "Detail 1"),
        ("{{step_2_detail_2}}", "Detail 2"),
        ("{{step_3_title}}", "Third step"),
        ("{{step_3_detail_1}}", "Detail 1"),
        ("{{step_3_detail_2}}", "Detail 2"),
        ("{{example_1_title}}", "Example Scenario"),
        ("{{example_1_input}}", "Sample input"),
        ("{{example_1_output}}", "Expected output"),
        ("{{note_1}}", "Important note 1"),
        ("{{note_2}}", "Important note 2"),
        ("{{note_3}}", "Important note 3"),
    ];
    let ghost ps = prompt_placeholders();
    let ghost s2 = result@;
    assert(ps.skip(0) =~= ps);
    assert(placeholders@.map_values(|p: (&str, &str)| (p.0@, p.1@)) =~= ps);
    let mut k: usize = 0;
    while k < placeholders.len()
        invariant
            k <= placeholders.len(),
            ps == prompt_placeholders(),
            placeholders@.map_values(|p: (&str, &str)| (p.0@, p.1@)) == ps,
            apply_placeholders(result@, ps.skip(k as int)) == apply_placeholders(s2, ps),
        decreases placeholders.len() - k,
    {
        let (placeholder, default) = placeholders[k];
        assert(ps.skip(k as int).drop_first() =~= ps.skip(k + 1));
        assert(ps.skip(k as int)[0] == (placeholder@, default@));
        result = replace_in(result, placeholder, default);
        k += 1;
    }
    assert(ps.skip(placeholders.len() as int) =~= Seq::<(Seq<char>, Seq<char>)>::empty());
    string_from_chars(&result)
}

/// The text of an agent prompt after its title and description.
pub const PROMPT_BODY: &'static str = "\n\n## Role\n\nDefine the agent's role and primary responsibilities here.\n\n## Capabilities\n\n- List the agent's core capabilities\n- Include what tasks it can perform\n- Specify any constraints or limitations\n\n## Input\n\nDescribe what inputs this agent expects:\n- Context from previous steps\n- Required parameters\n- Optional configuration\n\n## Output\n\nDescribe what this agent produces:\n- Expected output format\n- Key deliverables\n- Success criteria\n\n## Instructions\n\nProvide step-by-step instructions for the agent:\n\n1. First step - explain what to do\n2. Second step - detail the process\n3. Third step - clarify expectations\n4. Continue as needed...\n\n## Examples\n\n### Example 1: [Scenario Name]\n\n**Input:**\n```\nProvide sample input\n```\n\n**Expected Output:**\n```\nShow expected result\n```\n\n### Example 2: [Another Scenario]\n\n**Input:**\n```\nDifferent scenario input\n```\n\n**Expected Output:**\n```\nCorresponding output\n```\n\n## Notes\n\n- Add any important notes\n- Include edge cases to consider\n- Document best practices\n";

/// The prompt written for a new agent: a `# name` title, the description
/// (a reminder when absent), then the standard sections to fill in.
pub fn generate_prompt_template(name: &str, description: Option<&str>) -> (r: String)
    ensures
        r@ == "# "@ + name@ + "\n\n"@ + match opt_str(description) {
            Some(d) => d,
            None => "Add agent description here"@,
        } + PROMPT_BODY@,
{
    let desc = match description {
        Some(d) => d,
        None => "Add agent description here",
    };
    let mut out = chars_of("# ");
    push_str(&mut out, name);
    push_str(&mut out, "\n\n");
    push_str(&mut out, desc);
    push_str(&mut out, PROMPT_BODY);
    string_from_chars(&out)
}

} // verus!
