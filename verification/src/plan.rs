//! Reading a project specification: its project name, its iteration and
//! task counts, the slug and folder name a new plan gets from it, and the
//! outline of the plan and its iterations.
use vstd::prelude::*;
use crate::text;
use crate::text::{
    char_is_alphanumeric, char_is_whitespace, chars_of, lines_of, push_all, push_decimal, push_str,
    slice, starts_with, str_to_lowercase, string_from_chars, trim_chars,
};

verus! {

/// Whether a trimmed line is a level-one Markdown header (`# `).
pub open spec fn is_title_line(t: Seq<char>) -> bool {
    seq!['#', ' '].is_prefix_of(t)
}

/// Whether a trimmed line is a level-two Markdown header (`## `), which
/// opens an iteration.
pub open spec fn is_iteration_line(t: Seq<char>) -> bool {
    seq!['#', '#', ' '].is_prefix_of(t)
}

/// Whether a trimmed line is an open checklist item (`- [ ]` or `* [ ]`),
/// which is a task.
pub open spec fn is_task_line(t: Seq<char>) -> bool {
    seq!['-', ' ', '[', ' ', ']'].is_prefix_of(t) || seq!['*', ' ', '[', ' ', ']'].is_prefix_of(
        t,
    )
}

/// The project name declared by the first title line among `ls`: the rest of
/// that trimmed line after `# `, trimmed; `None` when no line is a title.
pub open spec fn project_name_in(ls: Seq<Seq<char>>) -> Option<Seq<char>>
    decreases ls.len(),
{
    if ls.len() == 0 {
        None
    } else if is_title_line(text::trim(ls[0])) {
        Some(text::trim(text::trim(ls[0]).skip(2)))
    } else {
        project_name_in(ls.drop_first())
    }
}

/// The project name of a specification text.
pub open spec fn project_name_of(content: Seq<char>) -> Option<Seq<char>> {
    project_name_in(text::lines(content))
}

/// How many of the lines `ls` are iteration headers once trimmed.
pub open spec fn count_iteration_lines(ls: Seq<Seq<char>>) -> nat
    decreases ls.len(),
{
    if ls.len() == 0 {
        0
    } else {
        count_iteration_lines(ls.drop_last()) + if is_iteration_line(text::trim(ls.last())) {
            1nat
        } else {
            0nat
        }
    }
}

/// How many of the lines `ls` are tasks once trimmed.
pub open spec fn count_task_lines(ls: Seq<Seq<char>>) -> nat
    decreases ls.len(),
{
    if ls.len() == 0 {
        0
    } else {
        count_task_lines(ls.drop_last()) + if is_task_line(text::trim(ls.last())) {
            1nat
        } else {
            0nat
        }
    }
}

/// The iteration and task counts of a specification: at least one
/// iteration, and when no task is listed, one task per iteration.
pub open spec fn spec_structure(content: Seq<char>) -> (nat, nat) {
    let headers = count_iteration_lines(text::lines(content));
    let tasks = count_task_lines(text::lines(content));
    let iterations = if headers == 0 {
        1nat
    } else {
        headers
    };
    (iterations, if tasks == 0 {
        iterations
    } else {
        tasks
    })
}

/// A trimmed line opens an iteration exactly when its first three
/// characters are `#`, `#` and a space; a `###` header never does.
pub proof fn lemma_iteration_header(t: Seq<char>)
    ensures
        is_iteration_line(t) <==> (t.len() >= 3 && t[0] == '#' && t[1] == '#' && t[2] == ' '),
        t.len() >= 3 && t[0] == '#' && t[1] == '#' && t[2] == '#' ==> !is_iteration_line(t),
{
    let h = seq!['#', '#', ' '];
    if t.len() >= 3 {
        if t[0] == '#' && t[1] == '#' && t[2] == ' ' {
            assert(t.subrange(0, 3) =~= h);
        }
        if is_iteration_line(t) {
            assert(t.subrange(0, 3)[2] == h[2]);
            assert(t.subrange(0, 3)[1] == h[1]);
            assert(t.subrange(0, 3)[0] == h[0]);
        }
    }
}

/// One more line adds one iteration exactly when, trimmed, it starts with
/// `## `; any other line, a `###` header among them, adds none.
pub proof fn lemma_iteration_count_step(ls: Seq<Seq<char>>, l: Seq<char>)
    ensures
        count_iteration_lines(ls.push(l)) == count_iteration_lines(ls) + if text::trim(l).len() >= 3
            && text::trim(l)[0] == '#' && text::trim(l)[1] == '#' && text::trim(l)[2] == ' ' {
            1nat
        } else {
            0nat
        },
{
    assert(ls.push(l).drop_last() =~= ls);
    lemma_iteration_header(text::trim(l));
}

/// A specification's outline has at least one iteration, and as many as it
/// has iteration headers when it has any.
pub proof fn lemma_iterations_counted(content: Seq<char>)
    ensures
        spec_structure(content).0 >= 1,
        count_iteration_lines(text::lines(content)) > 0 ==> spec_structure(content).0
            == count_iteration_lines(text::lines(content)),
        count_iteration_lines(text::lines(content)) == 0 ==> spec_structure(content).0 == 1,
{
}

/// The character a slug keeps for `c`: alphanumeric characters stay, every
/// other character becomes a space.
pub open spec fn slug_char(c: char) -> char {
    if text::is_alnum(c) {
        c
    } else {
        ' '
    }
}

/// The words `ws` joined with `sep` between each two.
pub open spec fn join(ws: Seq<Seq<char>>, sep: char) -> Seq<char>
    decreases ws.len(),
{
    if ws.len() == 0 {
        Seq::empty()
    } else if ws.len() == 1 {
        ws[0]
    } else {
        join(ws.drop_last(), sep).push(sep) + ws.last()
    }
}

/// The URL-friendly slug of `s`: the words of its lower-case form, once each
/// character that is not alphanumeric became a space, joined with `-`.
pub open spec fn slug(s: Seq<char>) -> Seq<char> {
    lowered_slug(text::lowercase(s))
}

/// The slug of an already lower-cased text: its words, once each character
/// that is not alphanumeric became a space, joined with `-`.
pub open spec fn lowered_slug(lower: Seq<char>) -> Seq<char> {
    join(text::words(lower.map_values(|c: char| slug_char(c))), '-')
}

/// The character a slug of ASCII text keeps for `c`: ASCII letters and
/// digits stay, every other character becomes a space.
pub open spec fn ascii_slug_char(c: char) -> char {
    if text::ascii_alnum(c) {
        c
    } else {
        ' '
    }
}

/// The slug of ASCII text, with the standard library's case mapping and
/// alphanumeric test written out for ASCII.
pub open spec fn ascii_slug(s: Seq<char>) -> Seq<char> {
    join(text::words(text::ascii_lowercase(s).map_values(|c: char| ascii_slug_char(c))), '-')
}

/// A character that may stand in the slug of ASCII text: `-`, a lower-case
/// ASCII letter or a digit.
pub open spec fn ascii_slug_allowed(c: char) -> bool {
    ||| c == '-'
    ||| 'a' <= c <= 'z'
    ||| '0' <= c <= '9'
}

/// The folder name of a new plan: the requirement id, the separator
/// `-வைக் `, then the given name, or else the slug of the specification's
/// project name (`project` when it declares none).
pub open spec fn plan_folder(req_id: Seq<char>, name: Option<Seq<char>>, content: Seq<char>) -> Seq<
    char,
> {
    req_id + "-வைக் "@ + match name {
        Some(n) => n,
        None => slug(
            match project_name_of(content) {
                Some(p) => p,
                None => "project"@,
            },
        ),
    }
}

/// The project name of a specification: the text of its first `# ` header.
pub fn extract_project_name(content: &str) -> (r: Option<String>)
    ensures
        match r {
            Some(s) => project_name_of(content@) == Some(s@),
            None => project_name_of(content@) is None,
        },
        r matches Some(s) ==> text::trim(s@) == s@,
{
    let chars = chars_of(content);
    let ls = lines_of(&chars);
    let ghost all = text::lines(content@);
    let title = vec!['#', ' '];
    assert(title@ =~= seq!['#', ' ']);
    let mut k: usize = 0;
    assert(all.skip(0) =~= all);
    while k < ls.len()
        invariant
            k <= ls.len(),
            text::views(ls@) == all,
            all == text::lines(content@),
            title@ == seq!['#', ' '],
            project_name_in(all) == project_name_in(all.skip(k as int)),
        decreases ls.len() - k,
    {
        let t = trim_chars(&ls[k]);
        assert(all[k as int] == ls@[k as int]@);
        if starts_with(&t, &title) {
            let rest = slice(&t, 2, t.len());
            assert(rest@ =~= t@.skip(2));
            let name = trim_chars(&rest);
            assert(all.skip(k as int)[0] == all[k as int]);
            assert(project_name_in(all.skip(k as int)) == Some(name@));
            let res = string_from_chars(&name);
            proof {
                text::lemma_trim_idempotent(rest@);
            }
            assert(project_name_in(all) == Some(res@));
            return Some(res);
        }
        assert(all.skip(k as int).drop_first() =~= all.skip(k + 1));
        k += 1;
    }
    None
}

/// The iteration and task counts of a specification: `## ` headers count
/// as iterations (at least one), `- [ ]` and `* [ ]` items as tasks (one per
/// iteration when none is listed).
pub fn parse_spec_structure(content: &str) -> (r: (usize, usize))
    ensures
        r.0 == spec_structure(content@).0,
        r.1 == spec_structure(content@).1,
        r.0 >= 1,
        r.1 >= 1,
{
    let chars = chars_of(content);
    let ls = lines_of(&chars);
    let ghost all = text::lines(content@);
    let header = vec!['#', '#', ' '];
    let dash_task = vec!['-', ' ', '[', ' ', ']'];
    let star_task = vec!['*', ' ', '[', ' ', ']'];
    assert(header@ =~= seq!['#', '#', ' ']);
    assert(dash_task@ =~= seq!['-', ' ', '[', ' ', ']']);
    assert(star_task@ =~= seq!['*', ' ', '[', ' ', ']']);
    let mut iterations: usize = 0;
    let mut tasks: usize = 0;
    let mut k: usize = 0;
    while k < ls.len()
        invariant
            k <= ls.len(),
            text::views(ls@) == all,
            all == text::lines(content@),
            header@ == seq!['#', '#', ' '],
            dash_task@ == seq!['-', ' ', '[', ' ', ']'],
            star_task@ == seq!['*', ' ', '[', ' ', ']'],
            iterations == count_iteration_lines(all.take(k as int)),
            tasks == count_task_lines(all.take(k as int)),
            iterations <= k,
            tasks <= k,
        decreases ls.len() - k,
    {
        assert(all.take(k + 1).drop_last() =~= all.take(k as int));
        assert(all[k as int] == ls@[k as int]@);
        let t = trim_chars(&ls[k]);
        if starts_with(&t, &header) {
            iterations += 1;
        }
        if starts_with(&t, &dash_task) || starts_with(&t, &star_task) {
            tasks += 1;
        }
        k += 1;
    }
    assert(all.take(ls.len() as int) =~= all);
    if iterations == 0 {
        iterations = 1;
    }
    if tasks == 0 {
        tasks = iterations;
    }
    (iterations, tasks)
}

/// The words `ws` joined with `sep`.
pub fn join_chars(ws: &Vec<Vec<char>>, sep: char) -> (r: Vec<char>)
    ensures
        r@ == join(text::views(ws@), sep),
{
    let mut r: Vec<char> = Vec::new();
    let mut k: usize = 0;
    while k < ws.len()
        invariant
            k <= ws.len(),
            r@ == join(text::views(ws@).take(k as int), sep),
        decreases ws.len() - k,
    {
        let ghost before = text::views(ws@).take(k as int);
        assert(text::views(ws@).take(k + 1).drop_last() =~= before);
        if k > 0 {
            r.push(sep);
        }
        push_all(&mut r, &ws[k]);
        k += 1;
        if k == 1 {
            assert(text::views(ws@).take(1) =~= seq![ws@[0]@]);
        }
    }
    assert(text::views(ws@).take(ws.len() as int) =~= text::views(ws@));
    r
}

/// The slug of an already lower-cased text: every run of characters that
/// are not alphanumeric turned into a single `-`, with none at either end.
pub fn slug_of_lowered(lower: &str) -> (r: String)
    ensures
        r@ == lowered_slug(lower@),
        forall|c: int| 0 <= c < r@.len() ==> #[trigger] r@[c] == '-' || text::is_alnum(r@[c]),
        text::is_ascii_text(lower@) ==> r@ == join(
            text::words(lower@.map_values(|c: char| ascii_slug_char(c))),
            '-',
        ),
{
    let chars = chars_of(lower);
    let ghost mapped = lower@.map_values(|c: char| slug_char(c));
    let ghost asc = lower@.map_values(|c: char| ascii_slug_char(c));
    let mut done: Vec<Vec<char>> = Vec::new();
    let mut cur: Vec<char> = Vec::new();
    let mut i: usize = 0;
    while i < chars.len()
        invariant
            i <= chars.len(),
            chars@ == lower@,
            mapped == lower@.map_values(|c: char| slug_char(c)),
            asc == lower@.map_values(|c: char| ascii_slug_char(c)),
            text::is_ascii_text(lower@) ==> forall|k: int| 0 <= k < i ==> mapped[k] == asc[k],
            text::words_state(mapped.take(i as int)) == (text::views(done@), cur@),
        decreases chars.len() - i,
    {
        assert(mapped.take(i + 1).drop_last() =~= mapped.take(i as int));
        let c = chars[i];
        let m = if char_is_alphanumeric(c) {
            c
        } else {
            ' '
        };
        assert(mapped.take(i + 1).last() == m);
        proof {
            if text::is_ascii_text(lower@) {
                assert((lower@[i as int] as u32) < 128);
                assert(asc[i as int] == m);
            }
        }
        if char_is_whitespace(m) {
            if cur.len() > 0 {
                done.push(cur);
                cur = Vec::new();
                assert(text::views(done@) =~= text::words_state(mapped.take(i + 1)).0);
            }
        } else {
            cur.push(m);
        }
        i += 1;
    }
    assert(mapped.take(chars.len() as int) =~= mapped);
    if cur.len() > 0 {
        done.push(cur);
        assert(text::views(done@) =~= text::words(mapped));
    }
    let joined = join_chars(&done, '-');
    let r = string_from_chars(&joined);
    proof {
        lemma_slug_url_safe(lower@);
        assert(r@ == lowered_slug(lower@));
        if text::is_ascii_text(lower@) {
            assert(mapped =~= asc);
        }
    }
    r
}

/// The URL-friendly slug of `s`: lower-cased, every run of characters that
/// are not alphanumeric turned into a single `-`, with none at either end.
/// On ASCII text it is the ASCII slug.
pub fn slugify(s: &str) -> (r: String)
    ensures
        r@ == slug(s@),
        forall|c: int| 0 <= c < r@.len() ==> #[trigger] r@[c] == '-' || text::is_alnum(r@[c]),
        text::is_ascii_text(s@) ==> r@ == ascii_slug(s@),
{
    let lower = str_to_lowercase(s);
    proof {
        if text::is_ascii_text(s@) {
            lemma_ascii_lowercase_ascii(s@);
        }
    }
    slug_of_lowered(lower.as_str())
}

/// Lower-casing ASCII text gives ASCII text with no upper-case letter.
proof fn lemma_ascii_lowercase_ascii(s: Seq<char>)
    requires
        text::is_ascii_text(s),
    ensures
        text::is_ascii_text(text::ascii_lowercase(s)),
        forall|k: int|
            0 <= k < s.len() ==> !('A' <= #[trigger] text::ascii_lowercase(s)[k] <= 'Z'),
{
    assert forall|k: int| 0 <= k < s.len() implies (#[trigger] text::ascii_lowercase(s)[k] as u32)
        < 128 && !('A' <= text::ascii_lowercase(s)[k] <= 'Z') by {
        assert((s[k] as u32) < 128);
    }
}

/// The folder name of a new plan: `<requirement id>-வைக் <name>`, the name
/// being the one given, or else the slug of the specification's project
/// name, `project` when it declares none.
pub fn plan_folder_name(requirement_id: &str, name: Option<String>, spec_content: &str) -> (r:
    String)
    ensures
        r@ == plan_folder(requirement_id@, text::opt_view(name), spec_content@),
{
    let mut out = chars_of(requirement_id);
    push_str(&mut out, "-வைக் ");
    match name {
        Some(n) => {
            push_str(&mut out, n.as_str());
        },
        None => {
            let project = match extract_project_name(spec_content) {
                Some(p) => p,
                None => String::from_str("project"),
            };
            let s = slugify(project.as_str());
            push_str(&mut out, s.as_str());
        },
    }
    string_from_chars(&out)
}

/// Every character of the words read from `p` is a character of `p` that is
/// not whitespace, and every completed word is non-empty.
proof fn lemma_words_state_chars(p: Seq<char>)
    ensures
        forall|i: int|
            0 <= i < text::words_state(p).0.len() ==> #[trigger] text::words_state(p).0[i].len() > 0,
        forall|i: int, j: int|
            0 <= i < text::words_state(p).0.len() && 0 <= j < text::words_state(p).0[i].len() ==> exists|k: int|
                0 <= k < p.len() && p[k] == #[trigger] text::words_state(p).0[i][j] && !text::is_white(p[k]),
        forall|j: int|
            0 <= j < text::words_state(p).1.len() ==> exists|k: int|
                0 <= k < p.len() && p[k] == #[trigger] text::words_state(p).1[j] && !text::is_white(p[k]),
    decreases p.len(),
{
    if p.len() > 0 {
        let q = p.drop_last();
        lemma_words_state_chars(q);
        let (done, cur) = text::words_state(q);
        assert forall|i: int, j: int|
            0 <= i < text::words_state(p).0.len() && 0 <= j < text::words_state(p).0[i].len() implies exists|k: int|
                0 <= k < p.len() && p[k] == #[trigger] text::words_state(p).0[i][j] && !text::is_white(p[k]) by {
            if i < done.len() {
                let k = choose|k: int| 0 <= k < q.len() && q[k] == done[i][j] && !text::is_white(q[k]);
                assert(p[k] == q[k]);
            } else {
                let k = choose|k: int| 0 <= k < q.len() && q[k] == cur[j] && !text::is_white(q[k]);
                assert(p[k] == q[k]);
            }
        }
        assert forall|j: int|
            0 <= j < text::words_state(p).1.len() implies exists|k: int|
                0 <= k < p.len() && p[k] == #[trigger] text::words_state(p).1[j] && !text::is_white(p[k]) by {
            if !text::is_white(p.last()) && j == cur.len() {
                assert(p[p.len() - 1] == p.last());
            } else {
                let k = choose|k: int| 0 <= k < q.len() && q[k] == cur[j] && !text::is_white(q[k]);
                assert(p[k] == q[k]);
            }
        }
    }
}

/// Every character of `join(ws, sep)` is `sep` or a character of one of the words.
proof fn lemma_join_chars(ws: Seq<Seq<char>>, sep: char)
    ensures
        forall|c: int|
            0 <= c < join(ws, sep).len() ==> #[trigger] join(ws, sep)[c] == sep || exists|i: int, j: int|
                0 <= i < ws.len() && 0 <= j < ws[i].len() && ws[i][j] == join(ws, sep)[c],
    decreases ws.len(),
{
    if ws.len() > 1 {
        let init = ws.drop_last();
        lemma_join_chars(init, sep);
        let a = join(init, sep).push(sep);
        assert forall|c: int|
            0 <= c < join(ws, sep).len() implies #[trigger] join(ws, sep)[c] == sep || exists|i: int, j: int|
                0 <= i < ws.len() && 0 <= j < ws[i].len() && ws[i][j] == join(ws, sep)[c] by {
            if c < join(init, sep).len() {
                assert(join(ws, sep)[c] == join(init, sep)[c]);
                if join(init, sep)[c] != sep {
                    let (i, j) = choose|i: int, j: int|
                        0 <= i < init.len() && 0 <= j < init[i].len() && init[i][j] == join(init, sep)[c];
                    assert(ws[i] == init[i]);
                }
            } else if c > join(init, sep).len() {
                let j = c - a.len();
                assert(join(ws, sep)[c] == ws.last()[j]);
                assert(ws[ws.len() - 1] == ws.last());
            }
        }
    } else if ws.len() == 1 {
        assert forall|c: int|
            0 <= c < join(ws, sep).len() implies #[trigger] join(ws, sep)[c] == sep || exists|i: int, j: int|
                0 <= i < ws.len() && 0 <= j < ws[i].len() && ws[i][j] == join(ws, sep)[c] by {
            assert(ws[0][c] == join(ws, sep)[c]);
        }
    }
}

/// A slug is URL-friendly: each of its characters is `-` or alphanumeric
/// (the space, which stands for every other character, being whitespace).
proof fn lemma_slug_url_safe(lower: Seq<char>)
    ensures
        forall|c: int|
            0 <= c < lowered_slug(lower).len() ==> #[trigger] lowered_slug(lower)[c] == '-'
                || text::is_alnum(lowered_slug(lower)[c]),
{
    let mapped = lower.map_values(|c: char| slug_char(c));
    lemma_words_state_chars(mapped);
    let ws = text::words(mapped);
    lemma_join_chars(ws, '-');
    let t = lowered_slug(lower);
    assert forall|c: int| 0 <= c < t.len() implies #[trigger] t[c] == '-' || text::is_alnum(t[c]) by {
        if t[c] != '-' {
            let (i, j) = choose|i: int, j: int| 0 <= i < ws.len() && 0 <= j < ws[i].len() && ws[i][j] == t[c];
            let (done, cur) = text::words_state(mapped);
            let k = if i < done.len() {
                choose|k: int| 0 <= k < mapped.len() && mapped[k] == done[i][j] && !text::is_white(mapped[k])
            } else {
                choose|k: int| 0 <= k < mapped.len() && mapped[k] == cur[j] && !text::is_white(mapped[k])
            };
            assert(mapped[k] == slug_char(lower[k]));
        }
    }
}

/// Whether every word of `ws` is non-empty and made of characters that are
/// not whitespace and that `f` keeps as they are.
pub open spec fn fixed_words(ws: Seq<Seq<char>>, f: spec_fn(char) -> char) -> bool {
    forall|i: int|
        0 <= i < ws.len() ==> #[trigger] ws[i].len() > 0 && forall|j: int|
            0 <= j < ws[i].len() ==> f(#[trigger] ws[i][j]) == ws[i][j] && !text::is_white(
                ws[i][j],
            )
}

/// The words of `ws` but the last keep the property of all of them.
proof fn lemma_fixed_words_init(ws: Seq<Seq<char>>, f: spec_fn(char) -> char)
    requires
        fixed_words(ws, f),
        ws.len() > 0,
    ensures
        fixed_words(ws.drop_last(), f),
{
    let init = ws.drop_last();
    assert forall|i: int| 0 <= i < init.len() implies #[trigger] init[i].len() > 0 && forall|j: int|
        0 <= j < init[i].len() ==> f(#[trigger] init[i][j]) == init[i][j] && !text::is_white(
            init[i][j],
        ) by {
        assert(init[i] == ws[i]);
    }
}

/// Reading characters that are not whitespace only lengthens the word in
/// progress.
proof fn lemma_words_state_append(p: Seq<char>, w: Seq<char>)
    requires
        forall|j: int| 0 <= j < w.len() ==> !text::is_white(#[trigger] w[j]),
    ensures
        text::words_state(p + w) == (text::words_state(p).0, text::words_state(p).1 + w),
    decreases w.len(),
{
    if w.len() == 0 {
        assert(p + w =~= p);
        assert(text::words_state(p).1 + w =~= text::words_state(p).1);
    } else {
        let wi = w.drop_last();
        lemma_words_state_append(p, wi);
        assert((p + w).drop_last() =~= p + wi);
        assert((p + w).last() == w.last());
        assert((text::words_state(p).1 + wi).push(w.last()) =~= text::words_state(p).1 + w);
    }
}

/// The words of words joined with spaces are those words.
proof fn lemma_words_of_join(ws: Seq<Seq<char>>, f: spec_fn(char) -> char)
    requires
        fixed_words(ws, f),
    ensures
        ws.len() > 0 ==> text::words_state(join(ws, ' ')) == (ws.drop_last(), ws.last()),
        text::words(join(ws, ' ')) == ws,
    decreases ws.len(),
{
    if ws.len() == 1 {
        assert(ws[0].len() > 0);
        lemma_words_state_append(Seq::empty(), ws[0]);
        assert(Seq::<char>::empty() + ws[0] =~= ws[0]);
        assert(ws.drop_last() =~= Seq::<Seq<char>>::empty());
    } else if ws.len() > 1 {
        let init = ws.drop_last();
        lemma_fixed_words_init(ws, f);
        lemma_words_of_join(init, f);
        let q = join(init, ' ').push(' ');
        assert(q.drop_last() =~= join(init, ' '));
        assert(init.last() == ws[ws.len() - 2]);
        assert(init.drop_last().push(init.last()) =~= init);
        assert(text::words_state(q) == (init, Seq::<char>::empty()));
        assert(ws.last() == ws[ws.len() - 1]);
        lemma_words_state_append(q, ws.last());
        assert(Seq::<char>::empty() + ws.last() =~= ws.last());
    }
    if ws.len() > 0 {
        assert(ws.last() == ws[ws.len() - 1]);
        assert(ws.drop_last().push(ws.last()) =~= ws);
    }
}

/// In words joined with `-`, mapping every character by `f`, which keeps the
/// words' characters and turns `-` into a space, gives the words joined with
/// spaces.
proof fn lemma_join_map(ws: Seq<Seq<char>>, f: spec_fn(char) -> char)
    requires
        fixed_words(ws, f),
        f('-') == ' ',
    ensures
        join(ws, '-').map_values(f) == join(ws, ' '),
    decreases ws.len(),
{
    if ws.len() == 0 {
        assert(join(ws, '-').map_values(f) =~= join(ws, ' '));
    } else if ws.len() == 1 {
        assert(join(ws, '-').map_values(f) =~= join(ws, ' ')) by {
            assert forall|j: int| 0 <= j < ws[0].len() implies f(ws[0][j]) == ws[0][j] by {
                assert(f(ws[0][j]) == ws[0][j]);
            }
        }
    } else {
        let init = ws.drop_last();
        lemma_fixed_words_init(ws, f);
        lemma_join_map(init, f);
        let a = join(init, '-');
        let w = ws.last();
        assert(w == ws[ws.len() - 1]);
        assert forall|j: int| 0 <= j < w.len() implies f(w[j]) == w[j] by {
            assert(f(ws[ws.len() - 1][j]) == ws[ws.len() - 1][j]);
        }
        assert(join(ws, '-').map_values(f) =~= join(ws, ' ')) by {
            assert(join(ws, '-') == a.push('-') + w);
            assert(join(ws, ' ') == join(init, ' ').push(' ') + w);
            assert forall|k: int| 0 <= k < a.len() implies f(a[k]) == join(init, ' ')[k] by {
                assert(a.map_values(f)[k] == f(a[k]));
            }
        }
    }
}

/// Non-empty words without `sep`, joined with `sep`, neither start nor end
/// with `sep` and never hold it twice in a row.
proof fn lemma_join_shape(ws: Seq<Seq<char>>, sep: char)
    requires
        forall|i: int|
            0 <= i < ws.len() ==> #[trigger] ws[i].len() > 0 && forall|j: int|
                0 <= j < ws[i].len() ==> #[trigger] ws[i][j] != sep,
    ensures
        ws.len() > 0 ==> join(ws, sep).len() > 0,
        join(ws, sep).len() > 0 ==> join(ws, sep)[0] != sep && join(ws, sep).last() != sep,
        forall|k: int|
            0 <= k < join(ws, sep).len() - 1 && #[trigger] join(ws, sep)[k] == sep ==> join(
                ws,
                sep,
            )[k + 1] != sep,
    decreases ws.len(),
{
    if ws.len() == 1 {
        assert(ws[0].len() > 0);
        assert(ws[0][ws[0].len() - 1] != sep);
    } else if ws.len() > 1 {
        let init = ws.drop_last();
        assert forall|i: int| 0 <= i < init.len() implies #[trigger] init[i].len() > 0 && forall|j: int|
            0 <= j < init[i].len() ==> #[trigger] init[i][j] != sep by {
            assert(init[i] == ws[i]);
        }
        lemma_join_shape(init, sep);
        let a = join(init, sep);
        let w = ws.last();
        assert(w == ws[ws.len() - 1]);
        assert(w.len() > 0);
        let t = join(ws, sep);
        assert(t == a.push(sep) + w);
        assert(w[0] != sep);
        assert(w[w.len() - 1] != sep);
        assert(t[0] == a[0]);
        assert(t.last() == w[w.len() - 1]);
        assert forall|k: int| 0 <= k < t.len() - 1 && #[trigger] t[k] == sep implies t[k + 1] != sep by {
            if k < a.len() - 1 {
                assert(t[k] == a[k] && t[k + 1] == a[k + 1]);
            } else if k == a.len() - 1 {
                assert(t[k] == a.last());
            } else if k == a.len() {
                assert(t[k + 1] == w[0]);
            } else {
                assert(t[k] == w[k - a.len() - 1]);
            }
        }
    }
}

/// Slugging ASCII text gives text made of `-`, lower-case ASCII letters and
/// digits, neither starting nor ending with `-` nor holding `--`, and
/// slugging that again gives it back.
pub proof fn lemma_ascii_slug_idempotent(s: Seq<char>)
    requires
        text::is_ascii_text(s),
    ensures
        forall|k: int| 0 <= k < ascii_slug(s).len() ==> ascii_slug_allowed(#[trigger] ascii_slug(s)[k]),
        text::is_ascii_text(ascii_slug(s)),
        ascii_slug(s).len() > 0 ==> ascii_slug(s)[0] != '-' && ascii_slug(s).last() != '-',
        forall|k: int|
            0 <= k < ascii_slug(s).len() - 1 && #[trigger] ascii_slug(s)[k] == '-' ==> ascii_slug(
                s,
            )[k + 1] != '-',
        ascii_slug(ascii_slug(s)) == ascii_slug(s),
{
    let g = |c: char| ascii_slug_char(c);
    let low = text::ascii_lowercase(s);
    let mapped = low.map_values(g);
    let ws = text::words(mapped);
    let t = ascii_slug(s);
    lemma_ascii_lowercase_ascii(s);
    lemma_words_state_chars(mapped);
    assert(fixed_words(ws, g) && forall|i: int, j: int|
        0 <= i < ws.len() && 0 <= j < ws[i].len() ==> ascii_slug_allowed(#[trigger] ws[i][j])
            && ws[i][j] != '-') by {
        let (done, cur) = text::words_state(mapped);
        assert forall|i: int, j: int| 0 <= i < ws.len() && 0 <= j < ws[i].len() implies g(
            #[trigger] ws[i][j],
        ) == ws[i][j] && !text::is_white(ws[i][j]) && ascii_slug_allowed(ws[i][j]) && ws[i][j]
            != '-' by {
            let k = if i < done.len() {
                choose|k: int| 0 <= k < mapped.len() && mapped[k] == done[i][j] && !text::is_white(mapped[k])
            } else {
                choose|k: int| 0 <= k < mapped.len() && mapped[k] == cur[j] && !text::is_white(mapped[k])
            };
            assert(mapped[k] == ascii_slug_char(low[k]));
            assert(!('A' <= low[k] <= 'Z'));
        }
    }
    lemma_join_chars(ws, '-');
    assert forall|i: int| 0 <= i < ws.len() implies #[trigger] ws[i].len() > 0 && forall|j: int|
        0 <= j < ws[i].len() ==> #[trigger] ws[i][j] != '-' by {
        assert forall|j: int| 0 <= j < ws[i].len() implies #[trigger] ws[i][j] != '-' by {
            assert(ascii_slug_allowed(ws[i][j]) && ws[i][j] != '-');
        }
    }
    lemma_join_shape(ws, '-');
    assert forall|k: int| 0 <= k < t.len() implies ascii_slug_allowed(#[trigger] t[k]) by {
        if t[k] != '-' {
            let (i, j) = choose|i: int, j: int| 0 <= i < ws.len() && 0 <= j < ws[i].len() && ws[i][j] == t[k];
            assert(ascii_slug_allowed(ws[i][j]));
        }
    }
    assert(text::is_ascii_text(t)) by {
        assert forall|k: int| 0 <= k < t.len() implies (#[trigger] t[k] as u32) < 128 by {
            assert(ascii_slug_allowed(t[k]));
        }
    }
    assert(text::ascii_lowercase(t) =~= t) by {
        assert forall|k: int| 0 <= k < t.len() implies text::ascii_lowercase(t)[k] == t[k] by {
            assert(ascii_slug_allowed(t[k]));
        }
    }
    lemma_join_map(ws, g);
    lemma_words_of_join(ws, g);
}

/// A plan made from a specification before any work on it.
#[derive(Debug, Clone, PartialEq, Eq)]
pub struct PlanOutline {
    /// The specification's title, or `Untitled Project`.
    pub project_name: String,
    /// The number of iterations the specification lists.
    pub total_iterations: u32,
    /// The number of tasks the specification lists.
    pub total_tasks: u32,
}

/// The project name a plan takes from a specification.
pub open spec fn plan_project_name(content: Seq<char>) -> Seq<char> {
    match project_name_of(content) {
        Some(n) => n,
        None => "Untitled Project"@,
    }
}

/// The plan made from a specification: its title (or `Untitled Project`)
/// and its iteration and task counts (kept to 32 bits).
pub fn generate_basic_plan(spec_content: &str) -> (r: PlanOutline)
    ensures
        r.project_name@ == plan_project_name(spec_content@),
        r.total_iterations == spec_structure(spec_content@).0 as u32,
        r.total_tasks == spec_structure(spec_content@).1 as u32,
{
    let project_name = match extract_project_name(spec_content) {
        Some(n) => n,
        None => String::from_str("Untitled Project"),
    };
    let (iterations, tasks) = parse_spec_structure(spec_content);
    PlanOutline { project_name, total_iterations: iterations as u32, total_tasks: tasks as u32 }
}

/// One iteration of a new plan's manifest, with its single task.
#[derive(Debug, Clone, PartialEq, Eq)]
pub struct IterationOutline {
    /// `I<n>`.
    pub id: String,
    /// The iteration's number, from 1.
    pub number: u32,
    /// `Iteration <n>`.
    pub name: String,
    /// `Iteration <n> tasks`.
    pub description: String,
    /// `Complete iteration <n>`.
    pub goal: String,
    /// `I<n>.T1`.
    pub task_id: String,
    /// `Task 1 for iteration <n>`.
    pub task_title: String,
    /// `Generated task`.
    pub task_description: String,
}

/// Whether `it` is the outline of iteration `n`.
pub open spec fn outlines_iteration(it: IterationOutline, n: nat) -> bool {
    &&& it.number == n
    &&& it.id@ == "I"@ + text::decimal(n)
    &&& it.name@ == "Iteration "@ + text::decimal(n)
    &&& it.description@ == "Iteration "@ + text::decimal(n) + " tasks"@
    &&& it.goal@ == "Complete iteration "@ + text::decimal(n)
    &&& it.task_id@ == "I"@ + text::decimal(n) + ".T1"@
    &&& it.task_title@ == "Task 1 for iteration "@ + text::decimal(n)
    &&& it.task_description@ == "Generated task"@
}

/// The outline of iteration `n`.
fn iteration_outline(n: u32) -> (r: IterationOutline)
    ensures
        outlines_iteration(r, n as nat),
{
    let mut id = chars_of("I");
    push_decimal(&mut id, n as u64);
    let mut name = chars_of("Iteration ");
    push_decimal(&mut name, n as u64);
    let mut description = name.clone();
    push_str(&mut description, " tasks");
    let mut goal = chars_of("Complete iteration ");
    push_decimal(&mut goal, n as u64);
    let mut task_id = id.clone();
    push_str(&mut task_id, ".T1");
    let mut task_title = chars_of("Task 1 for iteration ");
    push_decimal(&mut task_title, n as u64);
    IterationOutline {
        id: string_from_chars(&id),
        number: n,
        name: string_from_chars(&name),
        description: string_from_chars(&description),
        goal: string_from_chars(&goal),
        task_id: string_from_chars(&task_id),
        task_title: string_from_chars(&task_title),
        task_description: String::from_str("Generated task"),
    }
}

/// The iterations of a new plan's manifest: `I1` to `I<total>`, each with
/// one generated task.
pub fn manifest_iterations(total_iterations: u32) -> (r: Vec<IterationOutline>)
    ensures
        r.len() == total_iterations,
        forall|j: int| 0 <= j < r.len() ==> outlines_iteration(#[trigger] r@[j], (j + 1) as nat),
{
    let mut r: Vec<IterationOutline> = Vec::new();
    let mut n: u32 = 0;
    while n < total_iterations
        invariant
            n <= total_iterations,
            r.len() == n,
            forall|j: int| 0 <= j < r.len() ==> outlines_iteration(#[trigger] r@[j], (j + 1) as nat),
        decreases total_iterations - n,
    {
        n += 1;
        r.push(iteration_outline(n));
    }
    r
}

} // verus!
