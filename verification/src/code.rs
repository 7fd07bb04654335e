//! Code blocks extracted from a chat session: which blocks a selection such
//! as `1,3..5,7` names, how blocks are joined for the clipboard or appended
//! to a file, the preview of a block's first lines, and which session was
//! used last.
use vstd::prelude::*;
use crate::text;
use crate::text::{
    chars_of, find_from, lines_of, parse_usize_chars, push_all, push_str, slice, split_chars,
    string_from_chars, trim_chars,
};

verus! {

/// The blocks a selection names.
#[derive(Debug, Clone, PartialEq, Eq)]
pub enum BlockSelector {
    /// One block.
    Single(usize),
    /// The blocks from the first index to the second, both included.
    Range(usize, usize),
    /// These blocks, in this order.
    Multiple(Vec<usize>),
}

/// Why a selection was refused.
#[derive(Debug, Clone, PartialEq, Eq)]
pub enum SelectionError {
    /// The text before `..` is not a block index.
    InvalidRangeStart,
    /// The text after `..` is not a block index.
    InvalidRangeEnd,
    /// A part without `..` is not a block index.
    InvalidBlockIndex,
}

/// A selection as a mathematical value.
pub ghost enum SelectionView {
    /// One block.
    Single(nat),
    /// The blocks from the first index to the second, both included.
    Range(nat, nat),
    /// These blocks, in this order.
    Multiple(Seq<usize>),
}

/// The mathematical value of a selection.
pub open spec fn selector_view(b: BlockSelector) -> SelectionView {
    match b {
        BlockSelector::Single(i) => SelectionView::Single(i as nat),
        BlockSelector::Range(a, z) => SelectionView::Range(a as nat, z as nat),
        BlockSelector::Multiple(v) => SelectionView::Multiple(v@),
    }
}

/// The indices `a, a + 1, ..., z` (none when `z < a`).
pub open spec fn index_range(a: nat, z: nat) -> Seq<usize> {
    Seq::new(
        if z >= a {
            (z - a + 1) as nat
        } else {
            0
        },
        |k: int| (a + k) as usize,
    )
}

/// The bounds of a range part `a..z` whose `..` is at `p`: both sides are
/// trimmed and must be block indices.
pub open spec fn range_bounds(t: Seq<char>, p: int) -> Result<(nat, nat), SelectionError> {
    match text::parse_usize(text::trim(t.take(p))) {
        None => Err(SelectionError::InvalidRangeStart),
        Some(a) => match text::parse_usize(text::trim(t.skip(p + 2))) {
            None => Err(SelectionError::InvalidRangeEnd),
            Some(z) => Ok((a, z)),
        },
    }
}

/// The indices one comma-separated part names: a range `a..z` or a single index.
pub open spec fn part_indices(part: Seq<char>) -> Result<Seq<usize>, SelectionError> {
    let t = text::trim(part);
    match text::find_first(t, seq!['.', '.'], 0) {
        Some(p) => match range_bounds(t, p) {
            Err(e) => Err(e),
            Ok((a, z)) => Ok(index_range(a, z)),
        },
        None => match text::parse_usize(t) {
            None => Err(SelectionError::InvalidBlockIndex),
            Some(n) => Ok(seq![n as usize]),
        },
    }
}

/// The indices named by the parts, in order; the first part in error decides.
pub open spec fn collect_indices(parts: Seq<Seq<char>>) -> Result<Seq<usize>, SelectionError>
    decreases parts.len(),
{
    if parts.len() == 0 {
        Ok(Seq::empty())
    } else {
        match collect_indices(parts.drop_last()) {
            Err(e) => Err(e),
            Ok(xs) => match part_indices(parts.last()) {
                Err(e) => Err(e),
                Ok(ys) => Ok(xs + ys),
            },
        }
    }
}

/// What a selection names. A selection without a comma is a range `a..z`
/// or a single index; with commas, every part is expanded, and the result
/// is a single block when only one index comes out.
pub open spec fn selection(s: Seq<char>) -> Result<SelectionView, SelectionError> {
    let parts = text::split(s, ',');
    if parts.len() == 1 {
        let t = text::trim(parts[0]);
        match text::find_first(t, seq!['.', '.'], 0) {
            Some(p) => match range_bounds(t, p) {
                Err(e) => Err(e),
                Ok((a, z)) => Ok(SelectionView::Range(a, z)),
            },
            None => match text::parse_usize(t) {
                None => Err(SelectionError::InvalidBlockIndex),
                Some(n) => Ok(SelectionView::Single(n)),
            },
        }
    } else {
        match collect_indices(parts) {
            Err(e) => Err(e),
            Ok(xs) => if xs.len() == 1 {
                Ok(SelectionView::Single(xs[0] as nat))
            } else {
                Ok(SelectionView::Multiple(xs))
            },
        }
    }
}

/// The bounds of the range part `t` whose `..` is at `p`.
fn parse_range_bounds(t: &Vec<char>, p: usize) -> (r: Result<(usize, usize), SelectionError>)
    requires
        p + 2 <= t.len(),
    ensures
        match r {
            Ok((a, z)) => range_bounds(t@, p as int) == Ok::<(nat, nat), SelectionError>(
                (a as nat, z as nat),
            ),
            Err(e) => range_bounds(t@, p as int) == Err::<(nat, nat), SelectionError>(e),
        },
{
    let left = slice(t, 0, p);
    let right = slice(t, p + 2, t.len());
    assert(left@ =~= t@.take(p as int));
    assert(right@ =~= t@.skip(p + 2));
    let a = match parse_usize_chars(&trim_chars(&left)) {
        None => return Err(SelectionError::InvalidRangeStart),
        Some(a) => a,
    };
    let z = match parse_usize_chars(&trim_chars(&right)) {
        None => return Err(SelectionError::InvalidRangeEnd),
        Some(z) => z,
    };
    Ok((a, z))
}

/// The indices one part names, appended to `out`.
fn push_part_indices(part: &Vec<char>, out: &mut Vec<usize>) -> (r: Result<(), SelectionError>)
    ensures
        match part_indices(part@) {
            Ok(ys) => r is Ok && final(out)@ == old(out)@ + ys,
            Err(e) => r == Err::<(), SelectionError>(e),
        },
{
    let t = trim_chars(part);
    let dots = vec!['.', '.'];
    assert(dots@ =~= seq!['.', '.']);
    match find_from(&t, &dots, 0) {
        Some(p) => {
            proof {
                text::lemma_find_first(t@, dots@, 0);
            }
            match parse_range_bounds(&t, p) {
                Err(e) => Err(e),
                Ok((a, z)) => {
                    let ghost start = out@;
                    if a <= z {
                        let mut i = a;
                        loop
                            invariant_except_break
                                a <= i <= z,
                                out@ == start + index_range(a as nat, z as nat).take(i - a),
                            ensures
                                out@ == start + index_range(a as nat, z as nat).take(z + 1 - a),
                            decreases z - i,
                        {
                            out.push(i);
                            assert(out@ =~= start + index_range(a as nat, z as nat).take(i + 1 - a));
                            if i == z {
                                break;
                            }
                            i += 1;
                        }
                        assert(index_range(a as nat, z as nat).take(z + 1 - a) =~= index_range(
                            a as nat,
                            z as nat,
                        ));
                    } else {
                        assert(out@ =~= start + index_range(a as nat, z as nat));
                    }
                    Ok(())
                },
            }
        },
        None => match parse_usize_chars(&t) {
            None => Err(SelectionError::InvalidBlockIndex),
            Some(n) => {
                out.push(n);
                Ok(())
            },
        },
    }
}

/// The blocks a selection names: `1` (one block), `2..5` (a range, both
/// ends included), or comma-separated parts such as `1,3..5,7`, which
/// expand to the listed indices in order.
pub fn parse_selection(selection: &str) -> (r: Result<BlockSelector, SelectionError>)
    ensures
        match r {
            Ok(b) => self::selection(selection@) == Ok::<SelectionView, SelectionError>(
                selector_view(b),
            ),
            Err(e) => self::selection(selection@) == Err::<SelectionView, SelectionError>(e),
        },
{
    let chars = chars_of(selection);
    let parts = split_chars(&chars, ',');
    let ghost ps = text::split(selection@, ',');
    assert(ps.len() == parts@.len());
    if parts.len() == 1 {
        assert(ps[0] == parts@[0]@);
        let t = trim_chars(&parts[0]);
        let dots = vec!['.', '.'];
        assert(dots@ =~= seq!['.', '.']);
        match find_from(&t, &dots, 0) {
            Some(p) => {
                proof {
                    text::lemma_find_first(t@, dots@, 0);
                }
                return match parse_range_bounds(&t, p) {
                    Err(e) => Err(e),
                    Ok((a, z)) => Ok(BlockSelector::Range(a, z)),
                };
            },
            None => {
                return match parse_usize_chars(&t) {
                    None => Err(SelectionError::InvalidBlockIndex),
                    Some(n) => Ok(BlockSelector::Single(n)),
                };
            },
        }
    }
    let mut indices: Vec<usize> = Vec::new();
    let mut k: usize = 0;
    while k < parts.len()
        invariant
            k <= parts.len(),
            ps == text::split(selection@, ','),
            text::views(parts@) == ps,
            collect_indices(ps.take(k as int)) == Ok::<Seq<usize>, SelectionError>(indices@),
        decreases parts.len() - k,
    {
        assert(ps.take(k + 1).drop_last() =~= ps.take(k as int));
        assert(ps.take(k + 1).last() == parts@[k as int]@);
        match push_part_indices(&parts[k], &mut indices) {
            Err(e) => {
                proof {
                    lemma_collect_error(ps, (k + 1) as int);
                }
                return Err(e);
            },
            Ok(()) => {},
        }
        k += 1;
    }
    assert(ps.take(parts.len() as int) =~= ps);
    if indices.len() == 1 {
        Ok(BlockSelector::Single(indices[0]))
    } else {
        Ok(BlockSelector::Multiple(indices))
    }
}

/// Once a prefix of the parts is in error, so are all the parts, with the
/// same error.
proof fn lemma_collect_error(ps: Seq<Seq<char>>, k: int)
    requires
        0 <= k <= ps.len(),
        collect_indices(ps.take(k)) is Err,
    ensures
        collect_indices(ps) == collect_indices(ps.take(k)),
    decreases ps.len() - k,
{
    if k < ps.len() {
        assert(ps.take(k + 1).drop_last() =~= ps.take(k));
        lemma_collect_error(ps, k + 1);
    } else {
        assert(ps.take(k) =~= ps);
    }
}

/// The separator comment for a language, followed by a newline.
pub open spec fn separator_for(language: Seq<char>) -> Seq<char> {
    if language == "python"@ || language == "ruby"@ || language == "yaml"@ || language == "bash"@
        || language == "sh"@ || language == "zsh"@ {
        "# ---\n"@
    } else if language == "html"@ || language == "xml"@ {
        "<!-- --- -->\n"@
    } else {
        "// ---\n"@
    }
}

/// The separator comment written between concatenated code blocks: `# ---`
/// for script languages, `<!-- --- -->` for markup, `// ---` otherwise.
pub fn create_separator(language: &str) -> (r: String)
    ensures
        r@ == separator_for(language@),
{
    let l = String::from_str(language);
    if l == String::from_str("python") || l == String::from_str("ruby") || l == String::from_str(
        "yaml",
    ) || l == String::from_str("bash") || l == String::from_str("sh") || l == String::from_str(
        "zsh",
    ) {
        String::from_str("# ---\n")
    } else if l == String::from_str("html") || l == String::from_str("xml") {
        String::from_str("<!-- --- -->\n")
    } else {
        String::from_str("// ---\n")
    }
}

/// The first `max_lines` lines of `content` joined with newlines, followed
/// by a line `...` when the content has more lines.
pub open spec fn preview(content: Seq<char>, max_lines: nat) -> Seq<char> {
    let ls = text::lines(content);
    let shown = crate::plan::join(ls.take(if ls.len() < max_lines {
        ls.len() as int
    } else {
        max_lines as int
    }), '\n');
    if ls.len() > max_lines {
        shown + "\n..."@
    } else {
        shown
    }
}

/// A preview of `content`: its first `max_lines` lines, and `...` on a line
/// of its own when some were left out.
pub fn preview_content(content: &str, max_lines: usize) -> (r: String)
    ensures
        r@ == preview(content@, max_lines as nat),
{
    let chars = chars_of(content);
    let ls = lines_of(&chars);
    let ghost all = text::lines(content@);
    let n = if ls.len() < max_lines {
        ls.len()
    } else {
        max_lines
    };
    let mut shown: Vec<Vec<char>> = Vec::new();
    let mut k: usize = 0;
    while k < n
        invariant
            k <= n <= ls.len(),
            text::views(ls@) == all,
            text::views(shown@) == all.take(k as int),
        decreases n - k,
    {
        let ghost prev = shown@;
        assert(all[k as int] == ls@[k as int]@);
        let line = slice(&ls[k], 0, ls[k].len());
        assert(line@ =~= ls@[k as int]@);
        shown.push(line);
        assert(text::views(shown@) =~= text::views(prev).push(ls@[k as int]@));
        assert(text::views(shown@) =~= all.take(k + 1));
        k += 1;
    }
    let mut out = crate::plan::join_chars(&shown, '\n');
    if ls.len() > max_lines {
        push_str(&mut out, "\n...");
    }
    string_from_chars(&out)
}

/// A code block extracted from an agent response.
#[derive(Debug, Clone, PartialEq, Eq)]
pub struct CodeBlock {
    /// The block's language, when it was tagged with one.
    pub language: Option<String>,
    /// The block's text.
    pub content: String,
}

/// The language a block is treated as: its tag, or `text`.
pub open spec fn block_language(b: CodeBlock) -> Seq<char> {
    match b.language {
        Some(l) => l@,
        None => "text"@,
    }
}

/// The blocks `bs` concatenated: before every block but the first, the
/// separator for that block's language and an empty line.
pub open spec fn concatenation(bs: Seq<CodeBlock>) -> Seq<char>
    decreases bs.len(),
{
    if bs.len() == 0 {
        Seq::empty()
    } else if bs.len() == 1 {
        bs[0].content@
    } else {
        concatenation(bs.drop_last()) + separator_for(block_language(bs.last())) + "\n"@
            + bs.last().content@
    }
}

/// The text copied to the clipboard for the selected blocks.
pub fn concatenate_blocks(blocks: &Vec<CodeBlock>) -> (r: String)
    ensures
        r@ == concatenation(blocks@),
{
    let mut out: Vec<char> = Vec::new();
    let mut k: usize = 0;
    while k < blocks.len()
        invariant
            k <= blocks.len(),
            out@ == concatenation(blocks@.take(k as int)),
        decreases blocks.len() - k,
    {
        assert(blocks@.take(k + 1).drop_last() =~= blocks@.take(k as int));
        if k > 0 {
            let sep = match &blocks[k].language {
                Some(l) => create_separator(l.as_str()),
                None => create_separator("text"),
            };
            push_str(&mut out, sep.as_str());
            out.push('\n');
        }
        push_str(&mut out, blocks[k].content.as_str());
        proof {
            reveal_strlit("\n");
            let t = blocks@.take(k + 1);
            assert(t.last() == blocks@[k as int]);
        }
        k += 1;
        assert(out@ =~= concatenation(blocks@.take(k as int)));
    }
    assert(blocks@.take(blocks.len() as int) =~= blocks@);
    string_from_chars(&out)
}

/// The text appended to a file for a block: the separator for its language
/// and an empty line when the file already exists, then the block and a
/// newline.
pub fn appended_text(file_exists: bool, block: &CodeBlock) -> (r: String)
    ensures
        r@ == (if file_exists {
            separator_for(block_language(*block)) + "\n"@
        } else {
            Seq::empty()
        }) + block.content@ + "\n"@,
{
    let mut out: Vec<char> = Vec::new();
    if file_exists {
        let sep = match &block.language {
            Some(l) => create_separator(l.as_str()),
            None => create_separator("text"),
        };
        push_str(&mut out, sep.as_str());
        out.push('\n');
    }
    push_str(&mut out, block.content.as_str());
    out.push('\n');
    assert(out@ =~= (if file_exists {
        separator_for(block_language(*block)) + "\n"@
    } else {
        Seq::empty()
    }) + block.content@ + "\n"@) by {
        reveal_strlit("\n");
    }
    string_from_chars(&out)
}

/// The session modified last, among sessions with their modification times.
pub fn most_recent_session(sessions: &Vec<(String, i128)>) -> (r: Option<String>)
    ensures
        sessions@.len() == 0 ==> r is None,
        sessions@.len() > 0 ==> exists|i: int|
            0 <= i < sessions@.len() && r == Some(sessions@[i].0) && (forall|j: int|
                0 <= j < sessions@.len() ==> sessions@[j].1 <= sessions@[i].1) && (forall|j: int|
                0 <= j < i ==> sessions@[j].1 < sessions@[i].1),
{
    if sessions.len() == 0 {
        return None;
    }
    let mut best: usize = 0;
    let mut k: usize = 1;
    while k < sessions.len()
        invariant
            0 < k <= sessions.len(),
            best < k,
            forall|j: int| 0 <= j < k ==> sessions@[j].1 <= sessions@[best as int].1,
            forall|j: int| 0 <= j < best ==> sessions@[j].1 < sessions@[best as int].1,
        decreases sessions.len() - k,
    {
        if sessions[k].1 > sessions[best].1 {
            best = k;
        }
        k += 1;
    }
    Some(sessions[best].0.clone())
}

/// A block number, written in decimal as `code list` shows it, selects
/// that block alone.
pub proof fn lemma_block_number_selects(n: nat)
    requires
        n <= usize::MAX,
    ensures
        selection(text::decimal(n)) == Ok::<SelectionView, SelectionError>(SelectionView::Single(n)),
{
    let d = text::decimal(n);
    text::lemma_decimal_reads_back(n);
    assert forall|k: int| 0 <= k < d.len() implies !text::is_white(#[trigger] d[k]) && d[k] != ','
        && d[k] != '.' by {
        assert(text::is_digit(d[k]));
    }
    text::lemma_trim_plain(d);
    text::lemma_split_single(d, ',');
    text::lemma_find_first(d, seq!['.', '.'], 0);
    if let Some(i) = text::find_first(d, seq!['.', '.'], 0) {
        assert(d.subrange(i, i + 2)[0] == '.');
        assert(d[i] == '.');
    }
    assert(text::is_digit(d[0]));
    assert(text::unsigned_digits(d) == d);
}

impl SelectionError {
    /// The message shown for the error.
    pub fn message(&self) -> (r: String)
        ensures
            r@ == match self {
                SelectionError::InvalidRangeStart => "Invalid range start"@,
                SelectionError::InvalidRangeEnd => "Invalid range end"@,
                SelectionError::InvalidBlockIndex => "Invalid block index"@,
            },
    {
        match self {
            SelectionError::InvalidRangeStart => String::from_str("Invalid range start"),
            SelectionError::InvalidRangeEnd => String::from_str("Invalid range end"),
            SelectionError::InvalidBlockIndex => String::from_str("Invalid block index"),
        }
    }
}


/// A part of a selection is read once trimmed: surrounding whitespace does
/// not change the blocks it names.
pub proof fn lemma_part_trimmed(part: Seq<char>)
    ensures
        part_indices(part) == part_indices(text::trim(part)),
{
    text::lemma_trim_idempotent(part);
}

/// The parts of a selection name the same blocks whether or not each is
/// surrounded by whitespace (`1, 3, 5` names what `1,3,5` names).
pub proof fn lemma_parts_trimmed(parts: Seq<Seq<char>>)
    ensures
        collect_indices(parts) == collect_indices(parts.map_values(|p: Seq<char>| text::trim(p))),
    decreases parts.len(),
{
    let tp = parts.map_values(|p: Seq<char>| text::trim(p));
    if parts.len() > 0 {
        lemma_parts_trimmed(parts.drop_last());
        assert(tp.drop_last() =~= parts.drop_last().map_values(|p: Seq<char>| text::trim(p)));
        assert(tp.last() == text::trim(parts.last()));
        lemma_part_trimmed(parts.last());
    }
}

} // verus!
