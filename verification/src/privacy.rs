//! Privacy checks: where a sensitive value occurs in a file, the report of
//! a file check, and what a user-supplied regular expression matches in a
//! sample text.
use vstd::prelude::*;
use crate::text;
use crate::text::{chars_of, contains_chars, lines_of};

verus! {

/// Whether `regex::Regex::new` accepts `pattern`.
pub uninterp spec fn regex_compiles(pattern: Seq<char>) -> bool;

/// The byte spans of the successive non-overlapping matches of `pattern`
/// in `text`, as `regex::Regex::find_iter` yields them.
pub uninterp spec fn regex_spans(pattern: Seq<char>, text: Seq<char>) -> Seq<(usize, usize)>;

/// Compiles `pattern` with `regex::Regex::new` and, when it compiles, lists
/// the start and end of each match in `text` with `Regex::find_iter`. Each
/// call's result is named; as the crate documents, each span starts no
/// later than it ends and ends within the text, and spans follow each other
/// without overlapping. The error text is the crate's message, which is not
/// stated.
#[verifier::external_body]
fn find_pattern_spans(pattern: &str, text: &str) -> (r: Result<Vec<(usize, usize)>, String>)
    ensures
        r is Ok <==> regex_compiles(pattern@),
        r matches Ok(v) ==> v@ == regex_spans(pattern@, text@),
        r matches Ok(v) ==> forall|i: int|
            0 <= i < v@.len() ==> #[trigger] v@[i].0 <= v@[i].1 <= text.len(),
        r matches Ok(v) ==> forall|i: int|
            0 <= i < v@.len() - 1 ==> (#[trigger] v@[i]).1 <= v@[i + 1].0,
{
    match regex::Regex::new(pattern) {
        Ok(re) => Ok(re.find_iter(text).map(|m| (m.start(), m.end())).collect()),
        Err(e) => Err(e.to_string()),
    }
}

/// A match and the text shown around it, as byte offsets into the sample.
#[derive(Debug, Clone, Copy, PartialEq, Eq)]
pub struct MatchContext {
    /// Where the shown text starts: up to 20 bytes before the match.
    pub context_start: usize,
    /// Where the match starts.
    pub match_start: usize,
    /// Where the match ends.
    pub match_end: usize,
    /// Where the shown text ends: up to 20 bytes after the match.
    pub context_end: usize,
}

/// What testing a pattern against a sample found.
#[derive(Debug, Clone, PartialEq, Eq)]
pub struct PatternReport {
    /// How many matches there are.
    pub total: usize,
    /// The first ten matches with their surroundings.
    pub shown: Vec<MatchContext>,
}

/// The match `span` in a text of `len` bytes with up to 20 bytes around it.
pub open spec fn context_of(span: (usize, usize), len: nat) -> MatchContext {
    MatchContext {
        context_start: if span.0 >= 20 {
            (span.0 - 20) as usize
        } else {
            0
        },
        match_start: span.0,
        match_end: span.1,
        context_end: if span.1 + 20 <= len {
            (span.1 + 20) as usize
        } else {
            len as usize
        },
    }
}

/// Tests a regular expression against a sample text: the number of
/// matches, and the first ten with 20 bytes of context on each side (less
/// at the ends of the text). `Err` carries the message of an invalid pattern.
pub fn test_pattern(pattern: &str, sample: &str) -> (r: Result<PatternReport, String>)
    ensures
        match regex_compiles(pattern@) {
            false => r is Err,
            true => r matches Ok(rep) && rep.total == regex_spans(pattern@, sample@).len()
                && rep.shown@.len() == (
            if regex_spans(pattern@, sample@).len() < 10 {
                regex_spans(pattern@, sample@).len()
            } else {
                10
            }) && forall|i: int|
                0 <= i < rep.shown@.len() ==> #[trigger] rep.shown@[i] == context_of(
                    regex_spans(pattern@, sample@)[i],
                    sample.len() as nat,
                ),
        },
{
    let spans = match find_pattern_spans(pattern, sample) {
        Err(msg) => return Err(msg),
        Ok(v) => v,
    };
    let len = sample.len();
    assert(forall|i: int| 0 <= i < spans@.len() ==> #[trigger] spans@[i].0 <= spans@[i].1 <= sample.len());
    assert(forall|i: int| 0 <= i < spans@.len() ==> #[trigger] spans@[i].0 <= spans@[i].1 <= len);
    let n = if spans.len() < 10 {
        spans.len()
    } else {
        10
    };
    let mut shown: Vec<MatchContext> = Vec::new();
    let mut k: usize = 0;
    while k < n
        invariant
            k <= n <= spans.len(),
            len == sample.len(),
            forall|i: int|
                0 <= i < spans@.len() ==> #[trigger] spans@[i].0 <= spans@[i].1 <= len,
            shown@.len() == k,
            forall|i: int|
                0 <= i < k ==> #[trigger] shown@[i] == context_of(spans@[i], len as nat),
        decreases n - k,
    {
        let (start, end) = spans[k];
        assert(spans@[k as int].1 <= len);
        let ctx = MatchContext {
            context_start: if start >= 20 {
                start - 20
            } else {
                0
            },
            match_start: start,
            match_end: end,
            context_end: if len >= 20 && end <= len - 20 {
                end + 20
            } else {
                len
            },
        };
        shown.push(ctx);
        k += 1;
    }
    Ok(PatternReport { total: spans.len(), shown })
}

/// The 1-based number of the first line among `ls` (numbered from `k + 1`)
/// that contains `value`; 0 when none does.
pub open spec fn line_containing(ls: Seq<Seq<char>>, value: Seq<char>, k: nat) -> nat
    decreases ls.len() - k,
{
    if k >= ls.len() {
        0
    } else if text::contains(ls[k as int], value) {
        k + 1
    } else {
        line_containing(ls, value, k + 1)
    }
}

/// The number of the first line of `content` that contains `value`,
/// counting from 1; 0 when no line does.
pub fn find_line_number(content: &str, value: &str) -> (r: usize)
    ensures
        r == line_containing(text::lines(content@), value@, 0),
        r <= text::lines(content@).len(),
        r > 0 ==> text::contains(text::lines(content@)[r - 1], value@),
        forall|j: int|
            0 <= j < (if r > 0 {
                r - 1
            } else {
                text::lines(content@).len() as int
            }) ==> !text::contains(#[trigger] text::lines(content@)[j], value@),
{
    let ls = lines_of(&chars_of(content));
    let v = chars_of(value);
    let ghost all = text::lines(content@);
    let mut k: usize = 0;
    while k < ls.len()
        invariant
            k <= ls.len(),
            all == text::lines(content@),
            text::views(ls@) == all,
            v@ == value@,
            line_containing(all, v@, 0) == line_containing(all, v@, k as nat),
            forall|j: int| 0 <= j < k ==> !text::contains(#[trigger] all[j], v@),
        decreases ls.len() - k,
    {
        assert(all[k as int] == ls@[k as int]@);
        if contains_chars(&ls[k], &v) {
            return k + 1;
        }
        k += 1;
    }
    0
}

/// What `privacy check` reports of one sensitive-data pattern.
#[derive(Debug, Clone, PartialEq, Eq)]
pub struct PatternFindings {
    /// The pattern's name.
    pub pattern_name: String,
    /// How many values it matched.
    pub occurrences: usize,
    /// The first two values, each with the first line that contains it
    /// (0 when none does).
    pub shown: Vec<(usize, String)>,
    /// How many values are summed up as "more": all but the first three,
    /// when there are more than three.
    pub more: Option<usize>,
}

/// The number of values shown of a pattern's matches.
pub open spec fn shown_count(n: nat) -> nat {
    if n < 2 {
        n
    } else {
        2
    }
}

/// Whether `f` reports the matches `values` of `pattern_name` in `content`.
pub open spec fn reports(content: Seq<char>, pattern_name: Seq<char>, values: Seq<String>, f: PatternFindings) -> bool {
    &&& f.pattern_name@ == pattern_name
    &&& f.occurrences == values.len()
    &&& f.shown@.len() == shown_count(values.len())
    &&& forall|i: int|
        0 <= i < f.shown@.len() ==> (#[trigger] f.shown@[i]).1@ == values[i]@ && f.shown@[i].0
            == line_containing(text::lines(content), values[i]@, 0)
    &&& f.more == if values.len() > 3 {
        Some((values.len() - 3) as usize)
    } else {
        None::<usize>
    }
}

/// The total number of matched values.
pub open spec fn total_matches(matches: Seq<(String, Vec<String>)>) -> nat
    decreases matches.len(),
{
    if matches.len() == 0 {
        0
    } else {
        total_matches(matches.drop_last()) + matches.last().1@.len()
    }
}

/// The report of `privacy check` on `content`, from the values each
/// sensitive-data pattern matched there: per pattern, its count, its first
/// two values with their line numbers, and how many beyond the third go
/// unshown; and the total number of values.
pub fn findings_report(content: &str, matches: &Vec<(String, Vec<String>)>) -> (r: (Vec<PatternFindings>, usize))
    requires
        total_matches(matches@) <= usize::MAX,
    ensures
        r.0@.len() == matches@.len(),
        forall|j: int|
            0 <= j < matches@.len() ==> reports(
                content@,
                matches@[j].0@,
                matches@[j].1@,
                #[trigger] r.0@[j],
            ),
        r.1 == total_matches(matches@),
{
    let mut out: Vec<PatternFindings> = Vec::new();
    let mut total: usize = 0;
    let mut j: usize = 0;
    while j < matches.len()
        invariant
            j <= matches.len(),
            total_matches(matches@) <= usize::MAX,
            out@.len() == j,
            total == total_matches(matches@.take(j as int)),
            forall|i: int|
                0 <= i < j ==> reports(content@, matches@[i].0@, matches@[i].1@, #[trigger] out@[i]),
        decreases matches.len() - j,
    {
        proof {
            lemma_total_prefix(matches@, j as int + 1);
            assert(matches@.take(j + 1).drop_last() =~= matches@.take(j as int));
        }
        let values = &matches[j].1;
        let n = values.len();
        let mut shown: Vec<(usize, String)> = Vec::new();
        let limit: usize = if n < 2 {
            n
        } else {
            2
        };
        let mut k: usize = 0;
        while k < limit
            invariant
                k <= limit,
                limit == shown_count(n as nat),
                n == values@.len(),
                shown@.len() == k,
                forall|i: int|
                    0 <= i < k ==> (#[trigger] shown@[i]).1@ == values@[i]@ && shown@[i].0
                        == line_containing(text::lines(content@), values@[i]@, 0),
            decreases limit - k,
        {
            let line = find_line_number(content, values[k].as_str());
            shown.push((line, values[k].clone()));
            k += 1;
        }
        let more = if n > 3 {
            Some(n - 3)
        } else {
            None
        };
        out.push(PatternFindings { pattern_name: matches[j].0.clone(), occurrences: n, shown, more });
        total = total + n;
        j += 1;
    }
    assert(matches@.take(matches.len() as int) =~= matches@);
    (out, total)
}

/// The matches of a prefix of the patterns are no more than all of them.
proof fn lemma_total_prefix(matches: Seq<(String, Vec<String>)>, k: int)
    requires
        0 <= k <= matches.len(),
    ensures
        total_matches(matches.take(k)) <= total_matches(matches),
    decreases matches.len() - k,
{
    if k < matches.len() {
        lemma_total_prefix(matches, k + 1);
        assert(matches.take(k + 1).drop_last() =~= matches.take(k));
    } else {
        assert(matches.take(k) =~= matches);
    }
}

} // verus!
