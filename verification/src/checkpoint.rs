//! Figures shown in checkpoint listings: durations in hours, minutes and
//! seconds, and numbers with thousands separators.
use vstd::prelude::*;
use crate::text;
use crate::text::{chars_of, push_all, push_decimal, push_str, slice, string_from_chars};

verus! {

/// A duration of `secs` seconds as `Ns`, `Nm Ns` or `Nh Nm Ns`.
pub open spec fn duration_text(secs: nat) -> Seq<char> {
    if secs < 60 {
        text::decimal(secs) + "s"@
    } else if secs < 3600 {
        text::decimal(secs / 60) + "m "@ + text::decimal(secs % 60) + "s"@
    } else {
        text::decimal(secs / 3600) + "h "@ + text::decimal((secs % 3600) / 60) + "m "@
            + text::decimal(secs % 60) + "s"@
    }
}

/// A duration in seconds in human-readable form: seconds under a minute,
/// minutes and seconds under an hour, hours, minutes and seconds beyond.
pub fn format_duration(secs: u64) -> (r: String)
    ensures
        r@ == duration_text(secs as nat),
{
    let mut out: Vec<char> = Vec::new();
    if secs < 60 {
        push_decimal(&mut out, secs);
        push_str(&mut out, "s");
    } else if secs < 3600 {
        push_decimal(&mut out, secs / 60);
        push_str(&mut out, "m ");
        push_decimal(&mut out, secs % 60);
        push_str(&mut out, "s");
    } else {
        push_decimal(&mut out, secs / 3600);
        push_str(&mut out, "h ");
        push_decimal(&mut out, (secs % 3600) / 60);
        push_str(&mut out, "m ");
        push_decimal(&mut out, secs % 60);
        push_str(&mut out, "s");
    }
    assert(out@ =~= duration_text(secs as nat));
    string_from_chars(&out)
}

/// The digits `ds` with a `,` before each group of three counted from the right.
pub open spec fn group_thousands(ds: Seq<char>) -> Seq<char>
    decreases ds.len(),
{
    if ds.len() <= 3 {
        ds
    } else {
        group_thousands(ds.take(ds.len() - 3)) + seq![','] + ds.skip(ds.len() - 3)
    }
}

/// Appends `group_thousands(ds[..len])` to `out`.
fn push_grouped(ds: &Vec<char>, len: usize, out: &mut Vec<char>)
    requires
        len <= ds.len(),
    ensures
        final(out)@ == old(out)@ + group_thousands(ds@.take(len as int)),
    decreases len,
{
    let ghost pre = ds@.take(len as int);
    if len <= 3 {
        let head = slice(ds, 0, len);
        assert(head@ =~= pre);
        push_all(out, &head);
    } else {
        assert(ds@.take(len - 3) =~= pre.take(pre.len() - 3));
        push_grouped(ds, len - 3, out);
        out.push(',');
        let tail = slice(ds, len - 3, len);
        assert(tail@ =~= pre.skip(pre.len() - 3));
        push_all(out, &tail);
        assert(final(out)@ =~= old(out)@ + group_thousands(pre));
    }
}

/// `s` without its commas.
pub open spec fn without_commas(s: Seq<char>) -> Seq<char>
    decreases s.len(),
{
    if s.len() == 0 {
        s
    } else {
        without_commas(s.drop_last()) + if s.last() == ',' {
            Seq::empty()
        } else {
            seq![s.last()]
        }
    }
}

/// Removing commas from a concatenation removes them from each part.
proof fn lemma_without_commas_add(a: Seq<char>, b: Seq<char>)
    ensures
        without_commas(a + b) == without_commas(a) + without_commas(b),
    decreases b.len(),
{
    if b.len() == 0 {
        assert(a + b =~= a);
        assert(without_commas(a) + without_commas(b) =~= without_commas(a));
    } else {
        assert((a + b).drop_last() =~= a + b.drop_last());
        lemma_without_commas_add(a, b.drop_last());
        assert(without_commas(a + b) =~= without_commas(a) + without_commas(b));
    }
}

/// A text without commas is left as it is.
proof fn lemma_without_commas_none(s: Seq<char>)
    requires
        forall|k: int| 0 <= k < s.len() ==> s[k] != ',',
    ensures
        without_commas(s) == s,
    decreases s.len(),
{
    if s.len() > 0 {
        lemma_without_commas_none(s.drop_last());
        assert(s.drop_last().push(s.last()) =~= s);
    }
}

/// The decimal representation of a number has no commas.
proof fn lemma_decimal_no_commas(n: nat)
    ensures
        forall|k: int| 0 <= k < text::decimal(n).len() ==> text::decimal(n)[k] != ',',
    decreases n,
{
    if n >= 10 {
        lemma_decimal_no_commas(n / 10);
        let d = text::decimal(n);
        let h = text::decimal(n / 10);
        assert forall|k: int| 0 <= k < d.len() implies d[k] != ',' by {
            if k < h.len() {
                assert(d[k] == h[k]);
            }
        }
    }
}

/// Grouping keeps the digits: without its commas, the grouped text is the
/// text itself.
proof fn lemma_group_keeps_digits(ds: Seq<char>)
    requires
        forall|k: int| 0 <= k < ds.len() ==> ds[k] != ',',
    ensures
        without_commas(group_thousands(ds)) == ds,
    decreases ds.len(),
{
    if ds.len() <= 3 {
        lemma_without_commas_none(ds);
    } else {
        let head = ds.take(ds.len() - 3);
        let tail = ds.skip(ds.len() - 3);
        lemma_group_keeps_digits(head);
        lemma_without_commas_add(group_thousands(head) + seq![','], tail);
        lemma_without_commas_add(group_thousands(head), seq![',']);
        lemma_without_commas_none(tail);
        assert(without_commas(seq![',']) =~= Seq::<char>::empty()) by {
            assert(seq![','].drop_last() =~= Seq::<char>::empty());
            assert(without_commas(Seq::<char>::empty()) =~= Seq::<char>::empty());
        }
        assert(head + tail =~= ds);
    }
}

/// A number with thousands separators, such as `1,234,567`; without its
/// commas it is the number's decimal representation.
pub fn format_number(n: u64) -> (r: String)
    ensures
        r@ == group_thousands(text::decimal(n as nat)),
        without_commas(r@) == text::decimal(n as nat),
{
    proof {
        lemma_decimal_no_commas(n as nat);
        lemma_group_keeps_digits(text::decimal(n as nat));
    }
    let mut ds: Vec<char> = Vec::new();
    push_decimal(&mut ds, n);
    assert(ds@ =~= text::decimal(n as nat));
    let mut out: Vec<char> = Vec::new();
    push_grouped(&ds, ds.len(), &mut out);
    assert(ds@.take(ds.len() as int) =~= ds@);
    assert(out@ =~= group_thousands(ds@));
    string_from_chars(&out)
}

} // verus!
