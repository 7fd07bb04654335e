//! Summaries of agent telemetry: how often each tool ran, and how often
//! its use was approved or denied.
use vstd::prelude::*;

verus! {

/// What a telemetry record says of a tool: the tool used, if any, and
/// whether its use was approved (`None` when no approval was asked).
#[derive(Debug, Clone, PartialEq, Eq)]
pub struct ToolRecord {
    /// The tool the record is about.
    pub tool_name: Option<String>,
    /// Whether the tool's use was approved.
    pub tool_approved: Option<bool>,
}

/// One line of the tool usage summary.
#[derive(Debug, Clone, PartialEq, Eq)]
pub struct ToolUsage {
    /// The tool.
    pub tool: String,
    /// How many records name it.
    pub executions: u64,
    /// How many of those were approved.
    pub approved: u64,
    /// How many of those were denied.
    pub denied: u64,
}

/// Whether record `r` is about tool `name`.
pub open spec fn uses(r: ToolRecord, name: Seq<char>) -> bool {
    r.tool_name matches Some(n) && n@ == name
}

/// How many of the records are about tool `name`.
pub open spec fn executions(rs: Seq<ToolRecord>, name: Seq<char>) -> nat
    decreases rs.len(),
{
    if rs.len() == 0 {
        0
    } else {
        executions(rs.drop_last(), name) + if uses(rs.last(), name) {
            1nat
        } else {
            0nat
        }
    }
}

/// How many of the records about tool `name` have the approval `verdict`.
pub open spec fn verdicts(rs: Seq<ToolRecord>, name: Seq<char>, verdict: bool) -> nat
    decreases rs.len(),
{
    if rs.len() == 0 {
        0
    } else {
        verdicts(rs.drop_last(), name, verdict) + if uses(rs.last(), name) && rs.last().tool_approved
            == Some(verdict) {
            1nat
        } else {
            0nat
        }
    }
}

/// Whether `u` is the summary line of tool `u.tool` over the records.
pub open spec fn summarizes(rs: Seq<ToolRecord>, u: ToolUsage) -> bool {
    &&& executions(rs, u.tool@) > 0
    &&& u.executions == executions(rs, u.tool@)
    &&& u.approved == verdicts(rs, u.tool@, true)
    &&& u.denied == verdicts(rs, u.tool@, false)
}

/// Whether the lines are a tool usage summary of the records, in any order:
/// one line for each tool the records name, and no other.
pub open spec fn usage_lines(rs: Seq<ToolRecord>, us: Seq<ToolUsage>) -> bool {
    &&& forall|j: int| 0 <= j < us.len() ==> summarizes(rs, #[trigger] us[j])
    &&& distinct_names(us)
    &&& forall|name: Seq<char>| #[trigger] executions(rs, name) > 0 ==> exists|j: int|
        0 <= j < us.len() && (#[trigger] us[j]).tool@ == name
}

/// A record about another tool changes no count of `name`.
proof fn lemma_counts_step(rs: Seq<ToolRecord>, k: int, name: Seq<char>)
    requires
        0 <= k < rs.len(),
    ensures
        rs.take(k + 1).drop_last() == rs.take(k),
        executions(rs.take(k + 1), name) == executions(rs.take(k), name) + if uses(rs[k], name) {
            1nat
        } else {
            0nat
        },
        verdicts(rs.take(k + 1), name, true) == verdicts(rs.take(k), name, true) + if uses(rs[k], name)
            && rs[k].tool_approved == Some(true) {
            1nat
        } else {
            0nat
        },
        verdicts(rs.take(k + 1), name, false) == verdicts(rs.take(k), name, false) + if uses(
            rs[k],
            name,
        ) && rs[k].tool_approved == Some(false) {
            1nat
        } else {
            0nat
        },
{
    assert(rs.take(k + 1).drop_last() =~= rs.take(k));
}

/// How many records name a tool.
pub open spec fn named_records(rs: Seq<ToolRecord>) -> nat
    decreases rs.len(),
{
    if rs.len() == 0 {
        0
    } else {
        named_records(rs.drop_last()) + if rs.last().tool_name is Some {
            1nat
        } else {
            0nat
        }
    }
}

/// The executions of all summary lines together.
pub open spec fn total_executions(us: Seq<ToolUsage>) -> nat
    decreases us.len(),
{
    if us.len() == 0 {
        0
    } else {
        total_executions(us.drop_last()) + us.last().executions as nat
    }
}

/// Replacing a line changes the total by the difference of executions.
proof fn lemma_total_update(us: Seq<ToolUsage>, j: int, u: ToolUsage)
    requires
        0 <= j < us.len(),
    ensures
        total_executions(us.update(j, u)) + us[j].executions == total_executions(us) + u.executions,
    decreases us.len(),
{
    if j < us.len() - 1 {
        assert(us.update(j, u).drop_last() =~= us.drop_last().update(j, u));
        lemma_total_update(us.drop_last(), j, u);
    } else {
        assert(us.update(j, u).drop_last() =~= us.drop_last());
    }
}

/// Inserting a line adds its executions to the total.
proof fn lemma_total_insert(us: Seq<ToolUsage>, p: int, u: ToolUsage)
    requires
        0 <= p <= us.len(),
    ensures
        total_executions(us.insert(p, u)) == total_executions(us) + u.executions,
    decreases us.len(),
{
    if p == us.len() {
        assert(us.insert(p, u).drop_last() =~= us);
    } else {
        assert(us.insert(p, u).drop_last() =~= us.drop_last().insert(p, u));
        lemma_total_insert(us.drop_last(), p, u);
    }
}

/// No more uses of a tool were approved, or denied, than there were uses.
proof fn lemma_verdicts_bounded(rs: Seq<ToolRecord>, name: Seq<char>, verdict: bool)
    ensures
        verdicts(rs, name, verdict) <= executions(rs, name),
    decreases rs.len(),
{
    if rs.len() > 0 {
        lemma_verdicts_bounded(rs.drop_last(), name, verdict);
    }
}

/// The per-tool counts of the records, one line per tool, in the order the
/// tools first appear.
fn count_tools(records: &Vec<ToolRecord>) -> (r: Vec<ToolUsage>)
    ensures
        usage_lines(records@, r@),
        total_executions(r@) == named_records(records@),
{
    let mut us: Vec<ToolUsage> = Vec::new();
    let mut k: usize = 0;
    while k < records.len()
        invariant
            k <= records.len(),
            usage_lines(records@.take(k as int), us@),
            total_executions(us@) == named_records(records@.take(k as int)),
            forall|j: int|
                0 <= j < us.len() ==> (#[trigger] us[j]).executions <= k && us[j].approved
                    <= us[j].executions && us[j].denied <= us[j].executions,
        decreases records.len() - k,
    {
        let ghost rs = records@;
        let ghost before = us@;
        proof {
            assert(rs.take(k + 1).drop_last() =~= rs.take(k as int));
            assert(named_records(rs.take(k + 1)) == named_records(rs.take(k as int)) + if rs[k as int].tool_name is Some {
                1nat
            } else {
                0nat
            });
            assert forall|name: Seq<char>| true implies #[trigger] executions(rs.take(k + 1), name)
                == executions(rs.take(k as int), name) + (if uses(rs[k as int], name) {
                1nat
            } else {
                0nat
            }) by {
                lemma_counts_step(rs, k as int, name);
            }
            assert forall|name: Seq<char>, v: bool| true implies #[trigger] verdicts(
                rs.take(k + 1),
                name,
                v,
            ) == verdicts(rs.take(k as int), name, v) + (if uses(rs[k as int], name)
                && rs[k as int].tool_approved == Some(v) {
                1nat
            } else {
                0nat
            }) by {
                lemma_counts_step(rs, k as int, name);
            }
        }
        match &records[k].tool_name {
            None => {
                proof {
                    let next = rs.take(k + 1);
                    assert forall|name: Seq<char>| !uses(rs[k as int], name) by {}
                    assert forall|j: int| 0 <= j < us.len() implies summarizes(next, #[trigger] us@[j]) by {
                        assert(executions(next, us@[j].tool@) == executions(
                            rs.take(k as int),
                            us@[j].tool@,
                        ));
                        assert(verdicts(next, us@[j].tool@, true) == verdicts(
                            rs.take(k as int),
                            us@[j].tool@,
                            true,
                        ));
                        assert(verdicts(next, us@[j].tool@, false) == verdicts(
                            rs.take(k as int),
                            us@[j].tool@,
                            false,
                        ));
                    }
                    assert forall|name: Seq<char>| #[trigger] executions(next, name) > 0 implies exists|j: int|
                        0 <= j < us.len() && (#[trigger] us@[j]).tool@ == name by {
                        assert(executions(rs.take(k as int), name) > 0);
                    }
                }
            },
            Some(name) => {
                let approved: u64 = match records[k].tool_approved {
                    Some(true) => 1,
                    _ => 0,
                };
                let denied: u64 = match records[k].tool_approved {
                    Some(false) => 1,
                    _ => 0,
                };
                let mut j: usize = 0;
                let mut found = false;
                while j < us.len() && !found
                    invariant
                        j <= us.len(),
                        us@ == before,
                        found ==> j < us.len() && us@[j as int].tool@ == name@,
                        !found ==> forall|i: int| 0 <= i < j ==> (#[trigger] us@[i]).tool@ != name@,
                    decreases us.len() - j + (if found {
                        0int
                    } else {
                        1int
                    }),
                {
                    if us[j].tool == *name {
                        found = true;
                    } else {
                        j += 1;
                    }
                }
                if found {
                    let u = ToolUsage {
                        tool: us[j].tool.clone(),
                        executions: us[j].executions + 1,
                        approved: us[j].approved + approved,
                        denied: us[j].denied + denied,
                    };
                    us.set(j, u);
                    proof {
                        lemma_total_update(before, j as int, u);
                        let next = rs.take(k + 1);
                        let prev = rs.take(k as int);
                        assert(us@ == before.update(j as int, u));
                        assert forall|i: int| 0 <= i < us.len() implies summarizes(next, #[trigger] us@[i]) by {
                            if i != j {
                                assert(before[i].tool@ != before[j as int].tool@);
                                assert(!uses(rs[k as int], before[i].tool@));
                                assert(executions(next, before[i].tool@) == executions(prev, before[i].tool@));
                                assert(verdicts(next, before[i].tool@, true) == verdicts(prev, before[i].tool@, true));
                                assert(verdicts(next, before[i].tool@, false) == verdicts(prev, before[i].tool@, false));
                            } else {
                                assert(uses(rs[k as int], name@));
                                assert(executions(next, name@) == executions(prev, name@) + 1);
                                assert(verdicts(next, name@, true) == verdicts(prev, name@, true) + approved);
                                assert(verdicts(next, name@, false) == verdicts(prev, name@, false) + denied);
                            }
                        }
                        assert forall|a: int, b: int| 0 <= a < b < us.len() implies (#[trigger] us@[a]).tool@
                            != (#[trigger] us@[b]).tool@ by {
                            assert(before[a].tool@ != before[b].tool@);
                        }
                        assert forall|other: Seq<char>| #[trigger] executions(next, other) > 0 implies exists|i: int|
                            0 <= i < us.len() && (#[trigger] us@[i]).tool@ == other by {
                            if other == name@ {
                                assert(us@[j as int].tool@ == other);
                            } else {
                                assert(!uses(rs[k as int], other));
                                assert(executions(prev, other) > 0);
                                let i = choose|i: int| 0 <= i < before.len() && (#[trigger] before[i]).tool@ == other;
                                assert(us@[i].tool@ == other);
                            }
                        }
                    }
                } else {
                    let u = ToolUsage { tool: name.clone(), executions: 1, approved, denied };
                    us.push(u);
                    proof {
                        assert(before.push(u).drop_last() =~= before);
                        let next = rs.take(k + 1);
                        let prev = rs.take(k as int);
                        assert(us@ == before.push(u));
                        if executions(prev, name@) > 0 {
                            let i = choose|i: int| 0 <= i < before.len() && (#[trigger] before[i]).tool@ == name@;
                            assert(false);
                        }
                        lemma_verdicts_bounded(prev, name@, true);
                        lemma_verdicts_bounded(prev, name@, false);
                        assert forall|i: int| 0 <= i < us.len() implies summarizes(next, #[trigger] us@[i]) by {
                            if i < before.len() {
                                assert(before[i].tool@ != name@);
                                assert(!uses(rs[k as int], before[i].tool@));
                                assert(executions(next, before[i].tool@) == executions(prev, before[i].tool@));
                                assert(verdicts(next, before[i].tool@, true) == verdicts(prev, before[i].tool@, true));
                                assert(verdicts(next, before[i].tool@, false) == verdicts(prev, before[i].tool@, false));
                            } else {
                                assert(uses(rs[k as int], name@));
                                assert(executions(next, name@) == executions(prev, name@) + 1);
                                assert(verdicts(next, name@, true) == verdicts(prev, name@, true) + approved);
                                assert(verdicts(next, name@, false) == verdicts(prev, name@, false) + denied);
                            }
                        }
                        assert forall|a: int, b: int| 0 <= a < b < us.len() implies (#[trigger] us@[a]).tool@
                            != (#[trigger] us@[b]).tool@ by {
                            if b < before.len() {
                                assert(before[a].tool@ != before[b].tool@);
                            } else {
                                assert(before[a].tool@ != name@);
                            }
                        }
                        assert forall|other: Seq<char>| #[trigger] executions(next, other) > 0 implies exists|i: int|
                            0 <= i < us.len() && (#[trigger] us@[i]).tool@ == other by {
                            if other == name@ {
                                assert(us@[before.len() as int].tool@ == other);
                            } else {
                                assert(!uses(rs[k as int], other));
                                assert(executions(prev, other) > 0);
                                let i = choose|i: int| 0 <= i < before.len() && (#[trigger] before[i]).tool@ == other;
                                assert(us@[i].tool@ == other);
                            }
                        }
                    }
                }
            },
        }
        k += 1;
    }
    assert(records@.take(records.len() as int) =~= records@);
    us
}

/// Whether the lines come in order of executions, most first.
pub open spec fn by_executions(us: Seq<ToolUsage>) -> bool {
    forall|i: int, j: int| 0 <= i < j < us.len() ==> (#[trigger] us[i]).executions >= (#[trigger] us[j]).executions
}

/// A copy of a summary line.
fn copy_usage(u: &ToolUsage) -> (r: ToolUsage)
    ensures
        r == *u,
{
    ToolUsage { tool: u.tool.clone(), executions: u.executions, approved: u.approved, denied: u.denied }
}

/// Whether every line of `out` is one of the first `k` lines of `us`.
pub open spec fn drawn_from(out: Seq<ToolUsage>, us: Seq<ToolUsage>, k: int) -> bool {
    forall|j: int| 0 <= j < out.len() ==> exists|i: int| 0 <= i < k && #[trigger] out[j] == us[i]
}

/// Whether each of the first `k` lines of `us` is a line of `out`.
pub open spec fn covers(out: Seq<ToolUsage>, us: Seq<ToolUsage>, k: int) -> bool {
    forall|i: int| 0 <= i < k ==> exists|j: int| 0 <= j < out.len() && out[j] == #[trigger] us[i]
}

/// Whether no tool has two lines.
pub open spec fn distinct_names(us: Seq<ToolUsage>) -> bool {
    forall|a: int, b: int| 0 <= a < b < us.len() ==> (#[trigger] us[a]).tool@ != (#[trigger] us[b]).tool@
}

/// Inserts `u` after the lines executed at least as often, and before the
/// others; returns where.
fn insert_by_executions(out: &mut Vec<ToolUsage>, u: ToolUsage) -> (p: usize)
    requires
        by_executions(old(out)@),
    ensures
        p <= old(out)@.len(),
        final(out)@ == old(out)@.insert(p as int, u),
        by_executions(final(out)@),
{
    let mut p: usize = 0;
    while p < out.len() && out[p].executions >= u.executions
        invariant
            p <= out.len(),
            forall|i: int| 0 <= i < p ==> (#[trigger] out@[i]).executions >= u.executions,
        decreases out.len() - p,
    {
        p += 1;
    }
    let ghost before = out@;
    let ghost ue = u.executions;
    out.insert(p, u);
    assert forall|a: int, b: int| 0 <= a < b < out.len() implies (#[trigger] out@[a]).executions
        >= (#[trigger] out@[b]).executions by {
        if b < p {
            assert(before[a].executions >= before[b].executions);
        } else if b == p {
            assert(before[a].executions >= ue);
        } else if a < p {
            assert(before[a].executions >= before[b - 1].executions);
        } else if a == p {
            assert(before[p as int].executions < ue);
            if b - 1 > p {
                assert(before[p as int].executions >= before[b - 1].executions);
            }
        } else {
            assert(before[a - 1].executions >= before[b - 1].executions);
        }
    }
    p
}

/// Inserting the next line of `us` keeps the lines drawn from `us`.
proof fn lemma_insert_drawn(before: Seq<ToolUsage>, us: Seq<ToolUsage>, k: int, p: int)
    requires
        0 <= k < us.len(),
        0 <= p <= before.len(),
        drawn_from(before, us, k),
    ensures
        drawn_from(before.insert(p, us[k]), us, k + 1),
{
    let out = before.insert(p, us[k]);
    assert forall|j: int| 0 <= j < out.len() implies exists|i: int| 0 <= i < k + 1 && #[trigger] out[j]
        == us[i] by {
        if j < p {
            assert(out[j] == before[j]);
        } else if j == p {
            assert(out[j] == us[k]);
        } else {
            assert(out[j] == before[j - 1]);
        }
    }
}

/// Inserting the next line of `us` keeps every line of `us` so far.
proof fn lemma_insert_covers(before: Seq<ToolUsage>, us: Seq<ToolUsage>, k: int, p: int)
    requires
        0 <= k < us.len(),
        0 <= p <= before.len(),
        covers(before, us, k),
    ensures
        covers(before.insert(p, us[k]), us, k + 1),
{
    let out = before.insert(p, us[k]);
    assert forall|i: int| 0 <= i < k + 1 implies exists|j: int| 0 <= j < out.len() && out[j]
        == #[trigger] us[i] by {
        if i == k {
            assert(out[p] == us[i]);
        } else {
            let j = choose|j: int| 0 <= j < before.len() && before[j] == us[i];
            if j < p {
                assert(out[j] == us[i]);
            } else {
                assert(out[j + 1] == us[i]);
            }
        }
    }
}

/// Inserting the next line of `us` among lines drawn from the earlier ones
/// keeps the tools distinct.
proof fn lemma_insert_distinct(before: Seq<ToolUsage>, us: Seq<ToolUsage>, k: int, p: int)
    requires
        0 <= k < us.len(),
        0 <= p <= before.len(),
        distinct_names(us),
        drawn_from(before, us, k),
        distinct_names(before),
    ensures
        distinct_names(before.insert(p, us[k])),
{
    let out = before.insert(p, us[k]);
    let u = us[k];
    assert forall|j: int| 0 <= j < before.len() implies (#[trigger] before[j]).tool@ != u.tool@ by {
        let i = choose|i: int| 0 <= i < k && before[j] == us[i];
        assert(us[i].tool@ != us[k].tool@);
    }
    assert forall|a: int, b: int| 0 <= a < b < out.len() implies (#[trigger] out[a]).tool@
        != (#[trigger] out[b]).tool@ by {
        if b < p {
            assert(before[a].tool@ != before[b].tool@);
        } else if b == p {
            assert(before[a].tool@ != u.tool@);
        } else if a < p {
            assert(before[a].tool@ != before[b - 1].tool@);
        } else if a == p {
            assert(before[b - 1].tool@ != u.tool@);
        } else {
            assert(before[a - 1].tool@ != before[b - 1].tool@);
        }
    }
}

/// Lines drawn from a summary, covering it and without a tool twice, are
/// a summary too.
proof fn lemma_same_lines(rs: Seq<ToolRecord>, us: Seq<ToolUsage>, out: Seq<ToolUsage>)
    requires
        usage_lines(rs, us),
        drawn_from(out, us, us.len() as int),
        covers(out, us, us.len() as int),
        distinct_names(out),
    ensures
        usage_lines(rs, out),
{
    assert forall|j: int| 0 <= j < out.len() implies summarizes(rs, #[trigger] out[j]) by {
        let i = choose|i: int| 0 <= i < us.len() && out[j] == us[i];
        assert(summarizes(rs, us[i]));
    }
    assert forall|name: Seq<char>| #[trigger] executions(rs, name) > 0 implies exists|j: int|
        0 <= j < out.len() && (#[trigger] out[j]).tool@ == name by {
        let i = choose|i: int| 0 <= i < us.len() && (#[trigger] us[i]).tool@ == name;
        let j = choose|j: int| 0 <= j < out.len() && out[j] == us[i];
        assert(out[j].tool@ == name);
    }
}

/// The lines reordered by executions, most first; the order among equal
/// executions is that of `us`.
#[verifier::spinoff_prover]
#[verifier::rlimit(30)]
fn order_by_executions(us: &Vec<ToolUsage>) -> (out: Vec<ToolUsage>)
    requires
        distinct_names(us@),
    ensures
        by_executions(out@),
        drawn_from(out@, us@, us@.len() as int),
        covers(out@, us@, us@.len() as int),
        distinct_names(out@),
        total_executions(out@) == total_executions(us@),
{
    let mut out: Vec<ToolUsage> = Vec::new();
    let mut k: usize = 0;
    while k < us.len()
        invariant
            k <= us.len(),
            distinct_names(us@),
            by_executions(out@),
            drawn_from(out@, us@, k as int),
            covers(out@, us@, k as int),
            distinct_names(out@),
            total_executions(out@) == total_executions(us@.take(k as int)),
        decreases us.len() - k,
    {
        let u = copy_usage(&us[k]);
        let ghost before = out@;
        let p = insert_by_executions(&mut out, u);
        proof {
            lemma_insert_drawn(before, us@, k as int, p as int);
            lemma_insert_covers(before, us@, k as int, p as int);
            lemma_insert_distinct(before, us@, k as int, p as int);
            lemma_total_insert(before, p as int, u);
            assert(us@.take(k + 1).drop_last() =~= us@.take(k as int));
        }
        k += 1;
    }
    assert(us@.take(us.len() as int) =~= us@);
    out
}

/// The tool usage summary of telemetry records: one line per tool named by
/// the records, with how often it ran and how often its use was approved
/// and denied, most executed first. The executions of all lines add up to
/// the number of records that name a tool.
pub fn tool_usage_summary(records: &Vec<ToolRecord>) -> (r: Vec<ToolUsage>)
    ensures
        usage_lines(records@, r@),
        by_executions(r@),
        total_executions(r@) == named_records(records@),
{
    let us = count_tools(records);
    let out = order_by_executions(&us);
    proof {
        lemma_same_lines(records@, us@, out@);
    }
    out
}

/// How a tool call's approval is shown: its approval type (or `approved`)
/// when approved, `denied` when denied, `-` when none was asked.
pub open spec fn approval_text(approved: Option<bool>, approval_type: Option<Seq<char>>) -> Seq<char> {
    match approved {
        Some(true) => match approval_type {
            Some(t) => t,
            None => "approved"@,
        },
        Some(false) => "denied"@,
        None => "-"@,
    }
}

/// How a telemetry record's tool approval is shown.
pub fn approval_label(approved: Option<bool>, approval_type: Option<&str>) -> (r: String)
    ensures
        r@ == approval_text(
            approved,
            match approval_type {
                Some(t) => Some(t@),
                None => None,
            },
        ),
{
    match approved {
        Some(true) => match approval_type {
            Some(t) => String::from_str(t),
            None => String::from_str("approved"),
        },
        Some(false) => String::from_str("denied"),
        None => String::from_str("-"),
    }
}

} // verus!
