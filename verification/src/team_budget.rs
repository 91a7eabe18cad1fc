//! Team usage, derived on every read from the usage of the runs a Team
//! launched, and the admission checks that fence new work.
use vstd::prelude::*;

use crate::text::{copy_opt, copy_str, lemma_seq_lt_trichotomy, opt_view, seq_lt, str_eq, str_lt};

verus! {

/// One member's (or the coordinator's, with no member id) usage.
#[derive(Debug, Clone)]
pub struct ManagedTeamMemberUsage {
    pub member_id: Option<String>,
    pub tokens: u64,
    pub cost_micros: u64,
}

/// A Team's usage: totals and one entry per member, in member-id order
/// (the coordinator's own runs first).
#[derive(Debug, Clone)]
pub struct ManagedTeamUsage {
    pub tokens: u64,
    pub cost_micros: u64,
    pub members: Vec<ManagedTeamMemberUsage>,
}

/// The usage of one launched run, attributed to its member.
#[derive(Debug, Clone)]
pub struct TeamRunUsage {
    pub member_id: Option<String>,
    pub tokens: u64,
    pub cost_micros: u64,
}

/// The order of member ids: none first, then by string order.
pub open spec fn key_lt(a: Option<Seq<char>>, b: Option<Seq<char>>) -> bool {
    match (a, b) {
        (None, Some(_)) => true,
        (Some(x), Some(y)) => seq_lt(x, y),
        _ => false,
    }
}

pub proof fn lemma_key_trichotomy(a: Option<Seq<char>>, b: Option<Seq<char>>)
    ensures
        a == b ==> !key_lt(a, b),
        a != b ==> key_lt(a, b) || key_lt(b, a),
        !(key_lt(a, b) && key_lt(b, a)),
{
    match (a, b) {
        (Some(x), Some(y)) => lemma_seq_lt_trichotomy(x, y),
        _ => {},
    }
}

pub open spec fn run_key(r: TeamRunUsage) -> Option<Seq<char>> {
    opt_view(r.member_id)
}

pub open spec fn run_value(r: TeamRunUsage, cost: bool) -> nat {
    if cost {
        r.cost_micros as nat
    } else {
        r.tokens as nat
    }
}

/// The tokens (or cost) of the runs of member `k`.
pub open spec fn run_sum(runs: Seq<TeamRunUsage>, k: Option<Seq<char>>, cost: bool) -> nat
    decreases runs.len(),
{
    if runs.len() == 0 {
        0
    } else {
        run_sum(runs.drop_last(), k, cost) + if run_key(runs.last()) == k {
            run_value(runs.last(), cost)
        } else {
            0
        }
    }
}

/// The tokens (or cost) of all runs.
pub open spec fn run_total(runs: Seq<TeamRunUsage>, cost: bool) -> nat
    decreases runs.len(),
{
    if runs.len() == 0 {
        0
    } else {
        run_total(runs.drop_last(), cost) + run_value(runs.last(), cost)
    }
}

pub open spec fn run_keys(runs: Seq<TeamRunUsage>) -> Set<Option<Seq<char>>> {
    runs.map_values(|r: TeamRunUsage| run_key(r)).to_set()
}

pub open spec fn member_key(m: ManagedTeamMemberUsage) -> Option<Seq<char>> {
    opt_view(m.member_id)
}

pub open spec fn member_keys(ms: Seq<ManagedTeamMemberUsage>) -> Seq<Option<Seq<char>>> {
    ms.map_values(|m: ManagedTeamMemberUsage| member_key(m))
}

pub open spec fn member_value(m: ManagedTeamMemberUsage, cost: bool) -> nat {
    if cost {
        m.cost_micros as nat
    } else {
        m.tokens as nat
    }
}

pub open spec fn member_total(ms: Seq<ManagedTeamMemberUsage>, cost: bool) -> nat
    decreases ms.len(),
{
    if ms.len() == 0 {
        0
    } else {
        member_total(ms.drop_last(), cost) + member_value(ms.last(), cost)
    }
}

pub open spec fn keys_sorted(ks: Seq<Option<Seq<char>>>) -> bool {
    forall|i: int| 0 <= i < ks.len() - 1 ==> key_lt(#[trigger] ks[i], ks[i + 1])
}

/// `u` is the usage the runs add up to.
pub open spec fn usage_of(u: ManagedTeamUsage, runs: Seq<TeamRunUsage>) -> bool {
    let ks = member_keys(u.members@);
    &&& keys_sorted(ks)
    &&& ks.no_duplicates()
    &&& ks.to_set() == run_keys(runs)
    &&& forall|i: int|
        0 <= i < ks.len() ==> (#[trigger] u.members@[i]).tokens == run_sum(runs, ks[i], false)
            && u.members@[i].cost_micros == run_sum(runs, ks[i], true)
    &&& u.tokens == run_total(runs, false)
    &&& u.cost_micros == run_total(runs, true)
}

pub open spec fn token_overflow_error() -> Seq<char> {
    "managed Team token usage overflowed"@
}

pub open spec fn cost_overflow_error() -> Seq<char> {
    "managed Team cost usage overflowed"@
}

proof fn lemma_run_sum_le_total(runs: Seq<TeamRunUsage>, k: Option<Seq<char>>, cost: bool)
    ensures
        run_sum(runs, k, cost) <= run_total(runs, cost),
    decreases runs.len(),
{
    if runs.len() > 0 {
        lemma_run_sum_le_total(runs.drop_last(), k, cost);
    }
}

proof fn lemma_run_total_prefix(runs: Seq<TeamRunUsage>, i: int, cost: bool)
    requires
        0 <= i <= runs.len(),
    ensures
        run_total(runs.take(i), cost) <= run_total(runs, cost),
    decreases runs.len() - i,
{
    if i < runs.len() {
        lemma_run_total_prefix(runs, i + 1, cost);
        assert(runs.take(i + 1).drop_last() =~= runs.take(i));
    } else {
        assert(runs.take(i) =~= runs);
    }
}

proof fn lemma_absent_key_sums_zero(runs: Seq<TeamRunUsage>, k: Option<Seq<char>>, cost: bool)
    requires
        !run_keys(runs).contains(k),
    ensures
        run_sum(runs, k, cost) == 0,
    decreases runs.len(),
{
    if runs.len() > 0 {
        let f = |r: TeamRunUsage| run_key(r);
        assert(runs.drop_last().map_values(f) =~= runs.map_values(f).drop_last());
        if run_keys(runs.drop_last()).contains(k) {
            let j = choose|j: int|
                0 <= j < runs.drop_last().map_values(f).len() && runs.drop_last().map_values(f)[j] == k;
            assert(runs.map_values(f)[j] == k);
        }
        assert(runs.map_values(f)[runs.len() - 1] == run_key(runs.last()));
        lemma_absent_key_sums_zero(runs.drop_last(), k, cost);
    }
}

proof fn lemma_member_total_update(
    ms: Seq<ManagedTeamMemberUsage>,
    j: int,
    m: ManagedTeamMemberUsage,
    cost: bool,
)
    requires
        0 <= j < ms.len(),
    ensures
        member_total(ms.update(j, m), cost) + member_value(ms[j], cost) == member_total(ms, cost)
            + member_value(m, cost),
    decreases ms.len(),
{
    if j < ms.len() - 1 {
        assert(ms.update(j, m).drop_last() =~= ms.drop_last().update(j, m));
        lemma_member_total_update(ms.drop_last(), j, m, cost);
    } else {
        assert(ms.update(j, m).drop_last() =~= ms.drop_last());
    }
}

proof fn lemma_member_total_insert(
    ms: Seq<ManagedTeamMemberUsage>,
    j: int,
    m: ManagedTeamMemberUsage,
    cost: bool,
)
    requires
        0 <= j <= ms.len(),
    ensures
        member_total(ms.insert(j, m), cost) == member_total(ms, cost) + member_value(m, cost),
    decreases ms.len(),
{
    if j < ms.len() {
        assert(ms.insert(j, m).drop_last() =~= ms.drop_last().insert(j, m));
        lemma_member_total_insert(ms.drop_last(), j, m, cost);
    } else {
        assert(ms.insert(j, m).drop_last() =~= ms);
    }
}

proof fn lemma_member_total_prefix(ms: Seq<ManagedTeamMemberUsage>, i: int, cost: bool)
    requires
        0 <= i <= ms.len(),
    ensures
        member_total(ms.take(i), cost) <= member_total(ms, cost),
    decreases ms.len() - i,
{
    if i < ms.len() {
        lemma_member_total_prefix(ms, i + 1, cost);
        assert(ms.take(i + 1).drop_last() =~= ms.take(i));
    } else {
        assert(ms.take(i) =~= ms);
    }
}

fn key_less(a: &Option<String>, b: &Option<String>) -> (r: bool)
    ensures
        r == key_lt(opt_view(*a), opt_view(*b)),
{
    match (a, b) {
        (None, Some(_)) => true,
        (Some(x), Some(y)) => str_lt(x.as_str(), y.as_str()),
        _ => false,
    }
}

fn key_equal(a: &Option<String>, b: &Option<String>) -> (r: bool)
    ensures
        r == (opt_view(*a) == opt_view(*b)),
{
    match (a, b) {
        (None, None) => true,
        (Some(x), Some(y)) => str_eq(x.as_str(), y.as_str()),
        _ => false,
    }
}

fn find_member(members: &Vec<ManagedTeamMemberUsage>, key: &Option<String>) -> (r: Option<usize>)
    ensures
        match r {
            Some(j) => j < members@.len() && member_keys(members@)[j as int] == opt_view(*key),
            None => !member_keys(members@).contains(opt_view(*key)),
        },
{
    let mut j: usize = 0;
    while j < members.len()
        invariant
            j <= members@.len(),
            forall|q: int| 0 <= q < j ==> member_keys(members@)[q] != opt_view(*key),
        decreases members.len() - j,
    {
        if key_equal(&members[j].member_id, key) {
            return Some(j);
        }
        j = j + 1;
    }
    None
}

/// The position at which an absent key keeps the members sorted.
fn insertion_point(members: &Vec<ManagedTeamMemberUsage>, key: &Option<String>) -> (p: usize)
    requires
        !member_keys(members@).contains(opt_view(*key)),
    ensures
        p <= members@.len(),
        p > 0 ==> key_lt(member_keys(members@)[p - 1], opt_view(*key)),
        p < members@.len() ==> key_lt(opt_view(*key), member_keys(members@)[p as int]),
{
    let ghost ks = member_keys(members@);
    let mut p: usize = 0;
    while p < members.len()
        invariant
            p <= members@.len(),
            ks == member_keys(members@),
            !ks.contains(opt_view(*key)),
            p > 0 ==> key_lt(ks[p - 1], opt_view(*key)),
        decreases members.len() - p,
    {
        if !key_less(&members[p].member_id, key) {
            proof {
                assert(ks[p as int] == member_key(members@[p as int]));
                lemma_key_trichotomy(ks[p as int], opt_view(*key));
            }
            return p;
        }
        p = p + 1;
    }
    p
}

fn sum_members(members: &Vec<ManagedTeamMemberUsage>, cost: bool) -> (r: Option<u64>)
    ensures
        match r {
            Some(t) => t == member_total(members@, cost),
            None => member_total(members@, cost) > u64::MAX,
        },
{
    let mut total: u64 = 0;
    let mut i: usize = 0;
    while i < members.len()
        invariant
            i <= members@.len(),
            total == member_total(members@.take(i as int), cost),
        decreases members.len() - i,
    {
        assert(members@.take(i + 1).drop_last() =~= members@.take(i as int));
        let v = if cost {
            members[i].cost_micros
        } else {
            members[i].tokens
        };
        match total.checked_add(v) {
            Some(t) => {
                total = t;
            },
            None => {
                proof {
                    lemma_member_total_prefix(members@, i + 1, cost);
                }
                return None;
            },
        }
        i = i + 1;
    }
    assert(members@.take(members@.len() as int) =~= members@);
    Some(total)
}

/// `ms` is the per-member tally of `runs`: sorted, unique member ids, each
/// with the sums of its runs, and totals that match.
pub open spec fn tally_of(ms: Seq<ManagedTeamMemberUsage>, runs: Seq<TeamRunUsage>) -> bool {
    let ks = member_keys(ms);
    &&& keys_sorted(ks)
    &&& ks.no_duplicates()
    &&& ks.to_set() == run_keys(runs)
    &&& forall|q: int|
        0 <= q < ms.len() ==> (#[trigger] ms[q]).tokens == run_sum(runs, ks[q], false)
            && ms[q].cost_micros == run_sum(runs, ks[q], true)
    &&& member_total(ms, false) == run_total(runs, false)
    &&& member_total(ms, true) == run_total(runs, true)
}

proof fn lemma_run_keys_push(prev: Seq<TeamRunUsage>, run: TeamRunUsage)
    ensures
        run_keys(prev.push(run)) == run_keys(prev).insert(run_key(run)),
        prev.push(run).drop_last() == prev,
{
    let f = |r: TeamRunUsage| run_key(r);
    assert(prev.push(run).map_values(f) =~= prev.map_values(f).push(run_key(run)));
    prev.map_values(f).lemma_push_to_set_commute(run_key(run));
    assert(prev.push(run).drop_last() =~= prev);
}

proof fn lemma_tally_update(
    before: Seq<ManagedTeamMemberUsage>,
    prev: Seq<TeamRunUsage>,
    run: TeamRunUsage,
    j: int,
    m: ManagedTeamMemberUsage,
)
    requires
        tally_of(before, prev),
        0 <= j < before.len(),
        member_key(before[j]) == run_key(run),
        member_key(m) == run_key(run),
        m.tokens == before[j].tokens + run.tokens,
        m.cost_micros == before[j].cost_micros + run.cost_micros,
    ensures
        tally_of(before.update(j, m), prev.push(run)),
{
    let next = prev.push(run);
    let after = before.update(j, m);
    lemma_run_keys_push(prev, run);
    lemma_member_total_update(before, j, m, false);
    lemma_member_total_update(before, j, m, true);
    let ks0 = member_keys(before);
    let ks = member_keys(after);
    assert(ks =~= ks0);
    assert(ks0[j] == run_key(run));
    assert(ks0.to_set().contains(run_key(run)));
    assert(run_keys(next) =~= run_keys(prev));
    assert forall|q: int| 0 <= q < after.len() implies (#[trigger] after[q]).tokens == run_sum(
        next,
        ks[q],
        false,
    ) && after[q].cost_micros == run_sum(next, ks[q], true) by {
        if q != j {
            assert(ks0[q] != ks0[j]);
            assert(before[q] == after[q]);
        }
    }
}

proof fn lemma_insert_key_set(ks0: Seq<Option<Seq<char>>>, p: int, k: Option<Seq<char>>)
    requires
        0 <= p <= ks0.len(),
    ensures
        ks0.insert(p, k).to_set() == ks0.to_set().insert(k),
{
    let ks = ks0.insert(p, k);
    assert forall|x: Option<Seq<char>>| ks.contains(x) <==> (ks0.contains(x) || x == k) by {
        if ks.contains(x) {
            let w = choose|w: int| 0 <= w < ks.len() && ks[w] == x;
            if w < p {
                assert(ks0[w] == x);
            } else if w > p {
                assert(ks0[w - 1] == x);
            }
        }
        if ks0.contains(x) {
            let w = choose|w: int| 0 <= w < ks0.len() && ks0[w] == x;
            if w < p {
                assert(ks[w] == x);
            } else {
                assert(ks[w + 1] == x);
            }
        }
        if x == k {
            assert(ks[p] == k);
        }
    }
    assert(ks.to_set() =~= ks0.to_set().insert(k));
}

proof fn lemma_insert_key_sorted(ks0: Seq<Option<Seq<char>>>, p: int, k: Option<Seq<char>>)
    requires
        0 <= p <= ks0.len(),
        keys_sorted(ks0),
        p > 0 ==> key_lt(ks0[p - 1], k),
        p < ks0.len() ==> key_lt(k, ks0[p]),
    ensures
        keys_sorted(ks0.insert(p, k)),
{
    let ks = ks0.insert(p, k);
    assert forall|q: int| 0 <= q < ks.len() - 1 implies key_lt(#[trigger] ks[q], ks[q + 1]) by {
        if q + 1 < p {
            assert(ks0[q] == ks[q] && ks0[q + 1] == ks[q + 1]);
        } else if q + 1 == p {
            assert(ks[q] == ks0[q]);
        } else if q == p {
            assert(ks[q + 1] == ks0[q]);
        } else {
            assert(ks[q] == ks0[q - 1] && ks[q + 1] == ks0[q]);
        }
    }
}

proof fn lemma_insert_key_unique(ks0: Seq<Option<Seq<char>>>, p: int, k: Option<Seq<char>>)
    requires
        0 <= p <= ks0.len(),
        ks0.no_duplicates(),
        !ks0.contains(k),
    ensures
        ks0.insert(p, k).no_duplicates(),
{
    let ks = ks0.insert(p, k);
    assert forall|a: int, b: int| 0 <= a < ks.len() && 0 <= b < ks.len() && a != b implies ks[a]
        != ks[b] by {
        let a0 = if a < p {
            a
        } else {
            a - 1
        };
        let b0 = if b < p {
            b
        } else {
            b - 1
        };
        if a != p && b != p {
            assert(ks[a] == ks0[a0] && ks[b] == ks0[b0]);
        } else if a == p {
            assert(ks[b] == ks0[b0]);
            assert(ks0.contains(ks0[b0]));
        } else {
            assert(ks[a] == ks0[a0]);
            assert(ks0.contains(ks0[a0]));
        }
    }
}

proof fn lemma_tally_insert(
    before: Seq<ManagedTeamMemberUsage>,
    prev: Seq<TeamRunUsage>,
    run: TeamRunUsage,
    p: int,
    m: ManagedTeamMemberUsage,
)
    requires
        tally_of(before, prev),
        0 <= p <= before.len(),
        !member_keys(before).contains(run_key(run)),
        p > 0 ==> key_lt(member_keys(before)[p - 1], run_key(run)),
        p < before.len() ==> key_lt(run_key(run), member_keys(before)[p]),
        member_key(m) == run_key(run),
        m.tokens == run.tokens,
        m.cost_micros == run.cost_micros,
    ensures
        tally_of(before.insert(p, m), prev.push(run)),
{
    let next = prev.push(run);
    let after = before.insert(p, m);
    let k = run_key(run);
    lemma_run_keys_push(prev, run);
    let ks0 = member_keys(before);
    let ks = member_keys(after);
    assert(!run_keys(prev).contains(k));
    lemma_absent_key_sums_zero(prev, k, false);
    lemma_absent_key_sums_zero(prev, k, true);
    lemma_member_total_insert(before, p, m, false);
    lemma_member_total_insert(before, p, m, true);
    assert(ks =~= ks0.insert(p, k));
    lemma_insert_key_set(ks0, p, k);
    lemma_insert_key_sorted(ks0, p, k);
    lemma_insert_key_unique(ks0, p, k);
    assert forall|q: int| 0 <= q < after.len() implies (#[trigger] after[q]).tokens == run_sum(
        next,
        ks[q],
        false,
    ) && after[q].cost_micros == run_sum(next, ks[q], true) by {
        if q < p {
            assert(after[q] == before[q]);
            assert(ks[q] == ks0[q]);
            assert(ks0.contains(ks0[q]));
        } else if q > p {
            assert(after[q] == before[q - 1]);
            assert(ks[q] == ks0[q - 1]);
            assert(ks0.contains(ks0[q - 1]));
        }
    }
}

/// Add one run's usage to the tally; fails when the member's sum
/// overflows.
fn record_run(
    members: &mut Vec<ManagedTeamMemberUsage>,
    run: &TeamRunUsage,
    Ghost(prev): Ghost<Seq<TeamRunUsage>>,
) -> (r: Result<(), String>)
    requires
        tally_of(old(members)@, prev),
    ensures
        r is Ok ==> tally_of(final(members)@, prev.push(*run)),
        r is Ok ==> run_sum(prev.push(*run), run_key(*run), false) <= u64::MAX && run_sum(
            prev.push(*run),
            run_key(*run),
            true,
        ) <= u64::MAX,
        r matches Err(e) ==> (e@ == token_overflow_error() && run_sum(
            prev.push(*run),
            run_key(*run),
            false,
        ) > u64::MAX) || (e@ == cost_overflow_error() && run_sum(prev.push(*run), run_key(*run), false)
            <= u64::MAX && run_sum(prev.push(*run), run_key(*run), true) > u64::MAX),
{
    let ghost before = members@;
    proof {
        lemma_run_keys_push(prev, *run);
    }
    match find_member(members, &run.member_id) {
        Some(j) => {
            proof {
                assert(member_keys(before)[j as int] == member_key(before[j as int]));
            }
            let tokens = match members[j].tokens.checked_add(run.tokens) {
                Some(t) => t,
                None => {
                    return Err(copy_str("managed Team token usage overflowed"));
                },
            };
            let cost = match members[j].cost_micros.checked_add(run.cost_micros) {
                Some(c) => c,
                None => {
                    return Err(copy_str("managed Team cost usage overflowed"));
                },
            };
            let updated = ManagedTeamMemberUsage {
                member_id: copy_opt(&members[j].member_id),
                tokens,
                cost_micros: cost,
            };
            proof {
                lemma_tally_update(before, prev, *run, j as int, updated);
                let after = before.update(j as int, updated);
                assert(after[j as int] == updated);
                assert(member_keys(after)[j as int] == run_key(*run));
            }
            members.set(j, updated);
            Ok(())
        },
        None => {
            let p = insertion_point(members, &run.member_id);
            let fresh = ManagedTeamMemberUsage {
                member_id: copy_opt(&run.member_id),
                tokens: run.tokens,
                cost_micros: run.cost_micros,
            };
            proof {
                lemma_tally_insert(before, prev, *run, p as int, fresh);
                let after = before.insert(p as int, fresh);
                assert(after[p as int] == fresh);
                assert(member_keys(after)[p as int] == run_key(*run));
            }
            members.insert(p, fresh);
            Ok(())
        },
    }
}

/// The first overflow met while the runs are added up in order: a member's
/// tokens, then that member's cost, run by run.
pub open spec fn member_overflow(runs: Seq<TeamRunUsage>) -> Option<Seq<char>>
    decreases runs.len(),
{
    if runs.len() == 0 {
        None
    } else {
        match member_overflow(runs.drop_last()) {
            Some(e) => Some(e),
            None => {
                let k = run_key(runs.last());
                if run_sum(runs, k, false) > u64::MAX {
                    Some(token_overflow_error())
                } else if run_sum(runs, k, true) > u64::MAX {
                    Some(cost_overflow_error())
                } else {
                    None
                }
            },
        }
    }
}

/// The error of adding up `runs`: the first member overflow, else an
/// overflow of the token total, else of the cost total.
pub open spec fn usage_error(runs: Seq<TeamRunUsage>) -> Option<Seq<char>> {
    match member_overflow(runs) {
        Some(e) => Some(e),
        None => if run_total(runs, false) > u64::MAX {
            Some(token_overflow_error())
        } else if run_total(runs, true) > u64::MAX {
            Some(cost_overflow_error())
        } else {
            None
        },
    }
}

/// Once a prefix of the runs overflows, every longer prefix reports that
/// overflow.
proof fn lemma_member_overflow_prefix(runs: Seq<TeamRunUsage>, i: int)
    requires
        0 <= i <= runs.len(),
        member_overflow(runs.take(i)) is Some,
    ensures
        member_overflow(runs) == member_overflow(runs.take(i)),
    decreases runs.len() - i,
{
    if i == runs.len() {
        assert(runs.take(i) =~= runs);
    } else {
        assert(runs.take(i + 1).drop_last() =~= runs.take(i));
        lemma_member_overflow_prefix(runs, i + 1);
    }
}

/// Add up the usage of a Team's runs, per member and in total. Fails when a
/// sum does not fit in 64 bits.
pub fn aggregate_team_usage(runs: &Vec<TeamRunUsage>) -> (r: Result<ManagedTeamUsage, String>)
    ensures
        r is Ok <==> (run_total(runs@, false) <= u64::MAX && run_total(runs@, true) <= u64::MAX),
        r matches Ok(u) ==> usage_of(u, runs@),
        r matches Err(e) ==> usage_error(runs@) == Some(e@),
        r is Ok ==> usage_error(runs@) is None,
{
    let ghost all = runs@;
    let mut members: Vec<ManagedTeamMemberUsage> = Vec::new();
    let mut i: usize = 0;
    assert(member_keys(members@).to_set() =~= run_keys(all.take(0)));
    while i < runs.len()
        invariant
            i <= runs@.len(),
            all == runs@,
            tally_of(members@, all.take(i as int)),
            member_overflow(all.take(i as int)) is None,
        decreases runs.len() - i,
    {
        proof {
            assert(all.take(i + 1) =~= all.take(i as int).push(all[i as int]));
            lemma_run_total_prefix(all, i + 1, false);
            lemma_run_total_prefix(all, i + 1, true);
            lemma_run_sum_le_total(all.take(i + 1), run_key(all[i as int]), false);
            lemma_run_sum_le_total(all.take(i + 1), run_key(all[i as int]), true);
        }
        proof {
            assert(all.take(i + 1).drop_last() =~= all.take(i as int));
            assert(all.take(i + 1).last() == all[i as int]);
        }
        match record_run(&mut members, &runs[i], Ghost(all.take(i as int))) {
            Ok(()) => {},
            Err(e) => {
                proof {
                    lemma_member_overflow_prefix(all, i + 1);
                }
                return Err(e);
            },
        }
        i = i + 1;
    }
    assert(all.take(all.len() as int) =~= all);
    let tokens = match sum_members(&members, false) {
        Some(t) => t,
        None => {
            return Err(copy_str("managed Team token usage overflowed"));
        },
    };
    let cost_micros = match sum_members(&members, true) {
        Some(c) => c,
        None => {
            return Err(copy_str("managed Team cost usage overflowed"));
        },
    };
    Ok(ManagedTeamUsage { tokens, cost_micros, members })
}

/// The budget a Team may spend.
#[derive(Debug, Clone, Copy, PartialEq, Eq, Structural)]
pub struct TeamBudgetPolicy {
    pub token_limit: Option<u64>,
    pub cost_limit_micros: Option<u64>,
}

/// Why a Team refuses new work, if it does: a pending exit, a session that
/// is not active, or an exhausted token or cost budget (checked in that
/// order).
pub open spec fn admission_refusal(
    exit_pending: bool,
    session_active: bool,
    tokens: u64,
    cost_micros: u64,
    budget: Option<TeamBudgetPolicy>,
) -> Option<Seq<char>> {
    if exit_pending {
        Some("managed Team exit is pending; new work is fenced"@)
    } else if !session_active {
        Some("managed Team session does not admit new work"@)
    } else if budget matches Some(b) && b.token_limit matches Some(l) && tokens >= l {
        Some("managed Team token budget is exhausted"@)
    } else if budget matches Some(b) && b.cost_limit_micros matches Some(l) && cost_micros >= l {
        Some("managed Team cost budget is exhausted"@)
    } else {
        None
    }
}

/// Whether a Team admits new dispatch, given its session and its usage.
pub fn admit_dispatch(
    exit_pending: bool,
    session_active: bool,
    usage: &ManagedTeamUsage,
    budget: Option<TeamBudgetPolicy>,
) -> (r: Result<(), String>)
    ensures
        match admission_refusal(exit_pending, session_active, usage.tokens, usage.cost_micros, budget) {
            Some(m) => r matches Err(e) && e@ == m,
            None => r is Ok,
        },
{
    if exit_pending {
        return Err(copy_str("managed Team exit is pending; new work is fenced"));
    }
    if !session_active {
        return Err(copy_str("managed Team session does not admit new work"));
    }
    match budget {
        Some(b) => {
            match b.token_limit {
                Some(l) => {
                    if usage.tokens >= l {
                        return Err(copy_str("managed Team token budget is exhausted"));
                    }
                },
                None => {},
            }
            match b.cost_limit_micros {
                Some(l) => {
                    if usage.cost_micros >= l {
                        return Err(copy_str("managed Team cost budget is exhausted"));
                    }
                },
                None => {},
            }
        },
        None => {},
    }
    Ok(())
}

/// A usage that has reached a budget limit is never admitted; budgets only
/// ever refuse work once spent.
pub proof fn law_exhausted_budget_refuses_dispatch(
    exit_pending: bool,
    session_active: bool,
    tokens: u64,
    cost_micros: u64,
    budget: TeamBudgetPolicy,
)
    requires
        (budget.token_limit matches Some(l) && tokens >= l) || (budget.cost_limit_micros matches Some(l)
            && cost_micros >= l),
    ensures
        admission_refusal(exit_pending, session_active, tokens, cost_micros, Some(budget)) is Some,
{
}

} // verus!
