//! Greedy first-fit matching of before-records to after-records.
use crate::error::Error;
use crate::transition::{
    advances, near_max, overflow_check, overflow_error, transition_holds, CounterValue,
    OverflowPolicy,
};
use vstd::multiset::Multiset;
use vstd::prelude::*;

verus! {

/// The first index at or after `j` of an unclaimed after-value that `b`
/// advances to.
pub open spec fn first_free_match(
    b: CounterValue,
    after: Seq<CounterValue>,
    claimed: Seq<bool>,
    j: int,
) -> Option<int>
    decreases after.len() - j,
{
    if j < 0 || j >= after.len() {
        None
    } else if !claimed[j] && advances(b, after[j]) {
        Some(j)
    } else {
        first_free_match(b, after, claimed, j + 1)
    }
}

/// Greedy matching of `before[i..]`, given the after-indices already
/// claimed: each before-value, in order, passes the overflow guard and then
/// claims the first unclaimed after-value it advances to. The result lists
/// the claimed after-index of each before-value.
pub open spec fn greedy_from(
    policy: OverflowPolicy,
    before: Seq<CounterValue>,
    after: Seq<CounterValue>,
    claimed: Seq<bool>,
    i: int,
) -> Result<Seq<int>, Error>
    decreases before.len() - i,
{
    if i < 0 || i >= before.len() {
        Ok(Seq::empty())
    } else if near_max(before[i]) {
        Err(overflow_error(policy))
    } else {
        match first_free_match(before[i], after, claimed, 0) {
            None => Err(Error::InvalidCounterValue),
            Some(j) => match greedy_from(policy, before, after, claimed.update(j, true), i + 1) {
                Ok(rest) => Ok(seq![j] + rest),
                Err(e) => Err(e),
            },
        }
    }
}

/// Greedy matching of all before-values, starting with nothing claimed.
pub open spec fn greedy_outcome(
    policy: OverflowPolicy,
    before: Seq<CounterValue>,
    after: Seq<CounterValue>,
) -> Result<Seq<int>, Error> {
    greedy_from(policy, before, after, Seq::new(after.len(), |j: int| false), 0)
}

/// The indices of `p`, as integers.
pub open spec fn as_indices(p: Seq<usize>) -> Seq<int> {
    p.map_values(|k: usize| k as int)
}

/// `p` pairs each before-value with a distinct after-value it advances to.
pub open spec fn is_pairing(before: Seq<CounterValue>, after: Seq<CounterValue>, p: Seq<int>) -> bool {
    &&& p.len() == before.len()
    &&& forall|i: int| 0 <= i < p.len() ==> 0 <= #[trigger] p[i] < after.len()
    &&& forall|i: int| 0 <= i < p.len() ==> advances(before[i], after[#[trigger] p[i]])
    &&& forall|i: int, k: int| 0 <= i < p.len() && 0 <= k < p.len() && i != k ==> #[trigger] p[i] != #[trigger] p[k]
}

/// Finds the first unclaimed after-value that `b` advances to.
fn find_free_match(b: CounterValue, after: &Vec<CounterValue>, claimed: &Vec<bool>) -> (r: Option<usize>)
    requires
        !near_max(b),
        claimed@.len() == after@.len(),
    ensures
        r matches Some(j) ==> first_free_match(b, after@, claimed@, 0) == Some(j as int),
        r is None ==> first_free_match(b, after@, claimed@, 0) is None,
{
    let m = after.len();
    let mut j: usize = 0;
    while j < m
        invariant
            j <= m,
            m == after@.len(),
            claimed@.len() == m,
            !near_max(b),
            first_free_match(b, after@, claimed@, 0) == first_free_match(b, after@, claimed@, j as int),
        decreases m - j,
    {
        if !claimed[j] && transition_holds(b, after[j]) {
            return Some(j);
        }
        j = j + 1;
    }
    None
}

/// Matches before-values to after-values, greedily and first-fit. On success
/// the result gives, for each before-value, the index of its after-value.
pub fn greedy_match(
    policy: OverflowPolicy,
    before: &Vec<CounterValue>,
    after: &Vec<CounterValue>,
) -> (r: Result<Vec<usize>, Error>)
    ensures
        match r {
            Ok(p) => greedy_outcome(policy, before@, after@) == Ok::<Seq<int>, Error>(as_indices(p@)),
            Err(e) => greedy_outcome(policy, before@, after@) == Err::<Seq<int>, Error>(e),
        },
        r matches Ok(p) ==> is_pairing(before@, after@, as_indices(p@)),
{
    let n = before.len();
    let m = after.len();
    let mut claimed: Vec<bool> = Vec::new();
    let mut k: usize = 0;
    while k < m
        invariant
            k <= m,
            m == after@.len(),
            claimed@ =~= Seq::new(k as nat, |j: int| false),
        decreases m - k,
    {
        claimed.push(false);
        k = k + 1;
    }
    let mut pairs: Vec<usize> = Vec::new();
    let mut i: usize = 0;
    while i < n
        invariant
            i <= n,
            n == before@.len(),
            m == after@.len(),
            claimed@.len() == m,
            pairs@.len() == i,
            greedy_outcome(policy, before@, after@) == match greedy_from(
                policy,
                before@,
                after@,
                claimed@,
                i as int,
            ) {
                Ok(rest) => Ok::<Seq<int>, Error>(as_indices(pairs@) + rest),
                Err(e) => Err(e),
            },
            forall|t: int| 0 <= t < i ==> #[trigger] pairs@[t] < m,
            forall|t: int| 0 <= t < i ==> claimed@[#[trigger] pairs@[t] as int],
            forall|t: int| 0 <= t < i ==> advances(before@[t], after@[#[trigger] pairs@[t] as int]),
            forall|t: int, u: int|
                0 <= t < i && 0 <= u < i && t != u ==> #[trigger] pairs@[t] != #[trigger] pairs@[u],
        decreases n - i,
    {
        let b = before[i];
        if overflow_check(b) {
            return match policy {
                OverflowPolicy::Fatal => Err(Error::Aborted),
                OverflowPolicy::Recoverable => Err(Error::CounterValueOverflow),
            };
        }
        match find_free_match(b, after, &claimed) {
            None => {
                return Err(Error::InvalidCounterValue);
            },
            Some(j) => {
                proof {
                    lemma_first_free_match_found(b, after@, claimed@, 0, j as int);
                    assert(as_indices(pairs@.push(j)) =~= as_indices(pairs@) + seq![j as int]);
                    let next = greedy_from(policy, before@, after@, claimed@.update(j as int, true), i + 1);
                    if next is Ok {
                        assert(as_indices(pairs@) + (seq![j as int] + next->Ok_0) =~= as_indices(pairs@.push(j)) + next->Ok_0);
                    }
                }
                claimed.set(j, true);
                pairs.push(j);
                i = i + 1;
            },
        }
    }
    proof {
        assert(as_indices(pairs@) + Seq::<int>::empty() =~= as_indices(pairs@));
    }
    Ok(pairs)
}

/// An index found by `first_free_match` is an unclaimed after-value that
/// `b` advances to.
proof fn lemma_first_free_match_found(
    b: CounterValue,
    after: Seq<CounterValue>,
    claimed: Seq<bool>,
    j0: int,
    j: int,
)
    requires
        0 <= j0,
        first_free_match(b, after, claimed, j0) == Some(j),
    ensures
        j0 <= j < after.len(),
        !claimed[j],
        advances(b, after[j]),
    decreases after.len() - j0,
{
    if j0 < after.len() && !(!claimed[j0] && advances(b, after[j0])) {
        lemma_first_free_match_found(b, after, claimed, j0 + 1, j);
    }
}

/// The value a before-value turns into under the transition rule.
pub open spec fn successor(b: CounterValue) -> CounterValue {
    match b {
        CounterValue::Single(a) => CounterValue::Single((a + 1) as u64),
        CounterValue::Double(a, c) => CounterValue::Double((a + 1) as u64, (c + 2) as u64),
    }
}

/// The after-values not yet claimed.
spec fn free_values(after: Seq<CounterValue>, claimed: Seq<bool>) -> Multiset<CounterValue>
    decreases after.len(),
{
    if after.len() == 0 {
        Multiset::empty()
    } else {
        let rest = free_values(after.drop_last(), claimed.drop_last());
        if claimed[after.len() - 1] {
            rest
        } else {
            rest.insert(after.last())
        }
    }
}

/// The successors of `before[i..]`.
spec fn successors_from(before: Seq<CounterValue>, i: int) -> Multiset<CounterValue> {
    before.subrange(i, before.len() as int).map_values(|b: CounterValue| successor(b)).to_multiset()
}

/// Below its maximum, a value advances exactly to its successor.
proof fn lemma_advances_successor(b: CounterValue, x: CounterValue)
    requires
        !near_max(b),
    ensures
        advances(b, x) <==> x == successor(b),
{
}

/// With nothing claimed, the free values are all the after-values.
proof fn lemma_free_values_all(after: Seq<CounterValue>)
    ensures
        free_values(after, Seq::new(after.len(), |j: int| false)) =~= after.to_multiset(),
    decreases after.len(),
{
    if after.len() > 0 {
        let none = Seq::new(after.len(), |j: int| false);
        assert(none.drop_last() =~= Seq::new(after.drop_last().len(), |j: int| false));
        lemma_free_values_all(after.drop_last());
        vstd::seq_lib::to_multiset_build(after.drop_last(), after.last());
        assert(after.drop_last().push(after.last()) =~= after);
    } else {
        vstd::seq_lib::to_multiset_len(after);
        vstd::multiset::lemma_multiset_empty_len(after.to_multiset());
    }
}

/// An unclaimed after-value is among the free values.
proof fn lemma_free_values_contains(after: Seq<CounterValue>, claimed: Seq<bool>, j: int)
    requires
        claimed.len() == after.len(),
        0 <= j < after.len(),
        !claimed[j],
    ensures
        free_values(after, claimed).count(after[j]) > 0,
    decreases after.len(),
{
    if j < after.len() - 1 {
        lemma_free_values_contains(after.drop_last(), claimed.drop_last(), j);
    }
}

/// A free value belongs to some unclaimed after-index.
proof fn lemma_free_values_witness(after: Seq<CounterValue>, claimed: Seq<bool>, v: CounterValue)
    requires
        claimed.len() == after.len(),
        free_values(after, claimed).count(v) > 0,
    ensures
        exists|j: int| 0 <= j < after.len() && !claimed[j] && after[j] == v,
    decreases after.len(),
{
    if after.len() > 0 {
        let n = after.len() - 1;
        if !claimed[n] && after[n] == v {
            assert(0 <= n < after.len() && !claimed[n] && after[n] == v);
        } else {
            lemma_free_values_witness(after.drop_last(), claimed.drop_last(), v);
            let j = choose|j: int|
                0 <= j < after.drop_last().len() && !claimed.drop_last()[j] && after.drop_last()[j]
                    == v;
            assert(0 <= j < after.len() && !claimed[j] && after[j] == v);
        }
    }
}

/// Claiming an after-index removes its value from the free values.
proof fn lemma_free_values_claim(after: Seq<CounterValue>, claimed: Seq<bool>, j: int)
    requires
        claimed.len() == after.len(),
        0 <= j < after.len(),
        !claimed[j],
    ensures
        free_values(after, claimed.update(j, true)) =~= free_values(after, claimed).remove(after[j]),
    decreases after.len(),
{
    let n = after.len() - 1;
    let updated = claimed.update(j, true);
    if j == n {
        assert(updated.drop_last() =~= claimed.drop_last());
    } else {
        assert(updated.drop_last() =~= claimed.drop_last().update(j, true));
        lemma_free_values_claim(after.drop_last(), claimed.drop_last(), j);
        lemma_free_values_contains(after.drop_last(), claimed.drop_last(), j);
    }
}

/// If some unclaimed after-value at or past `j0` is what `b` advances to,
/// the search finds one.
proof fn lemma_first_free_match_exists(
    b: CounterValue,
    after: Seq<CounterValue>,
    claimed: Seq<bool>,
    j0: int,
    j: int,
)
    requires
        0 <= j0 <= j < after.len(),
        !claimed[j],
        advances(b, after[j]),
    ensures
        first_free_match(b, after, claimed, j0) is Some,
    decreases j - j0,
{
    if !(!claimed[j0] && advances(b, after[j0])) {
        lemma_first_free_match_exists(b, after, claimed, j0 + 1, j);
    }
}

/// Greedy matching of `before[i..]` succeeds when the free after-values are
/// exactly the successors still to be matched.
proof fn lemma_greedy_from_succeeds(
    policy: OverflowPolicy,
    before: Seq<CounterValue>,
    after: Seq<CounterValue>,
    claimed: Seq<bool>,
    i: int,
)
    requires
        0 <= i <= before.len(),
        claimed.len() == after.len(),
        forall|k: int| i <= k < before.len() ==> !near_max(#[trigger] before[k]),
        free_values(after, claimed) =~= successors_from(before, i),
    ensures
        greedy_from(policy, before, after, claimed, i) is Ok,
    decreases before.len() - i,
{
    if i < before.len() {
        let b = before[i];
        lemma_successors_step(before, i);
        assert(free_values(after, claimed).count(successor(b)) > 0);
        lemma_free_values_witness(after, claimed, successor(b));
        let j = choose|j: int| 0 <= j < after.len() && !claimed[j] && after[j] == successor(b);
        lemma_advances_successor(b, after[j]);
        lemma_first_free_match_exists(b, after, claimed, 0, j);
        let found = first_free_match(b, after, claimed, 0)->Some_0;
        lemma_first_free_match_found(b, after, claimed, 0, found);
        lemma_advances_successor(b, after[found]);
        lemma_free_values_claim(after, claimed, found);
        lemma_greedy_from_succeeds(policy, before, after, claimed.update(found, true), i + 1);
    }
}

/// Matching does not depend on order: when the after-values are a
/// rearrangement of the successors of the before-values, and no
/// before-value is too close to its maximum, greedy matching succeeds.
pub proof fn lemma_matching_in_any_order(
    policy: OverflowPolicy,
    before: Seq<CounterValue>,
    after: Seq<CounterValue>,
)
    requires
        forall|k: int| 0 <= k < before.len() ==> !near_max(#[trigger] before[k]),
        after.to_multiset() =~= before.map_values(|b: CounterValue| successor(b)).to_multiset(),
    ensures
        greedy_outcome(policy, before, after) is Ok,
{
    lemma_free_values_all(after);
    assert(before.subrange(0, before.len() as int) =~= before);
    lemma_greedy_from_succeeds(policy, before, after, Seq::new(after.len(), |j: int| false), 0);
}

/// The successors of `before[i..]` follow from those of `before[i + 1..]`
/// by adding the successor of `before[i]`.
proof fn lemma_successors_step(before: Seq<CounterValue>, i: int)
    requires
        0 <= i < before.len(),
    ensures
        successors_from(before, i) =~= successors_from(before, i + 1).insert(successor(before[i])),
        successors_from(before, i).count(successor(before[i])) > 0,
{
    broadcast use vstd::seq_lib::to_multiset_contains, vstd::seq_lib::to_multiset_remove;

    let rest = before.subrange(i, before.len() as int).map_values(|x: CounterValue| successor(x));
    assert(rest[0] == successor(before[i]));
    assert(rest.contains(successor(before[i])));
    assert(rest.remove(0) =~= before.subrange(i + 1, before.len() as int).map_values(
        |x: CounterValue| successor(x),
    ));
}

/// When greedy matching of `before[i..]` succeeds, every successor still to
/// be matched is among the free after-values.
proof fn lemma_greedy_from_consumes(
    policy: OverflowPolicy,
    before: Seq<CounterValue>,
    after: Seq<CounterValue>,
    claimed: Seq<bool>,
    i: int,
)
    requires
        0 <= i <= before.len(),
        claimed.len() == after.len(),
        greedy_from(policy, before, after, claimed, i) is Ok,
    ensures
        successors_from(before, i).subset_of(free_values(after, claimed)),
    decreases before.len() - i,
{
    if i < before.len() {
        let b = before[i];
        let j = first_free_match(b, after, claimed, 0)->Some_0;
        lemma_first_free_match_found(b, after, claimed, 0, j);
        lemma_advances_successor(b, after[j]);
        lemma_greedy_from_consumes(policy, before, after, claimed.update(j, true), i + 1);
        lemma_free_values_claim(after, claimed, j);
        lemma_free_values_contains(after, claimed, j);
        lemma_successors_step(before, i);
        let free = free_values(after, claimed);
        assert forall|v: CounterValue| #[trigger]
            successors_from(before, i).count(v) <= free.count(v) by {
            assert(successors_from(before, i + 1).count(v) <= free.remove(after[j]).count(v));
        }
    } else {
        let none = before.subrange(i, before.len() as int).map_values(|x: CounterValue| successor(x));
        vstd::seq_lib::to_multiset_len(none);
        vstd::multiset::lemma_multiset_empty_len(none.to_multiset());
    }
}

/// Greedy matching succeeds only on rearrangements: when there are as many
/// after-values as before-values and matching succeeds, the after-values
/// are the successors of the before-values, in some order.
pub proof fn lemma_matching_only_rearrangements(
    policy: OverflowPolicy,
    before: Seq<CounterValue>,
    after: Seq<CounterValue>,
)
    requires
        before.len() == after.len(),
        greedy_outcome(policy, before, after) is Ok,
    ensures
        after.to_multiset() =~= before.map_values(|b: CounterValue| successor(b)).to_multiset(),
{
    let succs = before.map_values(|b: CounterValue| successor(b)).to_multiset();
    let all = after.to_multiset();
    lemma_free_values_all(after);
    assert(before.subrange(0, before.len() as int) =~= before);
    lemma_greedy_from_consumes(policy, before, after, Seq::new(after.len(), |j: int| false), 0);
    vstd::seq_lib::to_multiset_len(after);
    vstd::seq_lib::to_multiset_len(before.map_values(|b: CounterValue| successor(b)));
    assert(succs.subset_of(all));
    assert(all.sub(succs).len() == 0);
    vstd::multiset::lemma_multiset_empty_len(all.sub(succs));
    assert forall|v: CounterValue| #[trigger] all.count(v) == succs.count(v) by {
        assert(all.sub(succs).count(v) == 0);
    }
}

/// Matching is exactly the rearrangement check: for as many after-values as
/// before-values, none too close to its maximum, greedy matching succeeds
/// if and only if the after-values are the successors of the before-values
/// in some order, so its verdict does not depend on the order of either.
pub proof fn lemma_matching_iff_rearrangement(
    policy: OverflowPolicy,
    before: Seq<CounterValue>,
    after: Seq<CounterValue>,
)
    requires
        before.len() == after.len(),
        forall|k: int| 0 <= k < before.len() ==> !near_max(#[trigger] before[k]),
    ensures
        greedy_outcome(policy, before, after) is Ok <==> after.to_multiset()
            =~= before.map_values(|b: CounterValue| successor(b)).to_multiset(),
{
    if greedy_outcome(policy, before, after) is Ok {
        lemma_matching_only_rearrangements(policy, before, after);
    }
    if after.to_multiset() =~= before.map_values(|b: CounterValue| successor(b)).to_multiset() {
        lemma_matching_in_any_order(policy, before, after);
    }
}

} // verus!
