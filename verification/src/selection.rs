//! Latency ranking and per-request backend selection.
//!
//! `argsort` establishes the merit order of a pool: positions sorted by
//! ascending smoothed latency, ties broken by original position, so the
//! order is unique for a given pool. `pick` selects exactly one backend
//! for the next request and updates its usage counters; three
//! interchangeable policies are dispatched through `pick_with`.

use vstd::prelude::*;
use vstd::seq_lib::group_to_multiset_ensures;
use vstd::seq_lib::lemma_sorted_unique;
use vstd::relations::sorted_by;
use vstd::relations::total_ordering;
use crate::rpc::Rpc;
use crate::rpc::RpcView;
use crate::rpc::pool_view;
use crate::rpc::is_default_rpc;
use crate::trusted::now_micros;
use crate::trusted::fresh_rng;
use crate::trusted::gen_below;

verus! {

/// Sort key of a backend: its smoothed latency in integral units;
/// lower is better, the unknown-latency sentinel is worst.
pub open spec fn latency_key(r: RpcView) -> int {
    r.status.latency as int
}

/// Strict merit order on two positions of a pool: ascending latency,
/// ties broken by the original position.
pub open spec fn rank_lt(s: Seq<RpcView>, a: int, b: int) -> bool {
    ||| latency_key(s[a]) < latency_key(s[b])
    ||| (latency_key(s[a]) == latency_key(s[b]) && a < b)
}

/// The reflexive closure of `rank_lt`, as a relation on positions.
pub open spec fn rank_le_fn(s: Seq<RpcView>) -> spec_fn(usize, usize) -> bool {
    |a: usize, b: usize| rank_lt(s, a as int, b as int) || a == b
}

/// Positions `0, 1, ..., n - 1`.
pub open spec fn position_seq(n: nat) -> Seq<usize> {
    Seq::new(n, |i: int| i as usize)
}

/// `r` is the merit order of pool `s`: a permutation of all positions
/// of `s`, strictly sorted by `rank_lt`. For a given pool exactly one
/// sequence satisfies this.
pub open spec fn is_rank_of(s: Seq<RpcView>, r: Seq<usize>) -> bool {
    &&& r.len() == s.len()
    &&& forall|k: int| 0 <= k < r.len() ==> (#[trigger] r[k]) < s.len()
    &&& forall|k1: int, k2: int|
        0 <= k1 < k2 < r.len() ==> rank_lt(s, #[trigger] r[k1] as int, #[trigger] r[k2] as int)
    &&& r.to_multiset() == position_seq(s.len()).to_multiset()
}

/// The merit order of pool `s` (meaningful whenever one exists; see
/// `lemma_rank_unique` for its uniqueness).
pub open spec fn rank_of(s: Seq<RpcView>) -> Seq<usize> {
    choose|r: Seq<usize>| is_rank_of(s, r)
}

/// The merit order is deterministic: any two rankings of the same
/// unmutated pool are identical.
pub proof fn lemma_rank_unique(s: Seq<RpcView>, r1: Seq<usize>, r2: Seq<usize>)
    requires
        is_rank_of(s, r1),
        is_rank_of(s, r2),
    ensures
        r1 == r2,
{
    let leq = rank_le_fn(s);
    assert(total_ordering(leq));
    assert(sorted_by(r1, leq)) by {
        assert forall|i: int, j: int| 0 <= i < j < r1.len() implies #[trigger] leq(r1[i], r1[j]) by {
            assert(rank_lt(s, r1[i] as int, r1[j] as int));
        }
    }
    assert(sorted_by(r2, leq)) by {
        assert forall|i: int, j: int| 0 <= i < j < r2.len() implies #[trigger] leq(r2[i], r2[j]) by {
            assert(rank_lt(s, r2[i] as int, r2[j] as int));
        }
    }
    lemma_sorted_unique(r1, r2, leq);
    assert(r1 =~= r2);
}

/// Exchanging two positions of a sequence leaves its multiset of
/// elements unchanged.
proof fn lemma_swap_preserves_multiset(s: Seq<usize>, i: int, j: int)
    requires
        0 <= i < s.len(),
        0 <= j < s.len(),
        i != j,
    ensures
        s.update(i, s[j]).update(j, s[i]).to_multiset() == s.to_multiset(),
{
    broadcast use group_to_multiset_ensures;
    broadcast use vstd::multiset::group_multiset_axioms;

    let s1 = s.update(i, s[j]);
    assert(s1[j] == s[j]);
    assert(s1.to_multiset() == s.to_multiset().insert(s[j]).remove(s[i]));
    assert(s1.update(j, s[i]).to_multiset() == s1.to_multiset().insert(s[i]).remove(s1[j]));
    assert(s.to_multiset().contains(s[i]));
    assert(s.update(i, s[j]).update(j, s[i]).to_multiset() =~= s.to_multiset());
}

/// Compares two positions of a pool in the merit order.
fn rank_before(data: &Vec<Rpc>, a: usize, b: usize) -> (r: bool)
    requires
        a < data.len(),
        b < data.len(),
    ensures
        r == rank_lt(pool_view(data@), a as int, b as int),
{
    let ka = data[a].status.latency;
    let kb = data[b].status.latency;
    ka < kb || (ka == kb && a < b)
}

/// The merit order of the pool: all positions of `data`, sorted by
/// ascending latency, ties broken by original position. Pure; does not
/// mutate the records. Deterministic for identical inputs, since only
/// one order satisfies the contract.
pub fn argsort(data: &Vec<Rpc>) -> (r: Vec<usize>)
    ensures
        is_rank_of(pool_view(data@), r@),
{
    broadcast use group_to_multiset_ensures;

    let ghost s = pool_view(data@);
    let n = data.len();
    let mut indices: Vec<usize> = Vec::new();
    let mut i: usize = 0;
    while i < n
        invariant
            i <= n,
            n == data.len(),
            indices@ =~= position_seq(i as nat),
        decreases n - i,
    {
        indices.push(i);
        proof {
            assert(indices@ =~= position_seq((i + 1) as nat));
        }
        i += 1;
    }
    assert(indices@ =~= position_seq(s.len()));

    let mut i: usize = 1;
    while i < n
        invariant
            1 <= i,
            i <= n || n == 0,
            n == data.len(),
            s == pool_view(data@),
            indices@.len() == n,
            forall|k: int| 0 <= k < n ==> (#[trigger] indices@[k]) < n,
            indices@.to_multiset() == position_seq(s.len()).to_multiset(),
            forall|k1: int, k2: int|
                0 <= k1 < k2 < n ==> (#[trigger] indices@[k1]) != (#[trigger] indices@[k2]),
            forall|k1: int, k2: int|
                0 <= k1 < k2 < i ==> rank_lt(s, #[trigger] indices@[k1] as int, #[trigger] indices@[k2] as int),
        decreases n - i,
    {
        let mut j: usize = i;
        while j > 0 && rank_before(data, indices[j], indices[j - 1])
            invariant
                j <= i,
                i < n,
                n == data.len(),
                s == pool_view(data@),
                indices@.len() == n,
                forall|k: int| 0 <= k < n ==> (#[trigger] indices@[k]) < n,
                indices@.to_multiset() == position_seq(s.len()).to_multiset(),
                forall|k1: int, k2: int|
                    0 <= k1 < k2 < n ==> (#[trigger] indices@[k1]) != (#[trigger] indices@[k2]),
                forall|k1: int, k2: int|
                    0 <= k1 < k2 <= i && k2 != j ==> rank_lt(
                        s,
                        #[trigger] indices@[k1] as int,
                        #[trigger] indices@[k2] as int,
                    ),
            decreases j,
        {
            let ghost pre = indices@;
            let a = indices[j];
            let b = indices[j - 1];
            indices[j] = b;
            indices[j - 1] = a;
            proof {
                assert(indices@ =~= pre.update(j as int, pre[j - 1]).update(j - 1, pre[j as int]));
                lemma_swap_preserves_multiset(pre, j as int, j - 1);
                // the moved element stays ordered before its old predecessor
                assert(rank_lt(s, pre[j as int] as int, pre[j - 1] as int));
            }
            j -= 1;
        }
        proof {
            // the prefix 0 ..= i is now fully sorted: positions below j
            // reach the element at j through its old predecessor
            assert forall|k1: int, k2: int| 0 <= k1 < k2 <= i implies rank_lt(
                s,
                #[trigger] indices@[k1] as int,
                #[trigger] indices@[k2] as int,
            ) by {
                if k2 == j {
                    assert(j > 0 ==> !rank_lt(s, indices@[j as int] as int, indices@[j - 1] as int));
                    if k1 < j - 1 {
                        assert(rank_lt(s, indices@[k1] as int, indices@[j - 1] as int));
                    }
                }
            }
        }
        i += 1;
    }
    proof {
        if n == 0 {
            assert(indices@ =~= position_seq(s.len()));
        }
        assert(is_rank_of(s, indices@));
    }
    indices
}

/// What selection needs of every backend's static configuration: a
/// consecutive budget of at least 1.
pub open spec fn pool_wf(s: Seq<RpcView>) -> bool {
    forall|j: int| 0 <= j < s.len() ==> (#[trigger] s[j]).max_consecutive >= 1
}

/// A backend may be selected at time `now`: it has consecutive budget
/// left and its cooldown window has passed.
pub open spec fn eligible(r: RpcView, now: int) -> bool {
    &&& r.consecutive < r.max_consecutive
    &&& now - r.last_used > r.min_time_delta
}

/// Exec test for `eligible`.
fn is_eligible(r: &Rpc, now: u128) -> (b: bool)
    ensures
        b == eligible(r@, now as int),
{
    r.consecutive < r.max_consecutive && now > r.last_used && now - r.last_used > r.min_time_delta
}

/// The first eligible pool position at or after rank position `k` of
/// the merit order `rk`.
pub open spec fn first_eligible_from(
    s: Seq<RpcView>,
    rk: Seq<usize>,
    now: int,
    k: int,
) -> Option<usize>
    decreases rk.len() - k,
{
    if k < 0 || k >= rk.len() {
        None
    } else if eligible(s[rk[k] as int], now) {
        Some(rk[k])
    } else {
        first_eligible_from(s, rk, now, k + 1)
    }
}

/// The position the selection walk chooses at time `now`: the
/// best-ranked eligible backend, or the fastest backend outright if no
/// backend is eligible.
pub open spec fn chosen_of(s: Seq<RpcView>, now: int) -> usize {
    let rk = rank_of(s);
    match first_eligible_from(s, rk, now, 0) {
        Some(c) => c,
        None => rk[0],
    }
}

/// A record after losing a selection round: its consecutive counter
/// reset, everything else untouched.
pub open spec fn reset_view(r: RpcView) -> RpcView {
    RpcView { consecutive: 0, ..r }
}

/// The chosen record after a selection round: its counter continued (or
/// restarted from 1 on an ineligible fallback) and the selection time
/// stamped.
pub open spec fn chosen_view(r: RpcView, now: int) -> RpcView {
    RpcView {
        consecutive: if eligible(r, now) {
            (r.consecutive + 1) as u32
        } else {
            1u32
        },
        last_used: now as u128,
        ..r
    }
}

/// Relation between a pool before and after one latency-aware weighted
/// round-robin selection at time `now`: the chosen position is
/// `chosen_of`, every other record has its consecutive counter reset,
/// and the chosen record is returned.
pub open spec fn wrr_post(
    pre: Seq<RpcView>,
    post: Seq<RpcView>,
    r: (Rpc, Option<usize>),
    now: int,
) -> bool {
    let c = chosen_of(pre, now);
    &&& is_rank_of(pre, rank_of(pre))
    &&& post.len() == pre.len()
    &&& c < pre.len()
    &&& r.1 == Some(c)
    &&& forall|j: int| 0 <= j < pre.len() && j != c ==> post[j] == reset_view(#[trigger] pre[j])
    &&& post[c as int] == chosen_view(pre[c as int], now)
    &&& r.0@ == post[c as int]
}

/// Latency-aware weighted round robin at an explicit time, the default
/// selection policy: picks the fastest backend that still has
/// consecutive budget and is out of its cooldown window, or the
/// fastest backend outright when none is; resets every other counter.
pub fn algo_at(list: &mut Vec<Rpc>, now: u128) -> (r: (Rpc, Option<usize>))
    requires
        old(list).len() >= 1,
        pool_wf(pool_view(old(list)@)),
    ensures
        wrr_post(pool_view(old(list)@), pool_view(final(list)@), r, now as int),
{
    let ghost s = pool_view(list@);
    let indices = argsort(list);
    proof {
        assert(is_rank_of(s, indices@));
        assert(is_rank_of(s, rank_of(s)));
        lemma_rank_unique(s, indices@, rank_of(s));
    }
    let n = list.len();
    let mut choice: usize = indices[0];
    let mut choice_consecutive: u32 = 0;
    let mut found = false;
    let mut k: usize = 0;
    while k < n
        invariant
            k <= n,
            n == list.len(),
            s == pool_view(list@),
            is_rank_of(s, indices@),
            indices@ == rank_of(s),
            !found ==> {
                &&& first_eligible_from(s, indices@, now as int, 0)
                    == first_eligible_from(s, indices@, now as int, k as int)
                &&& choice == indices@[0]
                &&& choice_consecutive == 0
            },
            found ==> {
                &&& first_eligible_from(s, indices@, now as int, 0) == Some(choice)
                &&& choice < n
                &&& eligible(s[choice as int], now as int)
                &&& choice_consecutive == s[choice as int].consecutive
            },
        decreases n - k,
    {
        if !found {
            let idx = indices[k];
            if is_eligible(&list[idx], now) {
                choice = idx;
                choice_consecutive = list[idx].consecutive;
                found = true;
            }
        }
        k += 1;
    }
    let ghost c = chosen_of(s, now as int);
    proof {
        assert(c == choice);
        assert(!found ==> !eligible(s[c as int], now as int));
    }
    let mut j: usize = 0;
    while j < n
        invariant
            j <= n,
            n == list.len(),
            pool_view(list@).len() == n,
            forall|m: int| 0 <= m < j ==> pool_view(list@)[m] == reset_view(#[trigger] s[m]),
            forall|m: int| j <= m < n ==> pool_view(list@)[m] == #[trigger] s[m],
        decreases n - j,
    {
        list[j].consecutive = 0;
        proof {
            assert(pool_view(list@)[j as int] =~= reset_view(s[j as int]));
        }
        j += 1;
    }
    list[choice].consecutive = choice_consecutive + 1;
    list[choice].last_used = now;
    proof {
        assert(pool_view(list@)[choice as int] =~= chosen_view(s[choice as int], now as int));
    }
    let out = list[choice].clone();
    (out, Some(choice))
}

/// The latency-aware weighted round robin against the live clock.
pub fn algo(list: &mut Vec<Rpc>) -> (r: (Rpc, Option<usize>))
    requires
        old(list).len() >= 1,
        pool_wf(pool_view(old(list)@)),
    ensures
        exists|now: int|
            #[trigger] wrr_post(pool_view(old(list)@), pool_view(final(list)@), r, now),
{
    let now = now_micros();
    let r = algo_at(list, now);
    proof {
        assert(wrr_post(pool_view(old(list)@), pool_view(list@), r, now as int));
    }
    r
}

/// Relation between a pool before and after one uniform-random
/// selection: some backend of the pool is returned, no counter moves.
pub open spec fn random_post(pre: Seq<RpcView>, post: Seq<RpcView>, r: (Rpc, Option<usize>)) -> bool {
    &&& post == pre
    &&& r.1 matches Some(c) && c < pre.len() && r.0@ == pre[c as int]
}

/// Uniform-random selection: a fairness baseline that picks any backend
/// with equal probability and mutates no counter.
pub fn algo_random(list: &mut Vec<Rpc>) -> (r: (Rpc, Option<usize>))
    requires
        old(list).len() >= 1,
    ensures
        final(list)@ == old(list)@,
        random_post(pool_view(old(list)@), pool_view(final(list)@), r),
{
    let mut rng = fresh_rng();
    let index = gen_below(&mut rng, list.len());
    let out = list[index].clone();
    (out, Some(index))
}

/// Relation between a pool before and after one legacy strict weighted
/// round-robin selection: the fastest backend keeps the traffic until
/// it exhausts its consecutive budget, then hands one round to the
/// second-fastest.
pub open spec fn legacy_post(pre: Seq<RpcView>, post: Seq<RpcView>, r: (Rpc, Option<usize>)) -> bool {
    let rk = rank_of(pre);
    let i0 = rk[0] as int;
    let i1 = rk[1] as int;
    &&& is_rank_of(pre, rk)
    &&& post.len() == pre.len()
    &&& if pre[i0].consecutive >= pre[i0].max_consecutive {
        &&& post == pre.update(i1, RpcView { consecutive: 1u32, ..pre[i1] }).update(
            i0,
            RpcView { consecutive: 0u32, ..pre[i0] },
        )
        &&& r.0@ == post[i1]
        &&& r.1 == Some(rk[1])
    } else {
        &&& post == pre.update(
            i0,
            RpcView { consecutive: (pre[i0].consecutive + 1) as u32, ..pre[i0] },
        )
        &&& r.0@ == post[i0]
        &&& r.1 == Some(rk[0])
    }
}

/// Legacy strict weighted round robin: kept for backward compatibility;
/// can starve every backend but the top two.
pub fn algo_legacy(list: &mut Vec<Rpc>) -> (r: (Rpc, Option<usize>))
    requires
        old(list).len() >= 2,
    ensures
        legacy_post(pool_view(old(list)@), pool_view(final(list)@), r),
{
    let ghost s = pool_view(list@);
    let indices = argsort(list);
    proof {
        assert(is_rank_of(s, indices@));
        assert(is_rank_of(s, rank_of(s)));
        lemma_rank_unique(s, indices@, rank_of(s));
        assert(rank_lt(s, indices@[0] as int, indices@[1] as int));
    }
    let i0 = indices[0];
    let i1 = indices[1];
    if list[i0].max_consecutive <= list[i0].consecutive {
        list[i1].consecutive = 1;
        list[i0].consecutive = 0;
        proof {
            assert(pool_view(list@) =~= s.update(i1 as int, RpcView { consecutive: 1u32, ..s[i1 as int] })
                .update(i0 as int, RpcView { consecutive: 0u32, ..s[i0 as int] }));
            assert(pool_view(list@)[i1 as int] =~= RpcView { consecutive: 1u32, ..s[i1 as int] });
        }
        let out = list[i1].clone();
        return (out, Some(i1));
    }
    let cc = list[i0].consecutive;
    list[i0].consecutive = cc + 1;
    proof {
        assert(pool_view(list@) =~= s.update(
            i0 as int,
            RpcView { consecutive: (s[i0 as int].consecutive + 1) as u32, ..s[i0 as int] },
        ));
    }
    let out = list[i0].clone();
    (out, Some(i0))
}

/// Relation between a pool before and after `pick` (or `pick_at` at
/// time `now`): a one-backend pool is returned unconditionally, an
/// empty pool yields the no-backend sentinel, anything larger runs the
/// weighted round-robin walk.
pub open spec fn picked_at(
    pre: Seq<RpcView>,
    post: Seq<RpcView>,
    r: (Rpc, Option<usize>),
    now: int,
) -> bool {
    if pre.len() == 1 {
        &&& post == pre
        &&& r.0@ == pre[0]
        &&& r.1 == Some(0usize)
    } else if pre.len() == 0 {
        &&& post == pre
        &&& is_default_rpc(r.0@)
        &&& r.1 is None
    } else {
        wrr_post(pre, post, r, now)
    }
}

/// `picked_at` at some clock reading.
pub open spec fn picked(pre: Seq<RpcView>, post: Seq<RpcView>, r: (Rpc, Option<usize>)) -> bool {
    exists|now: int| #[trigger] picked_at(pre, post, r, now)
}

/// Selects the next backend of the pool at an explicit time and returns
/// it with its position; the deterministic core of `pick`.
pub fn pick_at(list: &mut Vec<Rpc>, now: u128) -> (r: (Rpc, Option<usize>))
    requires
        pool_wf(pool_view(old(list)@)),
    ensures
        picked_at(pool_view(old(list)@), pool_view(final(list)@), r, now as int),
{
    if list.len() == 1 {
        let out = list[0].clone();
        return (out, Some(0));
    } else if list.len() == 0 {
        return (Rpc::default(), None);
    }
    algo_at(list, now)
}

/// Selects the next backend of the pool and returns it with its
/// position. An empty pool is not an error: it yields the no-backend
/// sentinel and `None`, the signal to fall back to the poverty pool.
/// A one-backend pool is returned unconditionally with position 0.
/// Otherwise the default policy picks the fastest backend that still
/// has consecutive budget and is past its cooldown window; every losing
/// backend leaves the round with a cleared consecutive counter.
pub fn pick(list: &mut Vec<Rpc>) -> (r: (Rpc, Option<usize>))
    requires
        pool_wf(pool_view(old(list)@)),
    ensures
        picked(pool_view(old(list)@), pool_view(final(list)@), r),
        r.1 is None <==> old(list)@.len() == 0,
        r.1 matches Some(c) ==> c < final(list)@.len(),
        // counter reset: after the call every backend except the chosen
        // one has a zeroed consecutive counter
        old(list)@.len() >= 2 ==> (r.1 matches Some(c) ==> forall|j: int|
            0 <= j < pool_view(final(list)@).len() && j != c
                ==> pool_view(final(list)@)[j].consecutive == 0),
        // the consecutive cap holds of every backend once a full
        // selection round has run
        old(list)@.len() >= 2 ==> forall|j: int|
            0 <= j < pool_view(final(list)@).len()
                ==> #[trigger] pool_view(final(list)@)[j].consecutive
                    <= pool_view(final(list)@)[j].max_consecutive,
{
    if list.len() == 1 {
        let out = list[0].clone();
        proof {
            assert(picked_at(pool_view(old(list)@), pool_view(list@), (out, Some(0usize)), 0));
        }
        return (out, Some(0));
    } else if list.len() == 0 {
        let out = Rpc::default();
        proof {
            assert(picked_at(pool_view(old(list)@), pool_view(list@), (out, None::<usize>), 0));
        }
        return (out, None);
    }
    let now = now_micros();
    let r = algo_at(list, now);
    proof {
        let pre = pool_view(old(list)@);
        let post = pool_view(list@);
        assert(picked_at(pre, post, r, now as int));
        let c = chosen_of(pre, now as int);
        assert forall|j: int| 0 <= j < post.len() && j != c implies post[j].consecutive == 0 by {
            assert(post[j] == reset_view(pre[j]));
        }
        assert forall|j: int| 0 <= j < post.len() implies #[trigger] post[j].consecutive
            <= post[j].max_consecutive by {
            assert(pre[j].max_consecutive >= 1);
            if j != c {
                assert(post[j] == reset_view(pre[j]));
            }
        }
    }
    r
}

/// The selection policy chosen once at startup from configuration; all
/// selections of one deployment dispatch through the same variant.
#[derive(Clone, Copy, Debug)]
pub enum SelectionAlgorithm {
    /// Latency-aware weighted round robin, the default.
    WeightedRoundRobin,
    /// Uniform random, a fairness baseline.
    Random,
    /// Legacy strict weighted round robin.
    LegacyWeightedRoundRobin,
}

/// Relation between a pool before and after `pick_with`.
pub open spec fn picked_with(
    algorithm: SelectionAlgorithm,
    pre: Seq<RpcView>,
    post: Seq<RpcView>,
    r: (Rpc, Option<usize>),
) -> bool {
    if pre.len() == 1 {
        &&& post == pre
        &&& r.0@ == pre[0]
        &&& r.1 == Some(0usize)
    } else if pre.len() == 0 {
        &&& post == pre
        &&& is_default_rpc(r.0@)
        &&& r.1 is None
    } else {
        match algorithm {
            SelectionAlgorithm::WeightedRoundRobin => exists|now: int|
                #[trigger] wrr_post(pre, post, r, now),
            SelectionAlgorithm::Random => random_post(pre, post, r),
            SelectionAlgorithm::LegacyWeightedRoundRobin => legacy_post(pre, post, r),
        }
    }
}

/// What the walk's scan guarantees: a `Some` result is the first
/// eligible position of the merit order, a `None` result means no
/// position at or after `k` is eligible.
proof fn lemma_first_eligible_props(s: Seq<RpcView>, rk: Seq<usize>, now: int, k: int)
    requires
        0 <= k <= rk.len(),
    ensures
        first_eligible_from(s, rk, now, k) is None ==> forall|m: int|
            k <= m < rk.len() ==> !eligible(s[#[trigger] rk[m] as int], now),
        first_eligible_from(s, rk, now, k) matches Some(c) ==> exists|m: int|
            {
                &&& k <= m < rk.len()
                &&& #[trigger] rk[m] == c
                &&& eligible(s[c as int], now)
                &&& forall|m2: int| k <= m2 < m ==> !eligible(s[#[trigger] rk[m2] as int], now)
            },
    decreases rk.len() - k,
{
    if k < rk.len() {
        if eligible(s[rk[k] as int], now) {
            assert(first_eligible_from(s, rk, now, k) == Some(rk[k]));
            let m = k;
            assert({
                &&& k <= m < rk.len()
                &&& rk[m] == rk[k]
                &&& eligible(s[rk[k] as int], now)
                &&& forall|m2: int| k <= m2 < m ==> !eligible(s[#[trigger] rk[m2] as int], now)
            });
        } else {
            lemma_first_eligible_props(s, rk, now, k + 1);
            match first_eligible_from(s, rk, now, k + 1) {
                Some(c) => {
                    let m = choose|m: int|
                        {
                            &&& k + 1 <= m < rk.len()
                            &&& #[trigger] rk[m] == c
                            &&& eligible(s[c as int], now)
                            &&& forall|m2: int|
                                k + 1 <= m2 < m ==> !eligible(s[#[trigger] rk[m2] as int], now)
                        };
                    assert({
                        &&& k <= m < rk.len()
                        &&& rk[m] == c
                        &&& eligible(s[c as int], now)
                        &&& forall|m2: int|
                            k <= m2 < m ==> !eligible(s[#[trigger] rk[m2] as int], now)
                    });
                },
                None => {},
            }
        }
    }
}

/// Every position of the pool occurs in its merit order.
proof fn lemma_rank_covers(s: Seq<RpcView>, rk: Seq<usize>, j: usize)
    requires
        is_rank_of(s, rk),
        (j as int) < s.len(),
    ensures
        exists|m: int| 0 <= m < rk.len() && #[trigger] rk[m] == j,
{
    broadcast use group_to_multiset_ensures;

    let ids = position_seq(s.len());
    assert(ids[j as int] == j);
    assert(ids.contains(j));
    assert(ids.to_multiset().count(j) > 0);
    assert(rk.to_multiset().count(j) > 0);
    assert(rk.contains(j));
}

/// If any backend of the pool is eligible at `now`, the selected one is
/// eligible too; selection falls back to an ineligible backend only
/// when it must.
pub proof fn lemma_chosen_eligible(pre: Seq<RpcView>, now: int, j: int)
    requires
        is_rank_of(pre, rank_of(pre)),
        pre.len() <= usize::MAX,
        0 <= j < pre.len(),
        eligible(pre[j], now),
    ensures
        eligible(pre[chosen_of(pre, now) as int], now),
{
    let rk = rank_of(pre);
    lemma_first_eligible_props(pre, rk, now, 0);
    lemma_rank_covers(pre, rk, j as usize);
    if first_eligible_from(pre, rk, now, 0) is None {
        let m = choose|m: int| 0 <= m < rk.len() && #[trigger] rk[m] == j as usize;
        assert(!eligible(pre[rk[m] as int], now));
        assert(false);
    }
}

/// Cooldown respected: a backend whose last selection lies within its
/// minimum time delta of `now` is never chosen while any eligible
/// backend exists.
pub proof fn lemma_cooldown_respected(
    pre: Seq<RpcView>,
    post: Seq<RpcView>,
    r: (Rpc, Option<usize>),
    now: int,
    i: int,
    j: int,
)
    requires
        wrr_post(pre, post, r, now),
        pre.len() <= usize::MAX,
        0 <= i < pre.len(),
        0 <= j < pre.len(),
        !(now - pre[i].last_used > pre[i].min_time_delta),
        eligible(pre[j], now),
    ensures
        r.1 != Some(i as usize),
{
    lemma_chosen_eligible(pre, now, j);
    let c = chosen_of(pre, now);
    assert(!eligible(pre[i], now));
    assert(c as int != i);
}

/// Consecutive cap respected: a backend that has exhausted its
/// consecutive budget is never chosen while any eligible backend
/// exists.
pub proof fn lemma_cap_respected(
    pre: Seq<RpcView>,
    post: Seq<RpcView>,
    r: (Rpc, Option<usize>),
    now: int,
    i: int,
    j: int,
)
    requires
        wrr_post(pre, post, r, now),
        pre.len() <= usize::MAX,
        0 <= i < pre.len(),
        0 <= j < pre.len(),
        pre[i].consecutive >= pre[i].max_consecutive,
        eligible(pre[j], now),
    ensures
        r.1 != Some(i as usize),
{
    lemma_chosen_eligible(pre, now, j);
    let c = chosen_of(pre, now);
    assert(!eligible(pre[i], now));
    assert(c as int != i);
}

/// Latency ordering: the chosen backend has the lowest latency among
/// all eligible backends of the pool.
pub proof fn lemma_chosen_fastest(
    pre: Seq<RpcView>,
    post: Seq<RpcView>,
    r: (Rpc, Option<usize>),
    now: int,
    j: int,
)
    requires
        wrr_post(pre, post, r, now),
        pre.len() <= usize::MAX,
        0 <= j < pre.len(),
        eligible(pre[j], now),
    ensures
        latency_key(pre[chosen_of(pre, now) as int]) <= latency_key(pre[j]),
{
    let rk = rank_of(pre);
    let c = chosen_of(pre, now);
    lemma_first_eligible_props(pre, rk, now, 0);
    lemma_rank_covers(pre, rk, j as usize);
    let mj = choose|m: int| 0 <= m < rk.len() && #[trigger] rk[m] == j as usize;
    if first_eligible_from(pre, rk, now, 0) is None {
        assert(!eligible(pre[rk[mj] as int], now));
        assert(false);
    }
    let mc = choose|m: int|
        {
            &&& 0 <= m < rk.len()
            &&& #[trigger] rk[m] == c
            &&& eligible(pre[c as int], now)
            &&& forall|m2: int| 0 <= m2 < m ==> !eligible(pre[#[trigger] rk[m2] as int], now)
        };
    if mj < mc {
        assert(!eligible(pre[rk[mj] as int], now));
        assert(false);
    }
    if mj == mc {
        assert(c == j as usize);
    } else {
        assert(rank_lt(pre, rk[mc] as int, rk[mj] as int));
    }
}

/// The single selection entry point: handles the empty and one-backend
/// pools, then dispatches to the configured policy.
pub fn pick_with(algorithm: &SelectionAlgorithm, list: &mut Vec<Rpc>) -> (r: (Rpc, Option<usize>))
    requires
        pool_wf(pool_view(old(list)@)),
    ensures
        picked_with(*algorithm, pool_view(old(list)@), pool_view(final(list)@), r),
{
    if list.len() == 1 {
        let out = list[0].clone();
        return (out, Some(0));
    } else if list.len() == 0 {
        return (Rpc::default(), None);
    }
    match algorithm {
        SelectionAlgorithm::WeightedRoundRobin => algo(list),
        SelectionAlgorithm::Random => algo_random(list),
        SelectionAlgorithm::LegacyWeightedRoundRobin => algo_legacy(list),
    }
}

} // verus!
