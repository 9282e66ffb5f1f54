//! The two-pool partition of the backend set.
//!
//! Every backend is at any instant a member of exactly one of two
//! pools: the active pool, eligible for normal selection, and the
//! poverty pool, demoted and used only as last resort. Membership moves
//! only through `demote` and `promote`, each a single atomic move of
//! one record, so no backend is ever observable in both pools or in
//! neither.

use vstd::prelude::*;
use vstd::seq_lib::group_to_multiset_ensures;
use vstd::multiset::Multiset;
use crate::rpc::Rpc;
use crate::rpc::RpcView;
use crate::rpc::pool_view;
use crate::selection::wrr_post;
use crate::selection::reset_view;
use crate::selection::chosen_view;
use crate::selection::chosen_of;

verus! {

/// The backend set, partitioned into the active and the poverty pool.
#[derive(Debug)]
pub struct Pools {
    /// Backends eligible for normal selection.
    pub active: Vec<Rpc>,
    /// Demoted backends, used only as fallback.
    pub poverty: Vec<Rpc>,
}

/// Mathematical model of the partition.
#[verifier::ext_equal]
pub ghost struct PoolsView {
    pub active: Seq<RpcView>,
    pub poverty: Seq<RpcView>,
}

impl View for Pools {
    type V = PoolsView;

    open spec fn view(&self) -> PoolsView {
        PoolsView { active: pool_view(self.active@), poverty: pool_view(self.poverty@) }
    }
}

/// The multiset of backend identities of one pool.
pub open spec fn url_multiset(s: Seq<RpcView>) -> Multiset<Seq<char>> {
    s.map_values(|r: RpcView| r.url).to_multiset()
}

/// The combined membership of the partition: each backend identity with
/// the number of records holding it, across both pools.
pub open spec fn members(p: PoolsView) -> Multiset<Seq<char>> {
    url_multiset(p.active).add(url_multiset(p.poverty))
}

/// A record moved back into service: counters cleared and the last
/// selection forgotten, so it is immediately eligible again.
pub open spec fn revived_view(r: RpcView) -> RpcView {
    RpcView { consecutive: 0, last_used: 0, ..r }
}

impl Pools {
    /// The startup partition, as the initial health checks seeded it.
    pub fn new(active: Vec<Rpc>, poverty: Vec<Rpc>) -> (p: Pools)
        ensures
            p@.active == pool_view(active@),
            p@.poverty == pool_view(poverty@),
    {
        Pools { active, poverty }
    }

    /// Demotes one active backend: a single atomic move of its record,
    /// unchanged, to the end of the poverty pool.
    pub fn demote(&mut self, index: usize)
        requires
            index < old(self).active.len(),
        ensures
            final(self)@.active == old(self)@.active.remove(index as int),
            final(self)@.poverty == old(self)@.poverty.push(old(self)@.active[index as int]),
    {
        let r = self.active.remove(index);
        self.poverty.push(r);
        proof {
            assert(pool_view(self.active@) =~= pool_view(old(self).active@).remove(index as int));
            assert(pool_view(self.poverty@) =~= pool_view(old(self).poverty@).push(
                pool_view(old(self).active@)[index as int],
            ));
        }
    }

    /// Promotes one poverty backend: a single atomic move of its record
    /// to the end of the active pool, with its consecutive counter
    /// reset and its last selection forgotten.
    pub fn promote(&mut self, index: usize)
        requires
            index < old(self).poverty.len(),
        ensures
            final(self)@.poverty == old(self)@.poverty.remove(index as int),
            final(self)@.active == old(self)@.active.push(
                revived_view(old(self)@.poverty[index as int]),
            ),
    {
        let mut r = self.poverty.remove(index);
        r.consecutive = 0;
        r.last_used = 0;
        self.active.push(r);
        proof {
            assert(pool_view(self.poverty@) =~= pool_view(old(self).poverty@).remove(index as int));
            assert(pool_view(self.active@) =~= pool_view(old(self).active@).push(
                revived_view(pool_view(old(self).poverty@)[index as int]),
            ));
        }
    }
}

/// Removing a record from a pool removes exactly its identity from the
/// pool's membership.
proof fn lemma_url_multiset_remove(s: Seq<RpcView>, i: int)
    requires
        0 <= i < s.len(),
    ensures
        url_multiset(s.remove(i)) == url_multiset(s).remove(s[i].url),
{
    broadcast use group_to_multiset_ensures;

    let f = |r: RpcView| r.url;
    assert(s.remove(i).map_values(f) =~= s.map_values(f).remove(i));
    assert(s.map_values(f)[i] == s[i].url);
}

/// Appending a record to a pool adds exactly its identity to the
/// pool's membership.
proof fn lemma_url_multiset_push(s: Seq<RpcView>, r: RpcView)
    ensures
        url_multiset(s.push(r)) == url_multiset(s).insert(r.url),
{
    broadcast use group_to_multiset_ensures;

    let f = |x: RpcView| x.url;
    assert(s.push(r).map_values(f) =~= s.map_values(f).push(r.url));
}

/// Demotion is atomic with respect to membership: the combined
/// membership of the partition is unchanged, so the moved backend is
/// at no instant in both pools or in neither.
pub proof fn lemma_demote_atomic(pre: PoolsView, post: PoolsView, i: int)
    requires
        0 <= i < pre.active.len(),
        post.active == pre.active.remove(i),
        post.poverty == pre.poverty.push(pre.active[i]),
    ensures
        members(post) == members(pre),
{
    broadcast use group_to_multiset_ensures;
    broadcast use vstd::multiset::group_multiset_axioms;

    lemma_url_multiset_remove(pre.active, i);
    lemma_url_multiset_push(pre.poverty, pre.active[i]);
    let u = pre.active[i].url;
    assert(pre.active.map_values(|r: RpcView| r.url)[i] == u);
    assert(url_multiset(pre.active).contains(u));
    assert(members(post) =~= members(pre));
}

/// Promotion is atomic with respect to membership, exactly as demotion.
pub proof fn lemma_promote_atomic(pre: PoolsView, post: PoolsView, i: int)
    requires
        0 <= i < pre.poverty.len(),
        post.poverty == pre.poverty.remove(i),
        post.active == pre.active.push(revived_view(pre.poverty[i])),
    ensures
        members(post) == members(pre),
{
    broadcast use group_to_multiset_ensures;
    broadcast use vstd::multiset::group_multiset_axioms;

    lemma_url_multiset_remove(pre.poverty, i);
    lemma_url_multiset_push(pre.active, revived_view(pre.poverty[i]));
    let u = pre.poverty[i].url;
    assert(revived_view(pre.poverty[i]).url == u);
    assert(pre.poverty.map_values(|r: RpcView| r.url)[i] == u);
    assert(url_multiset(pre.poverty).contains(u));
    assert(members(post) =~= members(pre));
}

/// A selection round touches no membership: whatever time it ran at,
/// `pick` leaves every backend in the pool it was in, under the same
/// identity.
pub proof fn lemma_pick_preserves_membership(
    pre: Seq<RpcView>,
    post: Seq<RpcView>,
    r: (Rpc, Option<usize>),
    now: int,
)
    requires
        wrr_post(pre, post, r, now),
    ensures
        url_multiset(post) == url_multiset(pre),
{
    let c = chosen_of(pre, now);
    assert forall|j: int| 0 <= j < post.len() implies (#[trigger] post[j]).url == pre[j].url by {
        if j == c {
            assert(post[j] == chosen_view(pre[j], now));
        } else {
            assert(post[j] == reset_view(pre[j]));
        }
    }
    let f = |x: RpcView| x.url;
    assert(post.map_values(f) =~= pre.map_values(f));
}

} // verus!
