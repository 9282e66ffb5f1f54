//! Health monitoring: latency smoothing, probe-failure runs, and the
//! promotion/demotion decisions over the pool partition.
//!
//! The monitor itself is a background loop that probes backends over
//! the network; the probing stays outside this crate. Every decision it
//! takes is here, as a function from the probe's result to the next
//! state of the records and the partition.

use vstd::prelude::*;
use vstd::arithmetic::div_mod::lemma_div_is_ordered;
use vstd::arithmetic::div_mod::lemma_div_multiples_vanish;
use vstd::arithmetic::mul::lemma_mul_inequality;
use crate::rpc::Rpc;
use crate::rpc::RpcView;
use crate::rpc::StatusView;
use crate::rpc::pool_view;
use crate::rpc::sum_of;
use crate::rpc::wf_rpc;
use crate::pools::Pools;
use crate::pools::revived_view;
use crate::selection::argsort;
use crate::selection::is_rank_of;
use crate::selection::rank_of;
use crate::selection::lemma_rank_unique;

verus! {

/// The smoothing window after one more sample: the sample appended,
/// then at most the last `ma` samples kept.
pub open spec fn new_window(w: Seq<u64>, ma: int, sample: u64) -> Seq<u64> {
    let p = w.push(sample);
    if p.len() > ma {
        p.subrange(p.len() - ma, p.len() as int)
    } else {
        p
    }
}

/// The windowed moving average: the integer mean of the samples.
pub open spec fn window_average(w: Seq<u64>) -> int
    recommends
        w.len() > 0,
{
    sum_of(w) / (w.len() as int)
}

/// A record after one more round-trip measurement: the sample folded
/// into the window, the smoothed latency recomputed.
pub open spec fn measured_view(r: RpcView, sample: u64) -> RpcView {
    let w = new_window(r.status.latency_data, r.ma_length as int, sample);
    RpcView {
        status: StatusView {
            latency: window_average(w) as u64,
            latency_data: w,
            ..r.status
        },
        ..r
    }
}

/// A record after one failed probe: its failure run one longer
/// (saturating), nothing else touched.
pub open spec fn failed_view(r: RpcView) -> RpcView {
    RpcView {
        status: StatusView {
            failed_probes: if r.status.failed_probes < u32::MAX {
                (r.status.failed_probes + 1) as u32
            } else {
                u32::MAX
            },
            ..r.status
        },
        ..r
    }
}

/// A record after one successful probe: the measurement folded in and
/// its failure run ended.
pub open spec fn recovered_view(r: RpcView, sample: u64) -> RpcView {
    let m = measured_view(r, sample);
    RpcView { status: StatusView { failed_probes: 0, ..m.status }, ..m }
}

/// The sum of a window is at most its length times the largest sample.
proof fn lemma_sum_bound(w: Seq<u64>)
    ensures
        0 <= sum_of(w) <= w.len() * (u64::MAX as int),
    decreases w.len(),
{
    if w.len() == 0 {
    } else {
        lemma_sum_bound(w.drop_last());
        lemma_mul_inequality(w.len() - 1, w.len() as int, u64::MAX as int);
    }
}

/// The sum of a window of samples all at or above a bound.
proof fn lemma_sum_lower(w: Seq<u64>, bound: u64)
    requires
        forall|i: int| 0 <= i < w.len() ==> (#[trigger] w[i]) >= bound,
    ensures
        sum_of(w) >= w.len() * bound,
    decreases w.len(),
{
    if w.len() == 0 {
    } else {
        lemma_sum_lower(w.drop_last(), bound);
        assert(w.len() * bound == (w.len() - 1) * bound + bound) by (nonlinear_arith);
    }
}

/// The sum of a window of samples all at or below a bound.
proof fn lemma_sum_upper(w: Seq<u64>, bound: u64)
    requires
        forall|i: int| 0 <= i < w.len() ==> (#[trigger] w[i]) <= bound,
    ensures
        sum_of(w) <= w.len() * bound,
    decreases w.len(),
{
    if w.len() == 0 {
    } else {
        lemma_sum_upper(w.drop_last(), bound);
        assert(w.len() * bound == (w.len() - 1) * bound + bound) by (nonlinear_arith);
    }
}

/// The moving average is responsive: once a sustained run of samples
/// has filled the window at or above a bound, the smoothed latency sits
/// at or above it too, and likewise from below.
pub proof fn lemma_average_responsive(w: Seq<u64>, bound: u64)
    requires
        w.len() > 0,
    ensures
        (forall|i: int| 0 <= i < w.len() ==> (#[trigger] w[i]) >= bound) ==> window_average(w)
            >= bound,
        (forall|i: int| 0 <= i < w.len() ==> (#[trigger] w[i]) <= bound) ==> window_average(w)
            <= bound,
{
    let len = w.len() as int;
    if forall|i: int| 0 <= i < w.len() ==> (#[trigger] w[i]) >= bound {
        lemma_sum_lower(w, bound);
        lemma_div_is_ordered(len * bound, sum_of(w), len);
        lemma_div_multiples_vanish(bound as int, len);
    }
    if forall|i: int| 0 <= i < w.len() ==> (#[trigger] w[i]) <= bound {
        lemma_sum_upper(w, bound);
        lemma_div_is_ordered(sum_of(w), len * bound, len);
        lemma_div_multiples_vanish(bound as int, len);
    }
}

/// `sum_of` over a prefix grows by the next element.
proof fn lemma_sum_prefix(w: Seq<u64>, i: int)
    requires
        0 <= i < w.len(),
    ensures
        sum_of(w.subrange(0, i + 1)) == sum_of(w.subrange(0, i)) + w[i],
{
    assert(w.subrange(0, i + 1).drop_last() =~= w.subrange(0, i));
    assert(w.subrange(0, i + 1).last() == w[i]);
}

impl Rpc {
    /// Folds one observed round-trip time into the moving average: the
    /// sample joins the window, the oldest sample leaves once the
    /// window is full, and the smoothed latency becomes the window's
    /// integer mean. A run of growing samples thus eventually raises
    /// the smoothed latency, and a run of shrinking ones lowers it.
    pub fn update_latency(&mut self, sample: u64)
        requires
            wf_rpc(old(self)@),
        ensures
            final(self)@ == measured_view(old(self)@, sample),
            wf_rpc(final(self)@),
    {
        let ghost pre = self@;
        if self.status.latency_data.len() == self.ma_length {
            self.status.latency_data.remove(0);
        }
        self.status.latency_data.push(sample);
        proof {
            assert(self.status.latency_data@ =~= new_window(
                pre.status.latency_data,
                pre.ma_length as int,
                sample,
            ));
        }
        let ghost w = self.status.latency_data@;
        let n = self.status.latency_data.len();
        let mut sum: u128 = 0;
        let mut i: usize = 0;
        proof {
            assert(w.subrange(0, 0) =~= Seq::<u64>::empty());
        }
        while i < n
            invariant
                i <= n,
                n == self.status.latency_data.len(),
                w == self.status.latency_data@,
                sum == sum_of(w.subrange(0, i as int)),
                sum <= (i as int) * (u64::MAX as int),
            decreases n - i,
        {
            proof {
                lemma_sum_prefix(w, i as int);
                lemma_mul_inequality(i as int, n as int, u64::MAX as int);
                assert((n as int) * (u64::MAX as int) <= (usize::MAX as int) * (u64::MAX as int));
            }
            sum = sum + (self.status.latency_data[i] as u128);
            i += 1;
            proof {
                lemma_mul_inequality(i - 1, i as int, u64::MAX as int);
            }
        }
        proof {
            assert(w.subrange(0, n as int) =~= w);
            lemma_sum_bound(w);
            lemma_div_is_ordered(sum_of(w), w.len() * (u64::MAX as int), w.len() as int);
            lemma_div_multiples_vanish(u64::MAX as int, w.len() as int);
            assert(w.len() * (u64::MAX as int) == (w.len() as int) * (u64::MAX as int));
            assert(window_average(w) <= u64::MAX as int);
        }
        let avg = sum / (n as u128);
        self.status.latency = avg as u64;
        proof {
            assert(self@ =~= measured_view(pre, sample));
        }
    }

    /// Ends the failure run and folds the successful probe's
    /// measurement in.
    pub fn record_success(&mut self, sample: u64)
        requires
            wf_rpc(old(self)@),
        ensures
            final(self)@ == recovered_view(old(self)@, sample),
            wf_rpc(final(self)@),
    {
        self.status.failed_probes = 0;
        self.update_latency(sample);
        proof {
            assert(self@ =~= recovered_view(old(self)@, sample));
        }
    }

    /// Records one failed probe (connection refused, timeout, malformed
    /// response): the failure run grows by one, saturating; a failed
    /// probe is never fatal.
    pub fn record_failure(&mut self)
        ensures
            final(self)@ == failed_view(old(self)@),
    {
        if self.status.failed_probes < u32::MAX {
            self.status.failed_probes = self.status.failed_probes + 1;
        }
        proof {
            assert(self@ =~= failed_view(old(self)@));
        }
    }

    /// Whether the failure run has exceeded the configured bound.
    pub fn should_demote(&self, threshold: u32) -> (b: bool)
        ensures
            b == (self@.status.failed_probes > threshold),
    {
        self.status.failed_probes > threshold
    }
}

/// The records of the first `n` backends whose startup probe
/// succeeded, in configuration order, each with its measurement folded
/// in.
pub open spec fn probed_successes(s: Seq<RpcView>, probes: Seq<Option<u64>>, n: int) -> Seq<
    RpcView,
>
    decreases n,
{
    if n <= 0 {
        Seq::<RpcView>::empty()
    } else {
        let rest = probed_successes(s, probes, n - 1);
        match probes[n - 1] {
            Some(ms) => rest.push(recovered_view(s[n - 1], ms)),
            None => rest,
        }
    }
}

/// The records of the first `n` backends whose startup probe failed
/// (unreachable at startup), unchanged, in configuration order.
pub open spec fn probed_failures(s: Seq<RpcView>, probes: Seq<Option<u64>>, n: int) -> Seq<RpcView>
    decreases n,
{
    if n <= 0 {
        Seq::<RpcView>::empty()
    } else {
        let rest = probed_failures(s, probes, n - 1);
        match probes[n - 1] {
            Some(ms) => rest,
            None => rest.push(s[n - 1]),
        }
    }
}

/// A pool reordered by a merit order.
pub open spec fn apply_rank(s: Seq<RpcView>, rk: Seq<usize>) -> Seq<RpcView> {
    Seq::new(rk.len(), |k: int| s[rk[k] as int])
}

/// What the monitor did with a probed backend.
#[derive(Clone, Copy, Debug, PartialEq, Eq, Structural)]
pub enum MonitorAction {
    /// The backend moved active to poverty.
    Demoted,
    /// The backend moved poverty to active.
    Promoted,
    /// The backend stayed in its pool.
    Kept,
}

impl Pools {
    /// Seeds the partition from the synchronous startup probes:
    /// backends with a successful probe enter the active pool in merit
    /// order (fastest first), backends unreachable at startup start
    /// directly in poverty, unchanged and in configuration order.
    pub fn seed(list: &Vec<Rpc>, probes: &Vec<Option<u64>>) -> (p: Pools)
        requires
            probes@.len() == list@.len(),
            forall|j: int| 0 <= j < list@.len() ==> wf_rpc(#[trigger] pool_view(list@)[j]),
        ensures
            ({
                let s = pool_view(list@);
                let succ = probed_successes(s, probes@, s.len() as int);
                &&& is_rank_of(succ, rank_of(succ))
                &&& p@.active == apply_rank(succ, rank_of(succ))
                &&& p@.poverty == probed_failures(s, probes@, s.len() as int)
            }),
    {
        let ghost s = pool_view(list@);
        let n = list.len();
        let mut reachable: Vec<Rpc> = Vec::new();
        let mut poverty: Vec<Rpc> = Vec::new();
        let mut i: usize = 0;
        while i < n
            invariant
                i <= n,
                n == list@.len(),
                s == pool_view(list@),
                probes@.len() == n,
                forall|j: int| 0 <= j < n ==> wf_rpc(#[trigger] s[j]),
                pool_view(reachable@) =~= probed_successes(s, probes@, i as int),
                pool_view(poverty@) =~= probed_failures(s, probes@, i as int),
            decreases n - i,
        {
            match probes[i] {
                Some(ms) => {
                    let mut r = list[i].clone();
                    proof {
                        assert(r@ == s[i as int]);
                        assert(wf_rpc(s[i as int]));
                    }
                    r.record_success(ms);
                    reachable.push(r);
                },
                None => {
                    poverty.push(list[i].clone());
                },
            }
            proof {
                assert(pool_view(reachable@) =~= probed_successes(s, probes@, i + 1));
                assert(pool_view(poverty@) =~= probed_failures(s, probes@, i + 1));
            }
            i += 1;
        }
        let ghost succ = probed_successes(s, probes@, n as int);
        let indices = argsort(&reachable);
        proof {
            assert(is_rank_of(succ, indices@));
            assert(is_rank_of(succ, rank_of(succ)));
            lemma_rank_unique(succ, indices@, rank_of(succ));
        }
        let m = reachable.len();
        let mut active: Vec<Rpc> = Vec::new();
        let mut k: usize = 0;
        while k < m
            invariant
                k <= m,
                m == reachable@.len(),
                active@.len() == k,
                succ == pool_view(reachable@),
                is_rank_of(succ, indices@),
                pool_view(active@) =~= apply_rank(succ, indices@).subrange(0, k as int),
            decreases m - k,
        {
            proof {
                assert(indices@[k as int] < m);
            }
            active.push(reachable[indices[k]].clone());
            proof {
                let newv = pool_view(active@);
                let want = apply_rank(succ, indices@).subrange(0, k as int + 1);
                assert(newv.len() == want.len());
                assert forall|t: int| 0 <= t < newv.len() implies newv[t] == want[t] by {
                    if t < k {
                        assert(newv[t] == apply_rank(succ, indices@).subrange(0, k as int)[t]);
                    } else {
                        assert(newv[t] == succ[indices@[k as int] as int]);
                        assert(want[t] == apply_rank(succ, indices@)[k as int]);
                    }
                }
                assert(pool_view(active@) =~= apply_rank(succ, indices@).subrange(0, k + 1));
            }
            k += 1;
        }
        proof {
            assert(pool_view(active@) =~= apply_rank(succ, indices@));
        }
        Pools { active, poverty }
    }

    /// Folds one probe result on active backend `index`. A measurement
    /// updates the record in place; a failure grows its failure run
    /// and, once the run exceeds `threshold`, demotes the backend in
    /// one atomic move.
    pub fn probe_active(&mut self, index: usize, rtt: Option<u64>, threshold: u32) -> (a:
        MonitorAction)
        requires
            index < old(self).active.len(),
            wf_rpc(old(self)@.active[index as int]),
        ensures
            match rtt {
                Some(ms) => {
                    &&& a == MonitorAction::Kept
                    &&& final(self)@.active == old(self)@.active.update(
                        index as int,
                        recovered_view(old(self)@.active[index as int], ms),
                    )
                    &&& final(self)@.poverty == old(self)@.poverty
                },
                None => {
                    let bumped = failed_view(old(self)@.active[index as int]);
                    if bumped.status.failed_probes > threshold {
                        &&& a == MonitorAction::Demoted
                        &&& final(self)@.active == old(self)@.active.remove(index as int)
                        &&& final(self)@.poverty == old(self)@.poverty.push(bumped)
                    } else {
                        &&& a == MonitorAction::Kept
                        &&& final(self)@.active == old(self)@.active.update(index as int, bumped)
                        &&& final(self)@.poverty == old(self)@.poverty
                    }
                },
            },
    {
        let ghost pre = self@;
        match rtt {
            Some(ms) => {
                let mut r = self.active[index].clone();
                r.record_success(ms);
                self.active[index] = r;
                proof {
                    assert(pool_view(self.active@) =~= pre.active.update(
                        index as int,
                        recovered_view(pre.active[index as int], ms),
                    ));
                }
                MonitorAction::Kept
            },
            None => {
                let mut r = self.active[index].clone();
                r.record_failure();
                let demote_now = r.should_demote(threshold);
                self.active[index] = r;
                proof {
                    assert(pool_view(self.active@) =~= pre.active.update(
                        index as int,
                        failed_view(pre.active[index as int]),
                    ));
                }
                if demote_now {
                    let ghost mid = self@;
                    self.demote(index);
                    proof {
                        assert(self@.active =~= pre.active.remove(index as int));
                    }
                    MonitorAction::Demoted
                } else {
                    MonitorAction::Kept
                }
            },
        }
    }

    /// Folds one re-probe result on poverty backend `index`. A
    /// successful probe whose resulting smoothed latency is within the
    /// sanity bound promotes the backend in one atomic move, eligible
    /// again at once; anything else leaves it in poverty.
    pub fn probe_poverty(&mut self, index: usize, rtt: Option<u64>, sanity_bound: u64) -> (a:
        MonitorAction)
        requires
            index < old(self).poverty.len(),
            wf_rpc(old(self)@.poverty[index as int]),
        ensures
            match rtt {
                Some(ms) => {
                    let measured = recovered_view(old(self)@.poverty[index as int], ms);
                    if measured.status.latency <= sanity_bound {
                        &&& a == MonitorAction::Promoted
                        &&& final(self)@.poverty == old(self)@.poverty.remove(index as int)
                        &&& final(self)@.active == old(self)@.active.push(revived_view(measured))
                    } else {
                        &&& a == MonitorAction::Kept
                        &&& final(self)@.poverty == old(self)@.poverty.update(
                            index as int,
                            measured,
                        )
                        &&& final(self)@.active == old(self)@.active
                    }
                },
                None => {
                    &&& a == MonitorAction::Kept
                    &&& final(self)@.poverty == old(self)@.poverty.update(
                        index as int,
                        failed_view(old(self)@.poverty[index as int]),
                    )
                    &&& final(self)@.active == old(self)@.active
                },
            },
    {
        let ghost pre = self@;
        match rtt {
            Some(ms) => {
                let mut r = self.poverty[index].clone();
                r.record_success(ms);
                let plausible = r.status.latency <= sanity_bound;
                self.poverty[index] = r;
                proof {
                    assert(pool_view(self.poverty@) =~= pre.poverty.update(
                        index as int,
                        recovered_view(pre.poverty[index as int], ms),
                    ));
                }
                if plausible {
                    self.promote(index);
                    proof {
                        assert(self@.poverty =~= pre.poverty.remove(index as int));
                    }
                    MonitorAction::Promoted
                } else {
                    MonitorAction::Kept
                }
            },
            None => {
                let mut r = self.poverty[index].clone();
                r.record_failure();
                self.poverty[index] = r;
                proof {
                    assert(pool_view(self.poverty@) =~= pre.poverty.update(
                        index as int,
                        failed_view(pre.poverty[index as int]),
                    ));
                }
                MonitorAction::Kept
            },
        }
    }
}

} // verus!
