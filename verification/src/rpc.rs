//! The per-backend health and performance record.
//!
//! One `Rpc` exists per configured backend node. Static configuration
//! (`max_consecutive`, `min_time_delta`, `ma_length`) is fixed at
//! construction; live status (`latency`, `consecutive`, `last_used`,
//! probe failures) is mutated by the selection policy and the health
//! monitor.

use vstd::prelude::*;

verus! {

/// Latency carried by a backend with no successful probe yet; it sorts
/// worse than every measured latency.
pub const UNKNOWN_LATENCY: u64 = u64::MAX;

/// Live health state of one backend.
#[derive(Debug)]
pub struct Status {
    /// Smoothed round-trip estimate in integral milliseconds; lower is
    /// better. `UNKNOWN_LATENCY` until the first successful probe.
    pub latency: u64,
    /// The most recent round-trip samples, oldest first; the smoothing
    /// window of the moving average. Never longer than the owning
    /// record's `ma_length`.
    pub latency_data: Vec<u64>,
    /// Length of the current run of consecutive failed health probes.
    pub failed_probes: u32,
}

/// One backend node: identity, static configuration and live status.
#[derive(Debug)]
pub struct Rpc {
    /// Primary HTTP endpoint.
    pub url: String,
    /// Optional streaming endpoint; `None` disables streaming features
    /// for this backend.
    pub ws_url: Option<String>,
    /// Live health state.
    pub status: Status,
    /// Maximum number of consecutive selections before another backend
    /// must be preferred. At least 1 on every configured backend.
    pub max_consecutive: u32,
    /// Count of immediately-preceding selections of this backend since
    /// it last lost the fastest-available slot.
    pub consecutive: u32,
    /// Minimum microseconds that must elapse between two selections of
    /// this backend; 0 disables throttling.
    pub min_time_delta: u128,
    /// Microsecond timestamp of the last selection; 0 means never.
    pub last_used: u128,
    /// Smoothing window size of the latency moving average.
    pub ma_length: usize,
}

/// Mathematical model of a `Status`.
#[verifier::ext_equal]
pub ghost struct StatusView {
    pub latency: u64,
    pub latency_data: Seq<u64>,
    pub failed_probes: u32,
}

/// Mathematical model of an `Rpc`.
#[verifier::ext_equal]
pub ghost struct RpcView {
    pub url: Seq<char>,
    pub ws_url: Option<Seq<char>>,
    pub status: StatusView,
    pub max_consecutive: u32,
    pub consecutive: u32,
    pub min_time_delta: u128,
    pub last_used: u128,
    pub ma_length: usize,
}

impl View for Status {
    type V = StatusView;

    open spec fn view(&self) -> StatusView {
        StatusView {
            latency: self.latency,
            latency_data: self.latency_data@,
            failed_probes: self.failed_probes,
        }
    }
}

impl View for Rpc {
    type V = RpcView;

    open spec fn view(&self) -> RpcView {
        RpcView {
            url: self.url@,
            ws_url: match self.ws_url {
                Some(u) => Some(u@),
                None => None,
            },
            status: self.status@,
            max_consecutive: self.max_consecutive,
            consecutive: self.consecutive,
            min_time_delta: self.min_time_delta,
            last_used: self.last_used,
            ma_length: self.ma_length,
        }
    }
}

/// The model of a whole pool: the records of a `Vec<Rpc>`.
pub open spec fn pool_view(s: Seq<Rpc>) -> Seq<RpcView> {
    s.map_values(|r: Rpc| r@)
}

/// Static configuration a selectable backend must satisfy.
pub open spec fn wf_rpc(r: RpcView) -> bool {
    &&& r.max_consecutive >= 1
    &&& r.ma_length >= 1
    &&& r.status.latency_data.len() <= r.ma_length
}

/// Sum of a sample window.
pub open spec fn sum_of(s: Seq<u64>) -> int
    decreases s.len(),
{
    if s.len() == 0 {
        0
    } else {
        sum_of(s.drop_last()) + s.last()
    }
}

/// The sentinel record `pick` returns on an empty pool: no identity,
/// unknown latency, zeroed counters.
pub open spec fn is_default_rpc(r: RpcView) -> bool {
    &&& r.url == Seq::<char>::empty()
    &&& r.ws_url is None
    &&& r.status.latency == UNKNOWN_LATENCY
    &&& r.status.latency_data == Seq::<u64>::empty()
    &&& r.status.failed_probes == 0
    &&& r.max_consecutive == 0
    &&& r.consecutive == 0
    &&& r.min_time_delta == 0
    &&& r.last_used == 0
    &&& r.ma_length == 0
}

impl Clone for Status {
    fn clone(&self) -> (r: Status)
        ensures
            r@ == self@,
    {
        let mut data: Vec<u64> = Vec::new();
        let mut i: usize = 0;
        while i < self.latency_data.len()
            invariant
                i <= self.latency_data.len(),
                data@ =~= self.latency_data@.subrange(0, i as int),
            decreases self.latency_data.len() - i,
        {
            data.push(self.latency_data[i]);
            i += 1;
        }
        proof {
            assert(data@ =~= self.latency_data@);
        }
        Status { latency: self.latency, latency_data: data, failed_probes: self.failed_probes }
    }
}

impl Clone for Rpc {
    fn clone(&self) -> (r: Rpc)
        ensures
            r@ == self@,
    {
        let ws_url = match &self.ws_url {
            Some(u) => Some(u.clone()),
            None => None,
        };
        Rpc {
            url: self.url.clone(),
            ws_url,
            status: self.status.clone(),
            max_consecutive: self.max_consecutive,
            consecutive: self.consecutive,
            min_time_delta: self.min_time_delta,
            last_used: self.last_used,
            ma_length: self.ma_length,
        }
    }
}

impl Rpc {
    /// A fresh record for a configured backend: no probe yet, all
    /// counters zeroed, immediately eligible for selection.
    pub fn new(
        url: String,
        ws_url: Option<String>,
        max_consecutive: u32,
        min_time_delta: u128,
        ma_length: usize,
    ) -> (r: Rpc)
        ensures
            r@.url == url@,
            r@.ws_url == (match ws_url {
                Some(u) => Some(u@),
                None => None::<Seq<char>>,
            }),
            r@.status.latency == UNKNOWN_LATENCY,
            r@.status.latency_data == Seq::<u64>::empty(),
            r@.status.failed_probes == 0,
            r@.max_consecutive == max_consecutive,
            r@.consecutive == 0,
            r@.min_time_delta == min_time_delta,
            r@.last_used == 0,
            r@.ma_length == ma_length,
            max_consecutive >= 1 && ma_length >= 1 ==> wf_rpc(r@),
    {
        Rpc {
            url,
            ws_url,
            status: Status { latency: UNKNOWN_LATENCY, latency_data: Vec::new(), failed_probes: 0 },
            max_consecutive,
            consecutive: 0,
            min_time_delta,
            last_used: 0,
            ma_length,
        }
    }

    /// The backend's primary endpoint.
    pub fn get_url(&self) -> (r: String)
        ensures
            r@ == self@.url,
    {
        self.url.clone()
    }
}

impl Default for Rpc {
    /// The "no backend" sentinel.
    fn default() -> (r: Rpc)
        ensures
            is_default_rpc(r@),
    {
        Rpc {
            url: String::new(),
            ws_url: None,
            status: Status { latency: UNKNOWN_LATENCY, latency_data: Vec::new(), failed_probes: 0 },
            max_consecutive: 0,
            consecutive: 0,
            min_time_delta: 0,
            last_used: 0,
            ma_length: 0,
        }
    }
}

} // verus!
