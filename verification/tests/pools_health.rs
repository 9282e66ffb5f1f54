use blutgang::rpc::Rpc;
use blutgang::pools::Pools;
use blutgang::health::MonitorAction;
use blutgang::selection::pick;

fn backend(url: &str, latency: u64) -> Rpc {
    let mut r = Rpc::new(url.to_string(), None, 5, 0, 3);
    r.status.latency = latency;
    r
}

// A backend is never observed in both pools or in neither: a demotion
// and a promotion are each one atomic move, interleaved here with
// selection rounds that touch no membership.
#[test]
fn promotion_demotion_atomicity() {
    let active = vec![backend("http://a", 10), backend("http://b", 20)];
    let poverty = vec![backend("http://c", 30)];
    let mut pools = Pools::new(active, poverty);

    let count = |pool: &Vec<Rpc>, url: &str| pool.iter().filter(|r| r.get_url() == url).count();

    pools.demote(0);
    assert_eq!(pools.active.len(), 1);
    assert_eq!(pools.poverty.len(), 2);
    assert_eq!(
        count(&pools.active, "http://a") + count(&pools.poverty, "http://a"),
        1
    );

    let _ = pick(&mut pools.active);
    let _ = pick(&mut pools.poverty);

    pools.promote(1);
    assert_eq!(pools.active.len(), 2);
    assert_eq!(pools.poverty.len(), 1);
    for url in ["http://a", "http://b", "http://c"] {
        assert_eq!(count(&pools.active, url) + count(&pools.poverty, url), 1);
    }
}

// A promoted backend comes back with its counter cleared and its last
// selection forgotten, so it is immediately eligible.
#[test]
fn promotion_resets_usage() {
    let mut c = backend("http://c", 30);
    c.consecutive = 4;
    c.last_used = 123456;
    let mut pools = Pools::new(Vec::new(), vec![c]);
    pools.promote(0);
    assert_eq!(pools.active.len(), 1);
    assert_eq!(pools.active[0].consecutive, 0);
    assert_eq!(pools.active[0].last_used, 0);
    assert_eq!(pools.active[0].get_url(), "http://c");
}

// The moving average over a window of three samples.
#[test]
fn moving_average_window() {
    let mut r = Rpc::new("http://a".to_string(), None, 5, 0, 3);
    r.update_latency(10);
    assert_eq!(r.status.latency, 10);
    r.update_latency(20);
    assert_eq!(r.status.latency, 15);
    r.update_latency(30);
    assert_eq!(r.status.latency, 20);
    // the window is full: the oldest sample leaves
    r.update_latency(40);
    assert_eq!(r.status.latency, 30);
    assert_eq!(r.status.latency_data, vec![20, 30, 40]);
}

// Failure runs grow on failed probes, end on a successful one, and
// demotion is owed strictly past the threshold.
#[test]
fn failure_runs_and_demotion_threshold() {
    let mut r = backend("http://a", 10);
    r.record_failure();
    r.record_failure();
    assert_eq!(r.status.failed_probes, 2);
    assert!(!r.should_demote(2));
    r.record_failure();
    assert!(r.should_demote(2));
    r.record_success(12);
    assert_eq!(r.status.failed_probes, 0);
}

// The monitor demotes an active backend once its failure run exceeds
// the configured bound, in one atomic move.
#[test]
fn probe_failures_demote() {
    let active = vec![backend("http://a", 10), backend("http://b", 20)];
    let mut pools = Pools::new(active, Vec::new());
    assert_eq!(pools.probe_active(0, None, 1), MonitorAction::Kept);
    assert_eq!(pools.probe_active(0, None, 1), MonitorAction::Demoted);
    assert_eq!(pools.active.len(), 1);
    assert_eq!(pools.poverty.len(), 1);
    assert_eq!(pools.poverty[0].get_url(), "http://a");
    assert_eq!(pools.poverty[0].status.failed_probes, 2);
}

// A successful probe updates the record in place and keeps it active.
#[test]
fn probe_success_updates_latency() {
    let active = vec![backend("http://a", 10)];
    let mut pools = Pools::new(active, Vec::new());
    assert_eq!(pools.probe_active(0, Some(40), 1), MonitorAction::Kept);
    assert_eq!(pools.active.len(), 1);
    assert_eq!(pools.active[0].status.latency, 40);
}

// The monitor promotes a poverty backend on a successful probe with a
// plausible latency, and keeps it otherwise.
#[test]
fn poverty_probe_promotes_on_plausible_latency() {
    let poverty = vec![backend("http://c", 500), backend("http://d", 500)];
    let mut pools = Pools::new(Vec::new(), poverty);
    // implausible: stays demoted
    assert_eq!(pools.probe_poverty(0, Some(900), 100), MonitorAction::Kept);
    assert_eq!(pools.active.len(), 0);
    // a failed re-probe keeps it too
    assert_eq!(pools.probe_poverty(1, None, 100), MonitorAction::Kept);
    // plausible: the window now averages (900 + 50) / 2 = 475, within
    // the bound; promoted and eligible at once
    assert_eq!(pools.probe_poverty(0, Some(50), 500), MonitorAction::Promoted);
    assert_eq!(pools.active.len(), 1);
    assert_eq!(pools.poverty.len(), 1);
    assert_eq!(pools.active[0].get_url(), "http://c");
    assert_eq!(pools.active[0].consecutive, 0);
    assert_eq!(pools.active[0].last_used, 0);
}

// Startup seeding: reachable backends enter the active pool fastest
// first, unreachable ones start in poverty.
#[test]
fn seed_sorts_reachable_and_demotes_unreachable() {
    let list = vec![
        backend("http://a", 0),
        backend("http://b", 0),
        backend("http://c", 0),
    ];
    let probes = vec![Some(50u64), None, Some(5u64)];
    let pools = Pools::seed(&list, &probes);
    assert_eq!(pools.active.len(), 2);
    assert_eq!(pools.poverty.len(), 1);
    assert_eq!(pools.active[0].get_url(), "http://c");
    assert_eq!(pools.active[0].status.latency, 5);
    assert_eq!(pools.active[1].get_url(), "http://a");
    assert_eq!(pools.active[1].status.latency, 50);
    assert_eq!(pools.poverty[0].get_url(), "http://b");
}
