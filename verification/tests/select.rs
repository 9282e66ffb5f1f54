use blutgang::rpc::Rpc;
use blutgang::selection::argsort;
use blutgang::selection::pick;
use blutgang::selection::pick_at;
use blutgang::selection::pick_with;
use blutgang::selection::SelectionAlgorithm;
use std::time::SystemTime;

fn rpc_with(latency: u64, max_consecutive: u32, min_time_delta: u128) -> Rpc {
    let mut r = Rpc::default();
    r.status.latency = latency;
    r.max_consecutive = max_consecutive;
    r.min_time_delta = min_time_delta;
    r
}

#[test]
fn test_sort_algo() {
    let mut rpc1 = Rpc::default();
    let mut rpc2 = Rpc::default();
    let mut rpc3 = Rpc::default();

    rpc1.status.latency = 1;
    rpc2.status.latency = 2;
    rpc3.status.latency = 3;

    let v = vec![rpc2, rpc3, rpc1];
    let vx = v.clone();
    let i = argsort(&v);
    assert_eq!(i, &[2, 0, 1]);
    assert_eq!(v[0].get_url(), vx[0].get_url());
}

// Test picking the fastest RPC
// Change the latencies of the other ones to simulate
// real network fluctuations.
#[test]
fn test_pick() {
    let mut rpc1 = Rpc::default();
    let mut rpc2 = Rpc::default();
    let mut rpc3 = Rpc::default();

    rpc1.status.latency = 3;
    rpc1.max_consecutive = 10;
    rpc1.min_time_delta = 100;

    rpc2.status.latency = 7;
    rpc2.max_consecutive = 10;
    rpc2.min_time_delta = 100;

    rpc3.status.latency = 5;
    rpc3.max_consecutive = 10;
    rpc3.min_time_delta = 100;

    let mut rpc_list = vec![rpc1, rpc2, rpc3];

    let (rpc, index) = pick(&mut rpc_list);
    println!("rpc: {:?}", rpc);
    assert_eq!(rpc.status.latency, 3);
    assert_eq!(index, Some(0));

    rpc_list[0].status.latency = 10000;

    let (rpc, index) = pick(&mut rpc_list);
    println!("rpc index: {:?}", index);
    assert_eq!(rpc.status.latency, 5);
    assert_eq!(index, Some(2));

    rpc_list[2].status.latency = 100000;

    let (rpc, index) = pick(&mut rpc_list);
    assert_eq!(rpc.status.latency, 7);
    assert_eq!(index, Some(1));
}

// Test max_delay when picking rpcs
#[test]
fn test_pick_max_delay() {
    let mut rpc1 = Rpc::default();
    let mut rpc2 = Rpc::default();
    let mut rpc3 = Rpc::default();

    rpc1.status.latency = 3;
    rpc1.max_consecutive = 10;
    rpc1.min_time_delta = 1701357164371770;
    rpc1.last_used = SystemTime::now()
        .duration_since(SystemTime::UNIX_EPOCH)
        .expect("Failed to get current time")
        .as_micros();

    rpc2.status.latency = 7;
    rpc2.max_consecutive = 10;
    rpc2.min_time_delta = 1;

    rpc3.status.latency = 5;
    rpc3.max_consecutive = 10;
    rpc3.min_time_delta = 10000000;

    let mut rpc_list = vec![rpc1, rpc2, rpc3];

    // Pick rpc3 becauese rpc1 does not meet last used requirements
    let (rpc, index) = pick(&mut rpc_list);
    println!("rpc: {:?}", rpc);
    assert_eq!(rpc.status.latency, 5);
    assert_eq!(index, Some(2));

    // pick rpc2 because rpc3 was just used
    let (rpc, index) = pick(&mut rpc_list);
    println!("rpc index: {:?}", index);
    assert_eq!(rpc.status.latency, 7);
    assert_eq!(index, Some(1));
}

// A one-backend pool is returned unconditionally, whatever its
// counters say, and nothing is mutated.
#[test]
fn single_element_pool_always_returned() {
    let mut r = rpc_with(9999, 1, 1_000_000_000);
    r.consecutive = 77;
    r.last_used = u128::MAX;
    let mut pool = vec![r];
    let (rpc, index) = pick(&mut pool);
    assert_eq!(index, Some(0));
    assert_eq!(rpc.status.latency, 9999);
    assert_eq!(rpc.consecutive, 77);
    assert_eq!(pool[0].consecutive, 77);
    assert_eq!(pool[0].last_used, u128::MAX);
}

// An empty pool yields the no-backend sentinel and None, and never
// panics.
#[test]
fn empty_pool_yields_sentinel() {
    let mut pool: Vec<Rpc> = Vec::new();
    let (rpc, index) = pick(&mut pool);
    assert_eq!(index, None);
    assert_eq!(rpc.get_url(), "");
    assert_eq!(rpc.status.latency, u64::MAX);
    assert_eq!(rpc.consecutive, 0);
    assert!(pool.is_empty());
}

// After any full selection round, every backend but the chosen one has
// a cleared consecutive counter.
#[test]
fn counters_reset_after_pick() {
    let mut pool = vec![
        rpc_with(30, 5, 0),
        rpc_with(10, 5, 0),
        rpc_with(20, 5, 0),
    ];
    pool[0].consecutive = 3;
    pool[2].consecutive = 4;
    let (_, index) = pick(&mut pool);
    let chosen = index.unwrap();
    assert_eq!(chosen, 1);
    for (j, r) in pool.iter().enumerate() {
        if j == chosen {
            assert_eq!(r.consecutive, 1);
        } else {
            assert_eq!(r.consecutive, 0);
        }
    }
}

// With an explicit clock, a backend still inside its cooldown window
// loses to a slower eligible one.
#[test]
fn cooldown_respected_at_explicit_time() {
    let now: u128 = 10_000_000;
    let mut fast = rpc_with(1, 10, 1000);
    fast.last_used = now - 5;
    let slow = rpc_with(900, 10, 0);
    let mut pool = vec![fast, slow];
    let (rpc, index) = pick_at(&mut pool, now as u128);
    assert_eq!(index, Some(1));
    assert_eq!(rpc.status.latency, 900);
}

// A backend that has exhausted its consecutive budget is skipped in
// favour of the next-ranked eligible backend.
#[test]
fn consecutive_cap_respected() {
    let mut fast = rpc_with(1, 2, 0);
    fast.consecutive = 2;
    let slow = rpc_with(900, 10, 0);
    let mut pool = vec![fast, slow];
    let (rpc, index) = pick_at(&mut pool, 10_000_000);
    assert_eq!(index, Some(1));
    assert_eq!(rpc.status.latency, 900);
    // the loser leaves the round with a cleared counter
    assert_eq!(pool[0].consecutive, 0);
}

// When nothing is eligible, selection falls back to the fastest
// backend rather than failing, and restarts its counter at 1.
#[test]
fn fallback_to_fastest_when_none_eligible() {
    let mut a = rpc_with(5, 1, 0);
    a.consecutive = 1;
    let mut b = rpc_with(9, 1, 0);
    b.consecutive = 1;
    let mut pool = vec![b, a];
    let (rpc, index) = pick_at(&mut pool, 10_000_000);
    assert_eq!(index, Some(1));
    assert_eq!(rpc.status.latency, 5);
    assert_eq!(pool[1].consecutive, 1);
    assert_eq!(pool[0].consecutive, 0);
}

// Ranking the same unmutated records twice returns identical orders.
#[test]
fn ranking_is_deterministic() {
    let pool = vec![
        rpc_with(50, 1, 0),
        rpc_with(10, 1, 0),
        rpc_with(50, 1, 0),
        rpc_with(7, 1, 0),
    ];
    let first = argsort(&pool);
    let second = argsort(&pool);
    assert_eq!(first, second);
    // ties broken by original position
    assert_eq!(first, vec![3, 1, 0, 2]);
}

// The uniform-random policy returns a member of the pool and mutates
// no counter.
#[test]
fn random_policy_picks_a_member() {
    let mut pool = vec![
        rpc_with(30, 5, 0),
        rpc_with(10, 5, 0),
        rpc_with(20, 5, 0),
    ];
    pool[0].consecutive = 2;
    for _ in 0..20 {
        let (rpc, index) = pick_with(&SelectionAlgorithm::Random, &mut pool);
        let i = index.unwrap();
        assert!(i < 3);
        assert_eq!(rpc.status.latency, pool[i].status.latency);
    }
    assert_eq!(pool[0].consecutive, 2);
}

// The legacy policy hands one round to the second-fastest backend once
// the fastest has exhausted its budget.
#[test]
fn legacy_policy_rotates_top_two() {
    let mut fast = rpc_with(1, 2, 0);
    fast.consecutive = 2;
    let second = rpc_with(5, 2, 0);
    let third = rpc_with(9, 2, 0);
    let mut pool = vec![third, fast, second];
    let (rpc, index) = pick_with(&SelectionAlgorithm::LegacyWeightedRoundRobin, &mut pool);
    assert_eq!(index, Some(2));
    assert_eq!(rpc.status.latency, 5);
    assert_eq!(pool[1].consecutive, 0);
    assert_eq!(pool[2].consecutive, 1);

    // with budget left, the fastest keeps the traffic
    let (rpc, index) = pick_with(&SelectionAlgorithm::LegacyWeightedRoundRobin, &mut pool);
    assert_eq!(index, Some(1));
    assert_eq!(rpc.status.latency, 1);
    assert_eq!(pool[1].consecutive, 1);
}
