use blutgang::dispatch::DispatchEvent;
use blutgang::dispatch::DispatchState;

// For any retry bound k, a request against pools whose every backend
// always fails terminates after exactly k + 1 send attempts, in the
// upstream-unavailable terminal state.
#[test]
fn failover_terminates_in_exactly_k_plus_one_attempts() {
    for k in [0u32, 1, 3, 7] {
        let mut state = DispatchState::start(k);
        let mut attempts = 0u32;
        while !state.is_terminal() {
            // each loop step is one selection and one failing send
            attempts += 1;
            state = state.step(k, DispatchEvent::SentFail);
            assert!(attempts <= k + 1);
        }
        assert_eq!(attempts, k + 1);
        assert_eq!(state, DispatchState::Exhausted);
    }
}

// A response ends the request at once, from either pool.
#[test]
fn success_is_terminal() {
    let s = DispatchState::start(5);
    assert_eq!(s.step(5, DispatchEvent::SentOk), DispatchState::Succeeded);
    let p = DispatchState::PovertySelecting;
    assert_eq!(p.step(5, DispatchEvent::SentOk), DispatchState::Succeeded);
    assert!(DispatchState::Succeeded.is_terminal());
}

// An empty active pool routes straight to the poverty pool; an empty
// poverty pool ends the request as upstream-unavailable.
#[test]
fn empty_pools_route_to_fallback() {
    let s = DispatchState::start(5);
    let p = s.step(5, DispatchEvent::NoBackend);
    assert_eq!(p, DispatchState::PovertySelecting);
    assert_eq!(p.step(5, DispatchEvent::NoBackend), DispatchState::Exhausted);
}

// With no active sends budgeted, a fresh request starts at the poverty
// pool.
#[test]
fn zero_retries_start_at_poverty() {
    assert_eq!(DispatchState::start(0), DispatchState::PovertySelecting);
    assert_eq!(
        DispatchState::start(2),
        DispatchState::Selecting { attempts: 0 }
    );
}

// Failures below the bound retry against the active pool.
#[test]
fn failures_below_bound_retry() {
    let s = DispatchState::start(3);
    let s = s.step(3, DispatchEvent::SentFail);
    assert_eq!(s, DispatchState::Selecting { attempts: 1 });
    let s = s.step(3, DispatchEvent::SentFail);
    assert_eq!(s, DispatchState::Selecting { attempts: 2 });
    let s = s.step(3, DispatchEvent::SentFail);
    assert_eq!(s, DispatchState::PovertySelecting);
    assert!(!s.is_terminal());
}
