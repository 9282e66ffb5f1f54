//! The per-request dispatch/failover state machine.
//!
//! Sending a request over the network stays outside this crate; the
//! runner performs one selection and one send per step and feeds the
//! outcome back in as an event. Every decision — retry, fall back to
//! the poverty pool, give up — is taken here. Retries are bounded, so
//! every request terminates; the only error that escapes is the
//! upstream-unavailable terminal state.

use vstd::prelude::*;

verus! {

/// Where one in-flight request stands.
#[derive(Clone, Copy, Debug, PartialEq, Eq, Structural)]
pub enum DispatchState {
    /// Selecting from the active pool and sending; `attempts` sends
    /// have failed so far, all below the retry bound.
    Selecting { attempts: u32 },
    /// Active retries exhausted, or the active pool empty: one final
    /// selection against the poverty pool.
    PovertySelecting,
    /// A backend answered; terminal.
    Succeeded,
    /// Active and poverty pools both failed the request; the caller
    /// sees the upstream-unavailable error. Terminal.
    Exhausted,
}

/// What the runner observed in one step.
#[derive(Clone, Copy, Debug, PartialEq, Eq, Structural)]
pub enum DispatchEvent {
    /// The pool selected from was empty.
    NoBackend,
    /// The send returned a response.
    SentOk,
    /// The send failed or timed out; the failure is also reported to
    /// the health monitor, outside this machine.
    SentFail,
}

/// Where a fresh request starts: at the active pool, or straight at the
/// poverty pool when no active send is budgeted.
pub open spec fn initial_state(max_retries: u32) -> DispatchState {
    if max_retries == 0 {
        DispatchState::PovertySelecting
    } else {
        DispatchState::Selecting { attempts: 0 }
    }
}

/// The transition relation: one selection-and-send step, folded into
/// the request's state. Terminal states absorb every event.
pub open spec fn dispatch_step_spec(
    s: DispatchState,
    max_retries: u32,
    e: DispatchEvent,
) -> DispatchState {
    match s {
        DispatchState::Selecting { attempts } => match e {
            DispatchEvent::NoBackend => DispatchState::PovertySelecting,
            DispatchEvent::SentOk => DispatchState::Succeeded,
            DispatchEvent::SentFail => if attempts + 1 < max_retries {
                DispatchState::Selecting { attempts: (attempts + 1) as u32 }
            } else {
                DispatchState::PovertySelecting
            },
        },
        DispatchState::PovertySelecting => match e {
            DispatchEvent::NoBackend => DispatchState::Exhausted,
            DispatchEvent::SentOk => DispatchState::Succeeded,
            DispatchEvent::SentFail => DispatchState::Exhausted,
        },
        DispatchState::Succeeded => DispatchState::Succeeded,
        DispatchState::Exhausted => DispatchState::Exhausted,
    }
}

impl DispatchState {
    /// The state a fresh request starts in under retry bound
    /// `max_retries`.
    pub fn start(max_retries: u32) -> (s: DispatchState)
        ensures
            s == initial_state(max_retries),
    {
        if max_retries == 0 {
            DispatchState::PovertySelecting
        } else {
            DispatchState::Selecting { attempts: 0 }
        }
    }

    /// Advances the request by one observed step.
    pub fn step(&self, max_retries: u32, event: DispatchEvent) -> (next: DispatchState)
        ensures
            next == dispatch_step_spec(*self, max_retries, event),
    {
        match self {
            DispatchState::Selecting { attempts } => match event {
                DispatchEvent::NoBackend => DispatchState::PovertySelecting,
                DispatchEvent::SentOk => DispatchState::Succeeded,
                DispatchEvent::SentFail => {
                    let a = *attempts;
                    if a < max_retries && a + 1 < max_retries {
                        DispatchState::Selecting { attempts: a + 1 }
                    } else {
                        DispatchState::PovertySelecting
                    }
                },
            },
            DispatchState::PovertySelecting => match event {
                DispatchEvent::NoBackend => DispatchState::Exhausted,
                DispatchEvent::SentOk => DispatchState::Succeeded,
                DispatchEvent::SentFail => DispatchState::Exhausted,
            },
            DispatchState::Succeeded => DispatchState::Succeeded,
            DispatchState::Exhausted => DispatchState::Exhausted,
        }
    }

    /// Whether the request is finished, one way or the other.
    pub fn is_terminal(&self) -> (b: bool)
        ensures
            b == (*self == DispatchState::Succeeded || *self == DispatchState::Exhausted),
    {
        match self {
            DispatchState::Succeeded => true,
            DispatchState::Exhausted => true,
            _ => false,
        }
    }
}

/// The machine's state invariant: while a request is still selecting
/// from the active pool, its failed sends stay below the retry bound.
pub open spec fn dispatch_inv(s: DispatchState, max_retries: u32) -> bool {
    match s {
        DispatchState::Selecting { attempts } => attempts < max_retries,
        _ => true,
    }
}

/// A fresh request satisfies the invariant, and every step keeps it:
/// there is no unbounded retry path.
pub proof fn lemma_dispatch_inv(s: DispatchState, max_retries: u32, e: DispatchEvent)
    ensures
        dispatch_inv(initial_state(max_retries), max_retries),
        dispatch_inv(s, max_retries) ==> dispatch_inv(
            dispatch_step_spec(s, max_retries, e),
            max_retries,
        ),
{
}

/// Termination measure of the machine under failing sends.
pub open spec fn dispatch_measure(s: DispatchState, max_retries: u32) -> int {
    match s {
        DispatchState::Selecting { attempts } => if attempts < max_retries {
            2 + (max_retries - attempts)
        } else {
            2
        },
        DispatchState::PovertySelecting => 1,
        DispatchState::Succeeded => 0,
        DispatchState::Exhausted => 0,
    }
}

/// How many sends happen before the machine goes terminal when every
/// send fails.
pub open spec fn fails_to_terminal(s: DispatchState, max_retries: u32) -> nat
    decreases dispatch_measure(s, max_retries),
{
    match s {
        DispatchState::Succeeded => 0,
        DispatchState::Exhausted => 0,
        _ => 1 + fails_to_terminal(
            dispatch_step_spec(s, max_retries, DispatchEvent::SentFail),
            max_retries,
        ),
    }
}

/// The terminal state the machine reaches when every send fails.
pub open spec fn terminal_of_fails(s: DispatchState, max_retries: u32) -> DispatchState
    decreases dispatch_measure(s, max_retries),
{
    match s {
        DispatchState::Succeeded => DispatchState::Succeeded,
        DispatchState::Exhausted => DispatchState::Exhausted,
        _ => terminal_of_fails(
            dispatch_step_spec(s, max_retries, DispatchEvent::SentFail),
            max_retries,
        ),
    }
}

/// Counting from mid-flight: with `attempts` failed sends already made,
/// exactly `max_retries - attempts` active sends plus the one poverty
/// send remain before exhaustion.
proof fn lemma_fails_from(attempts: u32, max_retries: u32)
    requires
        attempts < max_retries,
    ensures
        fails_to_terminal(DispatchState::Selecting { attempts }, max_retries) == (max_retries
            - attempts) + 1,
        terminal_of_fails(DispatchState::Selecting { attempts }, max_retries)
            == DispatchState::Exhausted,
    decreases max_retries - attempts,
{
    let s = DispatchState::Selecting { attempts };
    let next = dispatch_step_spec(s, max_retries, DispatchEvent::SentFail);
    assert(fails_to_terminal(s, max_retries) == 1 + fails_to_terminal(next, max_retries));
    assert(terminal_of_fails(s, max_retries) == terminal_of_fails(next, max_retries));
    if attempts + 1 < max_retries {
        lemma_fails_from((attempts + 1) as u32, max_retries);
    } else {
        assert(next == DispatchState::PovertySelecting);
        assert(fails_to_terminal(DispatchState::PovertySelecting, max_retries) == 1
            + fails_to_terminal(DispatchState::Exhausted, max_retries));
        assert(fails_to_terminal(DispatchState::Exhausted, max_retries) == 0);
        assert(terminal_of_fails(DispatchState::PovertySelecting, max_retries)
            == terminal_of_fails(DispatchState::Exhausted, max_retries));
        assert(terminal_of_fails(DispatchState::Exhausted, max_retries)
            == DispatchState::Exhausted);
    }
}

/// Failover termination: under retry bound `max_retries`, a request
/// against pools whose every backend always fails the send makes
/// exactly `max_retries + 1` send attempts (active and poverty pools
/// combined) and terminates in the upstream-unavailable state.
pub proof fn lemma_failover_termination(max_retries: u32)
    ensures
        fails_to_terminal(initial_state(max_retries), max_retries) == max_retries + 1,
        terminal_of_fails(initial_state(max_retries), max_retries) == DispatchState::Exhausted,
{
    if max_retries > 0 {
        lemma_fails_from(0, max_retries);
    } else {
        assert(fails_to_terminal(DispatchState::PovertySelecting, 0) == 1 + fails_to_terminal(
            DispatchState::Exhausted,
            0,
        ));
        assert(fails_to_terminal(DispatchState::Exhausted, 0) == 0);
        assert(terminal_of_fails(DispatchState::PovertySelecting, 0) == terminal_of_fails(
            DispatchState::Exhausted,
            0,
        ));
        assert(terminal_of_fails(DispatchState::Exhausted, 0) == DispatchState::Exhausted);
    }
}

} // verus!
