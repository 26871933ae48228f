use vstd::prelude::*;

verus! {

/// The lifecycle phase of the one connection to the node.
#[derive(Clone, Copy, Debug, PartialEq, Eq)]
pub enum Phase {
    /// No handshake has succeeded yet.
    Connecting,
    /// The connection is established and queries may be served.
    Ready,
}

/// What the startup loop does next.
#[derive(Clone, Copy, Debug, PartialEq, Eq)]
pub enum Action {
    /// Attempt the handshake again, at once.
    Attempt,
    /// Stop attempting and start serving queries.
    Serve,
}

/// The phase after a handshake attempt that succeeded or not. A failure keeps
/// the connection in `Connecting`; `Ready` is never left.
pub open spec fn next_phase(phase: Phase, handshake_ok: bool) -> Phase {
    match phase {
        Phase::Connecting => if handshake_ok {
            Phase::Ready
        } else {
            Phase::Connecting
        },
        Phase::Ready => Phase::Ready,
    }
}

/// What a phase calls for: attempt while connecting, serve once ready.
pub open spec fn action_of(phase: Phase) -> Action {
    match phase {
        Phase::Connecting => Action::Attempt,
        Phase::Ready => Action::Serve,
    }
}

/// The phase after a run of handshake outcomes, starting from `Connecting`.
pub open spec fn phase_after(outcomes: Seq<bool>) -> Phase
    decreases outcomes.len(),
{
    if outcomes.len() == 0 {
        Phase::Connecting
    } else {
        next_phase(phase_after(outcomes.drop_last()), outcomes.last())
    }
}

/// The phase the process starts in, with the action it calls for.
pub fn initial_phase() -> (r: (Phase, Action))
    ensures
        r.0 == Phase::Connecting,
        r.1 == action_of(r.0),
{
    (Phase::Connecting, Action::Attempt)
}

/// The phase after one handshake attempt, with the action it calls for.
pub fn after_handshake(phase: Phase, handshake_ok: bool) -> (r: (Phase, Action))
    ensures
        r.0 == next_phase(phase, handshake_ok),
        r.1 == action_of(r.0),
{
    match phase {
        Phase::Connecting => if handshake_ok {
            (Phase::Ready, Action::Serve)
        } else {
            (Phase::Connecting, Action::Attempt)
        },
        Phase::Ready => (Phase::Ready, Action::Serve),
    }
}

/// Establishing the connection never gives up and ends at the first success:
/// after any run of handshake outcomes the connection is ready exactly when one
/// of them succeeded, and until then the next action is another attempt.
pub proof fn lemma_retry_until_success(outcomes: Seq<bool>)
    ensures
        phase_after(outcomes) == Phase::Ready <==> outcomes.contains(true),
        !outcomes.contains(true) ==> action_of(phase_after(outcomes)) == Action::Attempt,
    decreases outcomes.len(),
{
    if outcomes.len() > 0 {
        let rest = outcomes.drop_last();
        lemma_retry_until_success(rest);
        if rest.contains(true) {
            let k = choose|k: int| 0 <= k < rest.len() && rest[k] == true;
            assert(outcomes[k] == true);
        }
        if outcomes.last() {
            assert(outcomes[outcomes.len() - 1] == true);
        }
        if outcomes.contains(true) && !rest.contains(true) {
            let k = choose|k: int| 0 <= k < outcomes.len() && outcomes[k] == true;
            if k < rest.len() {
                assert(rest[k] == true);
            }
        }
    }
}

} // verus!
