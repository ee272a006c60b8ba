//! The handle lifecycle protocol: which operations are permitted in which
//! state, and how a handle moves between states.

use vstd::prelude::*;

verus! {

/// The states a handle passes through.
#[derive(Clone, Copy, PartialEq, Eq, Structural, Debug)]
pub enum HandleState {
    Uncreated,
    Live,
    Destroyed,
}

/// The operations the flat ABI can apply to a handle.
#[derive(Clone, Copy, PartialEq, Eq, Structural, Debug)]
pub enum HandleOp {
    CreateSucceeded,
    CreateFailed,
    Extract,
    Destroy,
}

/// The transition relation of the protocol: `None` marks a precondition
/// violation, an operation the caller must never issue in that state.
pub open spec fn spec_transition(s: HandleState, op: HandleOp) -> Option<HandleState> {
    match (s, op) {
        (HandleState::Uncreated, HandleOp::CreateSucceeded) => Some(HandleState::Live),
        (HandleState::Uncreated, HandleOp::CreateFailed) => Some(HandleState::Uncreated),
        (HandleState::Live, HandleOp::Extract) => Some(HandleState::Live),
        (HandleState::Live, HandleOp::Destroy) => Some(HandleState::Destroyed),
        _ => None,
    }
}

/// Steps the protocol; returns the next state, or `None` on an operation
/// that the current state forbids.
pub fn transition(s: HandleState, op: HandleOp) -> (r: Option<HandleState>)
    ensures
        r == spec_transition(s, op),
{
    match (s, op) {
        (HandleState::Uncreated, HandleOp::CreateSucceeded) => Some(HandleState::Live),
        (HandleState::Uncreated, HandleOp::CreateFailed) => Some(HandleState::Uncreated),
        (HandleState::Live, HandleOp::Extract) => Some(HandleState::Live),
        (HandleState::Live, HandleOp::Destroy) => Some(HandleState::Destroyed),
        _ => None,
    }
}

/// Destruction is terminal: no operation is permitted on a destroyed handle.
pub proof fn lemma_destroyed_is_terminal(op: HandleOp)
    ensures
        spec_transition(HandleState::Destroyed, op) is None,
{
}

/// Extraction is repeatable: it never moves a live handle out of the live
/// state, so any number of extractions may follow one another.
pub proof fn lemma_extract_preserves_live()
    ensures
        spec_transition(HandleState::Live, HandleOp::Extract) == Some(HandleState::Live),
{
}

/// A failed creation produces no handle: the state stays uncreated, and only
/// a successful creation ever reaches the live state.
pub proof fn lemma_live_only_after_create(s: HandleState, op: HandleOp)
    ensures
        spec_transition(s, op) == Some(HandleState::Live) ==> (s is Live && op is Extract) || (
        s is Uncreated && op is CreateSucceeded),
{
}

} // verus!
