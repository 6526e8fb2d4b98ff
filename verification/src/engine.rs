//! Lifecycle of the cached transcription-engine handle: an explicit state
//! machine in place of double-checked locking. The engine handle itself and
//! the lock guarding this state live outside; under that lock, callers ask
//! the state machine whether to load and report how loading went.

use vstd::prelude::*;

verus! {

/// Where the process-lifetime engine handle stands.
#[derive(Clone, Copy, Debug, PartialEq, Eq, Structural)]
pub enum EngineState {
    /// No engine loaded yet.
    Unloaded,
    /// Some caller is loading it; others wait.
    Loading,
    /// The engine is loaded and cached; it is never re-initialized.
    Ready,
}

/// A caller asking to use the engine: the new state, and whether this
/// caller should perform the load.
pub open spec fn begin_load_spec(s: EngineState) -> (EngineState, bool) {
    match s {
        EngineState::Unloaded => (EngineState::Loading, true),
        EngineState::Loading => (EngineState::Loading, false),
        EngineState::Ready => (EngineState::Ready, false),
    }
}

/// The loading caller reporting its outcome: success caches the engine,
/// failure releases the slot for a later retry.
pub open spec fn finish_load_spec(s: EngineState, ok: bool) -> EngineState {
    match s {
        EngineState::Loading => if ok {
            EngineState::Ready
        } else {
            EngineState::Unloaded
        },
        _ => s,
    }
}

/// Ask to use the engine; exactly the first caller on an unloaded slot is
/// told to load it.
pub fn engine_begin_load(s: EngineState) -> (r: (EngineState, bool))
    ensures
        r == begin_load_spec(s),
{
    match s {
        EngineState::Unloaded => (EngineState::Loading, true),
        EngineState::Loading => (EngineState::Loading, false),
        EngineState::Ready => (EngineState::Ready, false),
    }
}

/// Report how loading went.
pub fn engine_finish_load(s: EngineState, ok: bool) -> (r: EngineState)
    ensures
        r == finish_load_spec(s, ok),
{
    match s {
        EngineState::Loading => if ok {
            EngineState::Ready
        } else {
            EngineState::Unloaded
        },
        _ => s,
    }
}

/// Initialization is idempotent: once the engine is ready, no later caller
/// is ever told to load again, and the slot stays ready.
pub proof fn lemma_engine_init_idempotent(s: EngineState, ok: bool)
    ensures
        !begin_load_spec(EngineState::Ready).1,
        begin_load_spec(EngineState::Ready).0 == EngineState::Ready,
        finish_load_spec(EngineState::Ready, ok) == EngineState::Ready,
        begin_load_spec(s).1 ==> s == EngineState::Unloaded,
{
}

} // verus!
