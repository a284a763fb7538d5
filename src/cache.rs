//! The read-through protocol of a cache layer: look the key up in the
//! key-value store, decode on a hit, build from the predecessor layer on a
//! miss, store what was built, and hand the artifact back.
use vstd::prelude::*;

verus! {

/// Where one read-through lookup stands.
#[derive(Clone, Copy, Debug, PartialEq, Eq, Structural)]
pub enum CacheState {
    /// The store is being asked for the key.
    Lookup,
    /// Stored bytes are being decoded.
    Decode,
    /// The artifact is being built from its inputs.
    Build,
    /// The built artifact is being written to the store.
    Store,
    /// The artifact is ready for the caller.
    Ready,
    /// The lookup failed; the caller gets an error.
    Failed,
}

/// What the store, the decoder or the builder reported.
#[derive(Clone, Copy, Debug, PartialEq, Eq, Structural)]
pub enum CacheEvent {
    /// The store holds bytes under the key.
    Hit,
    /// The store holds nothing under the key, or could not be read.
    Miss,
    DecodeOk,
    DecodeFailed,
    BuildOk,
    BuildFailed,
    StoreOk,
    StoreFailed,
}

/// What the caller does next.
#[derive(Clone, Copy, Debug, PartialEq, Eq, Structural)]
pub enum CacheAction {
    DecodeBytes,
    BuildArtifact,
    WriteArtifact,
    ReturnArtifact,
    ReturnError,
}

/// The transition table of a read-through lookup. An event that does not
/// belong to the state (or any event after the end) fails the lookup.
pub open spec fn cache_transition(s: CacheState, e: CacheEvent) -> (CacheState, CacheAction) {
    match (s, e) {
        (CacheState::Lookup, CacheEvent::Hit) => (CacheState::Decode, CacheAction::DecodeBytes),
        (CacheState::Lookup, CacheEvent::Miss) => (CacheState::Build, CacheAction::BuildArtifact),
        (CacheState::Decode, CacheEvent::DecodeOk) => (CacheState::Ready, CacheAction::ReturnArtifact),
        (CacheState::Build, CacheEvent::BuildOk) => (CacheState::Store, CacheAction::WriteArtifact),
        (CacheState::Store, CacheEvent::StoreOk) => (CacheState::Ready, CacheAction::ReturnArtifact),
        _ => (CacheState::Failed, CacheAction::ReturnError),
    }
}

/// The next state and action of a read-through lookup (see
/// `cache_transition`).
pub fn next_cache_step(state: CacheState, event: CacheEvent) -> (r: (CacheState, CacheAction))
    ensures
        r == cache_transition(state, event),
{
    match (state, event) {
        (CacheState::Lookup, CacheEvent::Hit) => (CacheState::Decode, CacheAction::DecodeBytes),
        (CacheState::Lookup, CacheEvent::Miss) => (CacheState::Build, CacheAction::BuildArtifact),
        (CacheState::Decode, CacheEvent::DecodeOk) => (CacheState::Ready, CacheAction::ReturnArtifact),
        (CacheState::Build, CacheEvent::BuildOk) => (CacheState::Store, CacheAction::WriteArtifact),
        (CacheState::Store, CacheEvent::StoreOk) => (CacheState::Ready, CacheAction::ReturnArtifact),
        _ => (CacheState::Failed, CacheAction::ReturnError),
    }
}

/// The state reached from `Lookup` by a sequence of events.
pub open spec fn cache_run(events: Seq<CacheEvent>) -> CacheState
    decreases events.len(),
{
    if events.len() == 0 {
        CacheState::Lookup
    } else {
        cache_transition(cache_run(events.drop_last()), events.last()).0
    }
}

/// An artifact is handed back only after it was decoded from the store, or
/// built and then written to the store: every run of events that ends ready
/// is a hit then a successful decode, or a miss, a successful build and a
/// successful write.
pub proof fn lemma_ready_only_after_decode_or_store(events: Seq<CacheEvent>)
    requires
        cache_run(events) == CacheState::Ready,
    ensures
        events =~= seq![CacheEvent::Hit, CacheEvent::DecodeOk]
            || events =~= seq![CacheEvent::Miss, CacheEvent::BuildOk, CacheEvent::StoreOk],
    decreases events.len(),
{
    lemma_run_prefix(events);
}

/// The events of every run that stands in a state other than `Failed`.
proof fn lemma_run_prefix(events: Seq<CacheEvent>)
    ensures
        events.len() == 0 ==> cache_run(events) == CacheState::Lookup,
        cache_run(events) == CacheState::Decode ==> events =~= seq![CacheEvent::Hit],
        cache_run(events) == CacheState::Build ==> events =~= seq![CacheEvent::Miss],
        cache_run(events) == CacheState::Store ==> events =~= seq![CacheEvent::Miss, CacheEvent::BuildOk],
        cache_run(events) == CacheState::Ready ==> events =~= seq![CacheEvent::Hit, CacheEvent::DecodeOk]
            || events =~= seq![CacheEvent::Miss, CacheEvent::BuildOk, CacheEvent::StoreOk],
        cache_run(events) == CacheState::Lookup ==> events.len() == 0,
    decreases events.len(),
{
    if events.len() > 0 {
        let prev = events.drop_last();
        lemma_run_prefix(prev);
        if prev.len() > 0 {
            assert(events =~= prev.push(events.last()));
        } else {
            assert(events =~= seq![events.last()]);
        }
    }
}

} // verus!
