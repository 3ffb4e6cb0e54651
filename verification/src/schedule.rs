//! Ordered phase labels for the prototype lifecycle.

use vstd::prelude::*;

verus! {

/// The two phases of prototype work within an engine tick.
///
/// `Loading` strictly precedes `Spawning`: manifests are loaded and
/// processed before asynchronously requested spawns are drained.
#[derive(Clone, Copy, Debug, Hash, PartialEq, Eq, Structural)]
pub enum ProtoSchedule {
    /// The phase in which manifests are handed to the asset server and
    /// processed into the prototype libraries.
    Loading,
    /// The phase in which prototypes whose spawn was requested
    /// asynchronously are drained into the engine.
    Spawning,
}

impl ProtoSchedule {
    /// Whether this phase is ordered strictly before `other` within a tick:
    /// `Loading` comes before `Spawning`, and nothing else is ordered.
    pub fn runs_before(&self, other: &ProtoSchedule) -> (r: bool)
        ensures
            r == (*self == ProtoSchedule::Loading && *other == ProtoSchedule::Spawning),
    {
        match (self, other) {
            (ProtoSchedule::Loading, ProtoSchedule::Spawning) => true,
            _ => false,
        }
    }
}

} // verus!
