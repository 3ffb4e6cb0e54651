//! The lifecycle systems' decision cores.
//!
//! The embedding runs these once per tick: it gathers what the engine
//! reports (asset events, task polls), hands it over as plain values, and
//! performs the returned actions. The decisions themselves — what to
//! process, what to drain — live here, verified.

use vstd::prelude::*;

verus! {

use crate::manifest_collection::ManifestCollection;
use crate::manifest_loader::{library_of_manifests, ManifestLoader, Progress, TypeKey};
use crate::manifest_trait::Manifest;
use crate::prototype_library::PrototypeLibrary;
use crate::prototype_trait::Prototype;

/// What the engine reports about a loadable asset in its event stream.
#[derive(Clone, Copy, Debug, PartialEq, Eq, Structural)]
pub enum AssetEventKind {
    /// The asset was added to asset storage.
    Added,
    /// The asset's contents were modified.
    Modified,
    /// The asset was removed from asset storage.
    Removed,
    /// The last strong reference to the asset was dropped.
    Unused,
    /// The asset, with all its dependencies, finished loading or reloading.
    LoadedWithDependencies,
}

/// Whether the event stream carries at least one finished (re)load.
pub open spec fn has_load_event(events: Seq<AssetEventKind>) -> bool {
    exists|i: int| 0 <= i < events.len() && #[trigger] events[i] is LoadedWithDependencies
}

/// The track-asset system for a pair of manifest kind `M` and prototype
/// kind `P`: consumes the tick's asset events for `ManifestCollection<M>`
/// and, for each finished (re)load among them, processes the parsed
/// collection into the prototype library. Returns whether any processing
/// happened — when hot reload is on, the embedding then invokes the rebuild
/// operation registered for `P`.
#[verifier::loop_isolation(false)]
pub fn track_asset<M: Manifest<Output = P>, P: Prototype>(
    events: &Vec<AssetEventKind>,
    key: TypeKey,
    collection: &ManifestCollection<M>,
    loader: &mut ManifestLoader,
    protos: &mut PrototypeLibrary<P>,
) -> (reprocessed: bool)
    requires
        old(loader).wf(),
        old(protos).wf(),
        has_load_event(events@) ==> old(loader).spec_is_loaded(key),
    ensures
        final(loader).wf(),
        final(protos).wf(),
        reprocessed == has_load_event(events@),
        reprocessed ==> (final(protos)@ == library_of_manifests(collection.prototypes@) && final(loader).spec_processed().contains_key(key.raw) && final(loader).spec_to_load() == old(loader).spec_to_load()),
        (reprocessed && old(loader).spec_loaded().contains_key(key.raw)) ==> (final(loader).spec_loaded() == old(loader).spec_loaded().remove(key.raw) && final(loader).spec_processed() == old(loader).spec_processed().insert(
            key.raw,
            old(loader).spec_loaded()[key.raw],
        ) && final(loader).spec_progress() == (Progress {
            done: (old(loader).spec_progress().done + 1) as u32,
            total: old(loader).spec_progress().total,
        })),
        (reprocessed && !old(loader).spec_loaded().contains_key(key.raw)) ==> (final(loader).spec_loaded() == old(loader).spec_loaded() && final(loader).spec_processed() == old(loader).spec_processed() && final(loader).spec_progress() == old(loader).spec_progress()),
        !reprocessed ==> (final(loader).spec_to_load() == old(loader).spec_to_load() && final(loader).spec_loaded() == old(loader).spec_loaded() && final(loader).spec_processed() == old(loader).spec_processed() && final(loader).spec_progress() == old(loader).spec_progress() && final(protos)@ == old(protos)@),
{
    let mut reprocessed = false;
    let n = events.len();
    let mut i: usize = 0;
    while i < n
        invariant
            0 <= i <= n,
            n == events@.len(),
            loader.wf(),
            protos.wf(),
            reprocessed == has_load_event(events@.take(i as int)),
            !reprocessed ==> (loader.spec_to_load() == old(loader).spec_to_load()
                && loader.spec_loaded() == old(loader).spec_loaded() && loader.spec_processed()
                == old(loader).spec_processed() && loader.spec_progress() == old(loader).spec_progress() && protos@ == old(protos)@),
            reprocessed ==> (protos@ == library_of_manifests(collection.prototypes@)
                && loader.spec_processed().contains_key(key.raw) && loader.spec_to_load() == old(loader).spec_to_load()),
            (reprocessed && old(loader).spec_loaded().contains_key(key.raw)) ==> (
            loader.spec_loaded() == old(loader).spec_loaded().remove(key.raw)
                && loader.spec_processed() == old(loader).spec_processed().insert(
                key.raw,
                old(loader).spec_loaded()[key.raw],
            ) && loader.spec_progress() == (Progress {
                done: (old(loader).spec_progress().done + 1) as u32,
                total: old(loader).spec_progress().total,
            })),
            (reprocessed && !old(loader).spec_loaded().contains_key(key.raw)) ==> (
            loader.spec_loaded() == old(loader).spec_loaded() && loader.spec_processed() == old(loader).spec_processed() && loader.spec_progress() == old(loader).spec_progress()),
        decreases n - i,
    {
        let is_load = match events[i] {
            AssetEventKind::LoadedWithDependencies => true,
            _ => false,
        };
        proof {
            assert(events@.take(i + 1 as int) =~= events@.take(i as int).push(events@[i as int]));
        }
        if is_load {
            proof {
                assert(has_load_event(events@));
            }
            loader.process(key, collection, protos);
            reprocessed = true;
            proof {
                assert(events@.take(i + 1 as int)[i as int] is LoadedWithDependencies);
            }
        } else {
            proof {
                if has_load_event(events@.take(i + 1 as int)) {
                    let j = choose|j: int|
                        0 <= j < events@.take(i + 1 as int).len() && #[trigger] events@.take(
                            i + 1 as int,
                        )[j] is LoadedWithDependencies;
                    if j < i {
                        assert(events@.take(i as int)[j] is LoadedWithDependencies);
                    }
                }
            }
        }
        i = i + 1;
    }
    proof {
        assert(events@.take(n as int) =~= events@);
    }
    reprocessed
}

/// A pending asynchronous spawn, as the drain system sees it: the marker
/// entity carrying the task, and what a non-blocking poll of the task's
/// `is_finished` answered this tick.
#[derive(Clone, Copy, Debug, PartialEq, Eq, Structural)]
pub struct SpawnPoll {
    /// The marker entity that carries the pending task.
    pub entity: u64,
    /// Whether the task reported itself finished this tick.
    pub finished: bool,
}

/// The marker entities whose tasks finished, in scan order: these are the
/// ones the drain appends to the command buffer and despawns.
pub open spec fn drained_entities(polls: Seq<SpawnPoll>) -> Seq<u64> {
    polls.filter(|t: SpawnPoll| t.finished).map_values(|t: SpawnPoll| t.entity)
}

/// The polls whose tasks have not finished: these markers stay for a later
/// tick.
pub open spec fn remaining_polls(polls: Seq<SpawnPoll>) -> Seq<SpawnPoll> {
    polls.filter(|t: SpawnPoll| !t.finished)
}

/// The spawn-drain system's decision: given this tick's polls of the
/// pending spawn tasks, the entities to drain and despawn are exactly those
/// whose task finished.
#[verifier::loop_isolation(false)]
pub fn select_finished(polls: &Vec<SpawnPoll>) -> (r: Vec<u64>)
    ensures
        r@ == drained_entities(polls@),
{
    broadcast use vstd::seq_lib::group_filter_ensures, Seq::lemma_filter_push;

    let mut r: Vec<u64> = Vec::new();
    let n = polls.len();
    let mut i: usize = 0;
    while i < n
        invariant
            0 <= i <= n,
            n == polls@.len(),
            r@ == drained_entities(polls@.take(i as int)),
        decreases n - i,
    {
        proof {
            let t = polls@.take(i as int);
            let t1 = polls@.take(i + 1 as int);
            assert(t1 =~= t.push(polls@[i as int]));
            assert(t1.filter(|t: SpawnPoll| t.finished).map_values(|t: SpawnPoll| t.entity)
                =~= if polls@[i as int].finished {
                t.filter(|t: SpawnPoll| t.finished).map_values(|t: SpawnPoll| t.entity).push(
                    polls@[i as int].entity,
                )
            } else {
                t.filter(|t: SpawnPoll| t.finished).map_values(|t: SpawnPoll| t.entity)
            });
        }
        if polls[i].finished {
            r.push(polls[i].entity);
        }
        i = i + 1;
    }
    proof {
        assert(polls@.take(n as int) =~= polls@);
    }
    r
}

/// Draining is sound and complete: every finished task's marker entity is
/// drained, and every poll left pending is unfinished — after the spawning
/// phase no entity carries a task that reported itself finished this tick.
pub proof fn lemma_drain_exact(polls: Seq<SpawnPoll>)
    ensures
        forall|j: int|
            0 <= j < polls.len() && (#[trigger] polls[j]).finished ==> drained_entities(
                polls,
            ).contains(polls[j].entity),
        forall|j: int|
            0 <= j < remaining_polls(polls).len() ==> !(#[trigger] remaining_polls(
                polls,
            )[j]).finished,
{
    broadcast use vstd::seq_lib::group_filter_ensures;

    let fil = polls.filter(|t: SpawnPoll| t.finished);
    let drained = drained_entities(polls);
    assert forall|j: int|
        0 <= j < polls.len() && (#[trigger] polls[j]).finished implies drained.contains(
        polls[j].entity,
    ) by {
        assert(fil.contains(polls[j]));
        let k = choose|k: int| 0 <= k < fil.len() && fil[k] == polls[j];
        assert(drained[k] == polls[j].entity);
    }
}

} // verus!
