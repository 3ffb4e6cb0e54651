//! The process-wide registry tracking every manifest kind through its
//! load / process lifecycle.
//!
//! Each loadable manifest-collection kind is keyed by a runtime type tag and
//! advances through the stages *registered* (path stored) → *loaded* (asset
//! handle stored) → *processed* (entries drained into the prototype
//! library), re-entering *processed* on every reload. The asset server
//! itself belongs to the embedding, which passes handles in and out as
//! opaque tokens.

use vstd::prelude::*;

verus! {

use crate::keymap::KeyMap;
use crate::manifest_collection::ManifestCollection;
use crate::manifest_trait::Manifest;
use crate::prototype_library::{map_after_insert, proto_key, PrototypeLibrary};
use crate::prototype_trait::Prototype;

/// A runtime tag standing for the compile-time identity of one manifest
/// collection kind. The embedding assigns each kind a distinct tag and uses
/// it consistently for every call about that kind.
#[derive(Clone, Copy, Debug, PartialEq, Eq, Structural)]
pub struct TypeKey {
    /// The tag value.
    pub raw: u64,
}

/// An opaque reference to an asset held by the engine's asset server. The
/// embedding keeps the real handle and hands the library a token for it.
#[derive(Clone, Copy, Debug, PartialEq, Eq, Structural)]
pub struct AssetHandle {
    /// The token under which the embedding finds the real handle again.
    pub token: u64,
}

/// Progress through the registered manifest loads. Every registration adds
/// two steps (hand-off to the asset server, then processing); each completed
/// step raises `done`.
#[derive(Clone, Copy, Debug, PartialEq, Eq, Structural)]
pub struct Progress {
    /// Steps completed so far.
    pub done: u32,
    /// Steps expected in total.
    pub total: u32,
}

/// Errors of the manifest loader.
#[derive(Clone, Copy, Debug, PartialEq, Eq, Structural)]
pub enum LoaderError {
    /// `load` was called for a key that holds no registered path.
    MissingPath,
}

/// The library contents that processing a sequence of manifest entries
/// produces: each entry is reified and inserted in file order, and an entry
/// whose id is already taken is skipped.
pub open spec fn library_of_manifests<M: Manifest<Output = P>, P: Prototype>(
    entries: Seq<M>,
) -> Map<u64, P>
    decreases entries.len(),
{
    if entries.len() == 0 {
        Map::empty()
    } else {
        map_after_insert(
            library_of_manifests(entries.drop_last()),
            entries.last().spec_reify(),
        )
    }
}

/// The ids the entries of a collection reify to, in file order.
pub open spec fn reified_keys<M: Manifest<Output = P>, P: Prototype>(entries: Seq<M>) -> Seq<u64> {
    entries.map_values(|m: M| proto_key(m.spec_reify()))
}

/// Processing a collection whose entries reify to pairwise-distinct names
/// fills the library with exactly those entries' prototypes — whatever the
/// library held before, since processing clears it first.
pub proof fn lemma_process_fills_library<M: Manifest<Output = P>, P: Prototype>(entries: Seq<M>)
    requires
        reified_keys(entries).no_duplicates(),
    ensures
        forall|i: int|
            0 <= i < entries.len() ==> library_of_manifests(entries).contains_key(
                #[trigger] proto_key(entries[i].spec_reify()),
            ),
        forall|i: int|
            0 <= i < entries.len() ==> library_of_manifests(entries)[#[trigger] proto_key(
                entries[i].spec_reify(),
            )] == entries[i].spec_reify(),
        forall|k: u64|
            #[trigger] library_of_manifests(entries).contains_key(k) ==> exists|i: int|
                0 <= i < entries.len() && proto_key((#[trigger] entries[i]).spec_reify()) == k,
    decreases entries.len(),
{
    if entries.len() > 0 {
        let rest = entries.drop_last();
        assert(reified_keys(rest) =~= reified_keys(entries).drop_last());
        lemma_process_fills_library::<M, P>(rest);
        let prev = library_of_manifests(rest);
        let lib = library_of_manifests(entries);
        let p = entries.last().spec_reify();
        let k0 = proto_key(p);
        assert(!prev.contains_key(k0)) by {
            if prev.contains_key(k0) {
                let i = choose|i: int|
                    0 <= i < rest.len() && proto_key((#[trigger] rest[i]).spec_reify()) == k0;
                assert(reified_keys(entries)[i] == k0);
                assert(reified_keys(entries)[entries.len() - 1] == k0);
            }
        }
        assert(lib == prev.insert(k0, p));
        assert forall|i: int| 0 <= i < entries.len() implies lib.contains_key(
            #[trigger] proto_key(entries[i].spec_reify()),
        ) && lib[proto_key(entries[i].spec_reify())] == entries[i].spec_reify() by {
            if i < entries.len() - 1 {
                assert(rest[i] == entries[i]);
                assert(proto_key(entries[i].spec_reify()) != k0) by {
                    assert(reified_keys(entries)[i] == proto_key(entries[i].spec_reify()));
                    assert(reified_keys(entries)[entries.len() - 1] == k0);
                }
            }
        }
        assert forall|k: u64| #[trigger] lib.contains_key(k) implies exists|i: int|
            0 <= i < entries.len() && proto_key((#[trigger] entries[i]).spec_reify()) == k by {
            if k == k0 {
                assert(proto_key((entries[entries.len() - 1]).spec_reify()) == k);
            } else {
                let i = choose|i: int|
                    0 <= i < rest.len() && proto_key((#[trigger] rest[i]).spec_reify()) == k;
                assert(proto_key((entries[i]).spec_reify()) == k);
            }
        }
    }
}

/// The process-wide registry of manifest kinds and their lifecycle state:
/// three key-disjoint maps, one per stage, plus the progress counters.
pub struct ManifestLoader {
    to_load: KeyMap<String>,
    loaded: KeyMap<AssetHandle>,
    processed: KeyMap<AssetHandle>,
    progress: Progress,
}

impl ManifestLoader {
    /// Registered but not yet handed to the asset server: key to path.
    pub closed spec fn spec_to_load(&self) -> Map<u64, String> {
        self.to_load@
    }

    /// Handed off to the asset server: key to handle.
    pub closed spec fn spec_loaded(&self) -> Map<u64, AssetHandle> {
        self.loaded@
    }

    /// Drained into a prototype library at least once: key to handle.
    pub closed spec fn spec_processed(&self) -> Map<u64, AssetHandle> {
        self.processed@
    }

    /// The progress counters.
    pub closed spec fn spec_progress(&self) -> Progress {
        self.progress
    }

    /// Whether `key` is registered and still waiting for hand-off.
    pub open spec fn spec_is_registered(&self, key: TypeKey) -> bool {
        self.spec_to_load().contains_key(key.raw)
    }

    /// Whether `key` has been handed to the asset server, processed or not.
    pub open spec fn spec_is_loaded(&self, key: TypeKey) -> bool {
        self.spec_loaded().contains_key(key.raw) || self.spec_processed().contains_key(key.raw)
    }

    /// Whether `key` is in any stage of the lifecycle.
    pub open spec fn spec_is_known(&self, key: TypeKey) -> bool {
        self.spec_is_registered(key) || self.spec_is_loaded(key)
    }

    /// Well-formed: a key sits in at most one of the three stage maps, and
    /// the progress counters mirror the stages — two expected steps per
    /// registered key, one step done per hand-off and one more per process.
    pub closed spec fn wf(&self) -> bool {
        &&& self.to_load.wf()
        &&& self.loaded.wf()
        &&& self.processed.wf()
        &&& self.to_load@.dom().disjoint(self.loaded@.dom())
        &&& self.to_load@.dom().disjoint(self.processed@.dom())
        &&& self.loaded@.dom().disjoint(self.processed@.dom())
        &&& self.progress.done as int == self.loaded@.dom().len() + 2 * self.processed@.dom().len()
        &&& self.progress.total as int == 2 * (self.to_load@.dom().len()
            + self.loaded@.dom().len() + self.processed@.dom().len())
    }

    /// Creates a loader with no manifest kind registered.
    pub fn new() -> (r: Self)
        ensures
            r.wf(),
            r.spec_to_load() == Map::<u64, String>::empty(),
            r.spec_loaded() == Map::<u64, AssetHandle>::empty(),
            r.spec_processed() == Map::<u64, AssetHandle>::empty(),
            r.spec_progress() == (Progress { done: 0, total: 0 }),
    {
        ManifestLoader {
            to_load: KeyMap::new(),
            loaded: KeyMap::new(),
            processed: KeyMap::new(),
            progress: Progress { done: 0, total: 0 },
        }
    }

    /// The progress counters; `done` never exceeds `total`.
    pub fn progress(&self) -> (r: Progress)
        requires
            self.wf(),
        ensures
            r == self.spec_progress(),
            r.done <= r.total,
    {
        self.progress
    }

    /// Registers the manifest kind tagged `key`: its collection file sits at
    /// `path`, to be handed to the asset server by a later `load`.
    pub fn register(&mut self, key: TypeKey, path: String)
        requires
            old(self).wf(),
            !old(self).spec_is_known(key),
            old(self).spec_progress().total <= u32::MAX - 2,
        ensures
            final(self).wf(),
            final(self).spec_to_load() == old(self).spec_to_load().insert(key.raw, path),
            final(self).spec_loaded() == old(self).spec_loaded(),
            final(self).spec_processed() == old(self).spec_processed(),
            final(self).spec_progress() == (Progress {
                done: old(self).spec_progress().done,
                total: (old(self).spec_progress().total + 2) as u32,
            }),
    {
        proof {
            self.to_load.lemma_dom_finite();
        }
        self.to_load.insert(key.raw, path);
        self.progress.total = self.progress.total + 2;
    }

    /// Whether `key` has been handed to the asset server (processed or not).
    pub fn is_loaded(&self, key: TypeKey) -> (r: bool)
        ensures
            r == self.spec_is_loaded(key),
    {
        self.loaded.contains_key(key.raw) || self.processed.contains_key(key.raw)
    }

    /// The path the load system should hand to the asset server for `key`:
    /// its registered path, or `None` once the key has been handed off (the
    /// load system is idempotent) or if the key was never registered.
    pub fn needs_load(&self, key: TypeKey) -> (r: Option<&String>)
        requires
            self.wf(),
        ensures
            match r {
                Some(p) => !self.spec_is_loaded(key) && self.spec_is_registered(key) && *p
                    == self.spec_to_load()[key.raw],
                None => self.spec_is_loaded(key) || !self.spec_is_registered(key),
            },
    {
        if self.is_loaded(key) {
            None
        } else {
            self.to_load.get(key.raw)
        }
    }

    /// The handle stored for `key`, whatever its stage past hand-off: the
    /// embedding uses it to find the parsed collection in asset storage.
    pub fn handle_of(&self, key: TypeKey) -> (r: Option<AssetHandle>)
        requires
            self.wf(),
        ensures
            self.spec_loaded().contains_key(key.raw) ==> r == Some(self.spec_loaded()[key.raw]),
            (!self.spec_loaded().contains_key(key.raw) && self.spec_processed().contains_key(
                key.raw,
            )) ==> r == Some(self.spec_processed()[key.raw]),
            !self.spec_is_loaded(key) ==> r is None,
    {
        match self.loaded.get(key.raw) {
            Some(h) => Some(*h),
            None => match self.processed.get(key.raw) {
                Some(h) => Some(*h),
                None => None,
            },
        }
    }

    /// Records that the collection behind `key` was handed to the asset
    /// server, which answered with `handle`: the key moves from the
    /// registered stage to the loaded stage. Fails with
    /// [`LoaderError::MissingPath`] — and changes nothing — if `key` holds
    /// no registered path.
    pub fn load(&mut self, key: TypeKey, handle: AssetHandle) -> (r: Result<(), LoaderError>)
        requires
            old(self).wf(),
        ensures
            final(self).wf(),
            old(self).spec_is_registered(key) ==> (r is Ok && final(self).spec_to_load() == old(self).spec_to_load().remove(key.raw) && final(self).spec_loaded() == old(self).spec_loaded().insert(key.raw, handle) && final(self).spec_processed() == old(self).spec_processed() && final(self).spec_progress() == (Progress {
                done: (old(self).spec_progress().done + 1) as u32,
                total: old(self).spec_progress().total,
            })),
            !old(self).spec_is_registered(key) ==> (r == Result::<(), LoaderError>::Err(
                LoaderError::MissingPath,
            ) && final(self).spec_to_load() == old(self).spec_to_load() && final(self).spec_loaded() == old(self).spec_loaded() && final(self).spec_processed() == old(self).spec_processed() && final(self).spec_progress() == old(self).spec_progress()),
    {
        proof {
            self.to_load.lemma_dom_finite();
            self.loaded.lemma_dom_finite();
            self.processed.lemma_dom_finite();
        }
        match self.to_load.remove(key.raw) {
            Some(_path) => {
                self.loaded.insert(key.raw, handle);
                self.progress.done = self.progress.done + 1;
                Ok(())
            },
            None => {
                proof {
                    assert(self.to_load@ =~= old(self).to_load@);
                }
                Err(LoaderError::MissingPath)
            },
        }
    }

    /// Processes the parsed collection behind `key`: empties the library,
    /// reifies every entry in file order and inserts it (an entry whose id
    /// is already taken is skipped), and moves `key` to the processed stage.
    /// A key already processed is re-processed: the library again ends up
    /// mirroring the collection, and the loader state stays as it was.
    #[verifier::loop_isolation(false)]
    pub fn process<M: Manifest<Output = P>, P: Prototype>(
        &mut self,
        key: TypeKey,
        collection: &ManifestCollection<M>,
        protos: &mut PrototypeLibrary<P>,
    )
        requires
            old(self).wf(),
            old(protos).wf(),
            old(self).spec_is_loaded(key),
        ensures
            final(self).wf(),
            final(protos).wf(),
            final(protos)@ == library_of_manifests(collection.prototypes@),
            final(self).spec_to_load() == old(self).spec_to_load(),
            final(self).spec_processed().contains_key(key.raw),
            old(self).spec_loaded().contains_key(key.raw) ==> (final(self).spec_loaded() == old(self).spec_loaded().remove(key.raw) && final(self).spec_processed() == old(self).spec_processed().insert(key.raw, old(self).spec_loaded()[key.raw]) && final(self).spec_progress() == (Progress {
                done: (old(self).spec_progress().done + 1) as u32,
                total: old(self).spec_progress().total,
            })),
            !old(self).spec_loaded().contains_key(key.raw) ==> (final(self).spec_loaded() == old(self).spec_loaded() && final(self).spec_processed() == old(self).spec_processed() && final(self).spec_progress() == old(self).spec_progress()),
    {
        proof {
            self.to_load.lemma_dom_finite();
            self.loaded.lemma_dom_finite();
            self.processed.lemma_dom_finite();
        }
        protos.clear();
        let n = collection.len();
        let mut i: usize = 0;
        while i < n
            invariant
                n == collection.prototypes@.len(),
                0 <= i <= n,
                protos.wf(),
                protos@ == library_of_manifests(collection.prototypes@.take(i as int)),
            decreases n - i,
        {
            let item = collection.entry(i).reify();
            let _ = protos.insert(item);
            proof {
                assert(collection.prototypes@.take(i + 1 as int).drop_last() =~= collection
                    .prototypes@.take(i as int));
                assert(collection.prototypes@.take(i + 1 as int).last() == collection.prototypes@[
                    i as int
                ]);
            }
            i = i + 1;
        }
        proof {
            assert(collection.prototypes@.take(n as int) =~= collection.prototypes@);
        }
        match self.loaded.remove(key.raw) {
            Some(handle) => {
                self.processed.insert(key.raw, handle);
                self.progress.done = self.progress.done + 1;
            },
            None => {
                proof {
                    assert(self.loaded@ =~= old(self).loaded@);
                }
            },
        }
    }
}

impl Default for ManifestLoader {
    fn default() -> (r: Self)
        ensures
            r.wf(),
            r.spec_to_load() == Map::<u64, String>::empty(),
            r.spec_loaded() == Map::<u64, AssetHandle>::empty(),
            r.spec_processed() == Map::<u64, AssetHandle>::empty(),
            r.spec_progress() == (Progress { done: 0, total: 0 }),
    {
        ManifestLoader::new()
    }
}

} // verus!
