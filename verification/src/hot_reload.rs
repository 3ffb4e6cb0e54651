//! The rebuild dispatcher for hot reload.
//!
//! Once per prototype kind, the embedding registers a one-shot rebuild
//! operation with the engine and records its identifier here, keyed by the
//! kind's type tag. After a successful reprocess the dispatcher is looked
//! up and the recorded operation runs; its decision core — which entity
//! gets which prototype re-applied — is [`rebuild_plan`].

use vstd::prelude::*;

verus! {

use crate::keymap::KeyMap;
use crate::manifest_loader::TypeKey;
use crate::prototype_library::PrototypeLibrary;
use crate::prototype_trait::{FromPrototype, Prototype};

/// A reference to a one-shot system registered with the engine; the
/// embedding keeps the real identifier and hands the library a token.
#[derive(Clone, Copy, Debug, PartialEq, Eq, Structural)]
pub struct SystemRef {
    /// The token under which the embedding finds the real identifier.
    pub raw: u64,
}

/// The registry of rebuild operations: at most one per prototype kind,
/// keyed by the kind's type tag, recorded at registration time.
pub struct RebuildSystems {
    systems: KeyMap<SystemRef>,
}

impl RebuildSystems {
    /// The recorded operations, keyed by type tag.
    pub closed spec fn view(&self) -> Map<u64, SystemRef> {
        self.systems@
    }

    /// Well-formed: the backing store keeps its keys unique. Constructors
    /// establish this and every operation preserves it.
    pub closed spec fn wf(&self) -> bool {
        self.systems.wf()
    }

    /// Creates a dispatcher with no rebuild operation recorded.
    pub fn new() -> (r: Self)
        ensures
            r.view() == Map::<u64, SystemRef>::empty(),
            r.wf(),
    {
        RebuildSystems { systems: KeyMap::new() }
    }

    /// Records `system` as the rebuild operation of the prototype kind
    /// tagged `key`, replacing any earlier record for that kind.
    pub fn register(&mut self, key: TypeKey, system: SystemRef)
        requires
            old(self).wf(),
        ensures
            final(self).wf(),
            final(self).view() == old(self).view().insert(key.raw, system),
    {
        self.systems.insert(key.raw, system);
    }

    /// The rebuild operation recorded for the kind tagged `key`, or `None`
    /// if none was registered — a missing registration is an error the
    /// embedding logs, and the rebuild is skipped for that reload.
    pub fn lookup(&self, key: TypeKey) -> (r: Option<SystemRef>)
        requires
            self.wf(),
        ensures
            self.view().contains_key(key.raw) ==> r == Some(self.view()[key.raw]),
            !self.view().contains_key(key.raw) ==> r is None,
    {
        match self.systems.get(key.raw) {
            Some(s) => Some(*s),
            None => None,
        }
    }
}

impl Default for RebuildSystems {
    fn default() -> (r: Self)
        ensures
            r.view() == Map::<u64, SystemRef>::empty(),
            r.wf(),
    {
        RebuildSystems::new()
    }
}

/// The rebuild operation's plan: of the entities tagged as spawned from
/// kind `P`, those whose id still has a library entry, each paired with the
/// current entry, in scan order.
pub open spec fn spec_rebuild_plan<P: Prototype>(
    tagged: Seq<(u64, FromPrototype<P>)>,
    lib: Map<u64, P>,
) -> Seq<(u64, P)> {
    tagged.filter(|t: (u64, FromPrototype<P>)| lib.contains_key(t.1.0.spec_raw())).map_values(
        |t: (u64, FromPrototype<P>)| (t.0, lib[t.1.0.spec_raw()]),
    )
}

/// The rebuild operation's decision core: given the tagged entities the
/// engine reports and the current library, the entities to rebuild are
/// exactly those whose tagged id has an entry, and each gets the current
/// entry for its id re-applied.
#[verifier::loop_isolation(false)]
pub fn rebuild_plan<P: Prototype>(
    tagged: &Vec<(u64, FromPrototype<P>)>,
    protos: &PrototypeLibrary<P>,
) -> (r: Vec<(u64, P)>)
    requires
        protos.wf(),
    ensures
        r@ == spec_rebuild_plan(tagged@, protos@),
{
    broadcast use vstd::seq_lib::group_filter_ensures, Seq::lemma_filter_push;

    let mut r: Vec<(u64, P)> = Vec::new();
    let n = tagged.len();
    let mut i: usize = 0;
    while i < n
        invariant
            0 <= i <= n,
            n == tagged@.len(),
            r@ == spec_rebuild_plan(tagged@.take(i as int), protos@),
        decreases n - i,
    {
        proof {
            let t = tagged@.take(i as int);
            let t1 = tagged@.take(i + 1 as int);
            assert(t1 =~= t.push(tagged@[i as int]));
            assert(spec_rebuild_plan(t1, protos@) =~= if protos@.contains_key(
                tagged@[i as int].1.0.spec_raw(),
            ) {
                spec_rebuild_plan(t, protos@).push(
                    (tagged@[i as int].0, protos@[tagged@[i as int].1.0.spec_raw()]),
                )
            } else {
                spec_rebuild_plan(t, protos@)
            });
        }
        let entry = &tagged[i];
        match protos.get(&entry.1.0) {
            Some(p) => {
                r.push((entry.0, p));
            },
            None => {},
        }
        i = i + 1;
    }
    proof {
        assert(tagged@.take(n as int) =~= tagged@);
    }
    r
}

/// After a reload has stored a prototype under an id, the rebuild plan
/// re-applies that stored prototype to every entity tagged with the id.
pub proof fn lemma_rebuild_covers_tagged<P: Prototype>(
    tagged: Seq<(u64, FromPrototype<P>)>,
    lib: Map<u64, P>,
    j: int,
)
    requires
        0 <= j < tagged.len(),
        lib.contains_key(tagged[j].1.0.spec_raw()),
    ensures
        spec_rebuild_plan(tagged, lib).contains((tagged[j].0, lib[tagged[j].1.0.spec_raw()])),
{
    broadcast use vstd::seq_lib::group_filter_ensures;

    let fil = tagged.filter(|t: (u64, FromPrototype<P>)| lib.contains_key(t.1.0.spec_raw()));
    let plan = spec_rebuild_plan(tagged, lib);
    assert(fil.contains(tagged[j]));
    let k = choose|k: int| 0 <= k < fil.len() && fil[k] == tagged[j];
    assert(plan[k] == (tagged[j].0, lib[tagged[j].1.0.spec_raw()]));
}

} // verus!
