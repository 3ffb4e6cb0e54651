//! A typed registry of prototypes, keyed by the hash of their names.

use vstd::prelude::*;

verus! {

use vstd::pervasive::cloned;
use crate::id::{Id, id_value_of_name};
use crate::keymap::KeyMap;
use crate::manifest_trait::Manifest;
use crate::prototype_trait::Prototype;

/// Errors of the prototype library.
#[derive(Clone, Debug)]
pub enum LibraryError {
    /// An entry stored under the id hashed from this name is already
    /// present.
    Duplicate(String),
    /// No entry with the given id exists.
    NotFound,
}

/// The key under which a prototype is stored: its name, hashed.
pub open spec fn proto_key<P: Prototype>(p: P) -> u64 {
    id_value_of_name(p.spec_name()) as u64
}

/// Whether a library with contents `m` accepts an insert of `p`: it does
/// if and only if no entry holds the key hashed from `p`'s name.
pub open spec fn insert_accepts<P: Prototype>(m: Map<u64, P>, p: P) -> bool {
    !m.contains_key(proto_key(p))
}

/// Library contents after an insert of `p`: extended by `p` under its key
/// when the insert is accepted, unchanged when it is rejected.
pub open spec fn map_after_insert<P: Prototype>(m: Map<u64, P>, p: P) -> Map<u64, P> {
    if insert_accepts(m, p) {
        m.insert(proto_key(p), p)
    } else {
        m
    }
}

/// A generic library of prototypes: a registry mapping the id hashed from
/// each prototype's name to the prototype. Ids are unique within a library;
/// inserting a second entry with an already-present id is an error.
pub struct PrototypeLibrary<P: Prototype> {
    prototypes: KeyMap<P>,
}

impl<P: Prototype> View for PrototypeLibrary<P> {
    type V = Map<u64, P>;

    closed spec fn view(&self) -> Map<u64, P> {
        self.prototypes@
    }
}

impl<P: Prototype> PrototypeLibrary<P> {
    /// Well-formed: the backing store keeps its keys unique. Constructors
    /// establish this and every operation preserves it.
    pub closed spec fn wf(&self) -> bool {
        self.prototypes.wf()
    }

    /// Creates an empty library.
    pub fn new() -> (r: Self)
        ensures
            r@ == Map::<u64, P>::empty(),
            r.wf(),
    {
        PrototypeLibrary { prototypes: KeyMap::new() }
    }

    /// The prototype stored under `id`, as a clone, or `None` if the id is
    /// absent; the library retains ownership of the entry.
    pub fn get(&self, id: &Id<P>) -> (r: Option<P>)
        requires
            self.wf(),
        ensures
            match r {
                Some(p) => self@.contains_key(id.spec_raw()) && p == self@[id.spec_raw()],
                None => !self@.contains_key(id.spec_raw()),
            },
    {
        match self.prototypes.get(id.raw()) {
            Some(p) => {
                let q = p.clone();
                proof {
                    P::clone_preserves_value(*p, q);
                }
                Some(q)
            },
            None => None,
        }
    }

    /// The prototype stored under the id hashed from `name`, or `None`.
    pub fn get_by_name(&self, name: &str) -> (r: Option<P>)
        requires
            self.wf(),
        ensures
            match r {
                Some(p) => self@.contains_key(id_value_of_name(name@) as u64) && p == self@[
                    id_value_of_name(name@) as u64
                ],
                None => !self@.contains_key(id_value_of_name(name@) as u64),
            },
    {
        self.get(&Id::from_name(name))
    }

    /// The id hashed from `name`, if an entry with that id exists.
    pub fn get_id(&self, name: &str) -> (r: Option<Id<P>>)
        requires
            self.wf(),
        ensures
            self@.contains_key(id_value_of_name(name@) as u64) ==> r == Some(
                Id::<P>::spec_from_name(name@),
            ),
            !self@.contains_key(id_value_of_name(name@) as u64) ==> r is None,
    {
        let maybe_id = Id::from_name(name);
        if self.prototypes.contains_key(maybe_id.raw()) {
            Some(maybe_id)
        } else {
            None
        }
    }

    /// Mutable access to the prototype stored under `id`, for in-place
    /// edits, or `None` if the id is absent. The entry stays under `id`
    /// whatever the edit does to the value.
    pub fn get_mut(&mut self, id: &Id<P>) -> (r: Option<&mut P>)
        requires
            old(self).wf(),
        ensures
            old(self)@.contains_key(id.spec_raw()) ==> (r matches Some(p) && *p == old(self)@[
                id.spec_raw()
            ] && final(self)@ == old(self)@.insert(id.spec_raw(), *final(p)) && final(self).wf()),
            !old(self)@.contains_key(id.spec_raw()) ==> (r is None && final(self)@ == old(self)@ && final(self).wf()),
    {
        self.prototypes.get_mut(id.raw())
    }

    /// Mutable access to the prototype stored under the id hashed from
    /// `name`, for in-place edits, or `None` if that id is absent.
    pub fn get_mut_by_name(&mut self, name: &str) -> (r: Option<&mut P>)
        requires
            old(self).wf(),
        ensures
            old(self)@.contains_key(id_value_of_name(name@) as u64) ==> (r matches Some(p) && *p
                == old(self)@[id_value_of_name(name@) as u64] && final(self)@ == old(self)@.insert(
                id_value_of_name(name@) as u64,
                *final(p),
            ) && final(self).wf()),
            !old(self)@.contains_key(id_value_of_name(name@) as u64)
                ==> (r is None && final(self)@ == old(self)@ && final(self).wf()),
    {
        let id = Id::from_name(name);
        self.get_mut(&id)
    }

    /// Stores `item` under the id hashed from its name. Fails with
    /// [`LibraryError::Duplicate`] — and mutates nothing — if an entry with
    /// that id is already present.
    pub fn insert(&mut self, item: P) -> (r: Result<Id<P>, LibraryError>)
        requires
            old(self).wf(),
        ensures
            final(self).wf(),
            final(self)@ == map_after_insert(old(self)@, item),
            insert_accepts(old(self)@, item) ==> (r matches Ok(id) && id == Id::<
                P,
            >::spec_from_name(item.spec_name())),
            !insert_accepts(old(self)@, item) ==> (r matches Err(e) && e matches
                LibraryError::Duplicate(n) && n@ == item.spec_name()),
    {
        let name = item.name();
        let id = Id::<P>::from_name(name.as_str());
        if self.prototypes.contains_key(id.raw()) {
            Err(LibraryError::Duplicate(name))
        } else {
            self.prototypes.insert(id.raw(), item);
            Ok(id)
        }
    }

    /// Reifies `manifest` and stores the resulting prototype: behaves
    /// exactly as [`Self::insert`] applied to the reified value.
    pub fn insert_from_manifest<M: Manifest<Output = P>>(&mut self, manifest: M) -> (r: Result<
        Id<P>,
        LibraryError,
    >)
        requires
            old(self).wf(),
        ensures
            final(self).wf(),
            final(self)@ == map_after_insert(old(self)@, manifest.spec_reify()),
            insert_accepts(old(self)@, manifest.spec_reify()) ==> (r matches Ok(id) && id == Id::<
                P,
            >::spec_from_name(manifest.spec_reify().spec_name())),
            !insert_accepts(old(self)@, manifest.spec_reify()) ==> (r matches Err(e) && e matches
                LibraryError::Duplicate(n) && n@ == manifest.spec_reify().spec_name()),
    {
        self.insert(manifest.reify())
    }

    /// Removes and returns the entry stored under `id`; fails with
    /// [`LibraryError::NotFound`] — and mutates nothing — if the id is
    /// absent.
    pub fn remove(&mut self, id: &Id<P>) -> (r: Result<P, LibraryError>)
        requires
            old(self).wf(),
        ensures
            final(self).wf(),
            final(self)@ == old(self)@.remove(id.spec_raw()),
            old(self)@.contains_key(id.spec_raw()) ==> (r matches Ok(p) && p == old(self)@[
                id.spec_raw()
            ]),
            !old(self)@.contains_key(id.spec_raw()) ==> (r matches Err(e) && e matches
                LibraryError::NotFound && final(self)@ == old(self)@),
    {
        match self.prototypes.remove(id.raw()) {
            Some(p) => Ok(p),
            None => {
                proof {
                    assert(self@ =~= old(self)@);
                }
                Err(LibraryError::NotFound)
            },
        }
    }

    /// Removes and returns the entry stored under the id hashed from
    /// `name`; fails with [`LibraryError::NotFound`] if that id is absent.
    pub fn remove_by_name(&mut self, name: &str) -> (r: Result<P, LibraryError>)
        requires
            old(self).wf(),
        ensures
            final(self).wf(),
            final(self)@ == old(self)@.remove(id_value_of_name(name@) as u64),
            old(self)@.contains_key(id_value_of_name(name@) as u64) ==> (r matches Ok(p) && p
                == old(self)@[id_value_of_name(name@) as u64]),
            !old(self)@.contains_key(id_value_of_name(name@) as u64) ==> (r matches Err(e) && e
                matches LibraryError::NotFound && final(self)@ == old(self)@),
    {
        self.remove(&Id::from_name(name))
    }

    /// Empties the library: afterwards it holds no entry at all.
    pub fn clear(&mut self)
        ensures
            final(self).wf(),
            final(self)@ == Map::<u64, P>::empty(),
            final(self)@.dom().len() == 0,
    {
        self.prototypes.clear();
    }

    /// Whether the library holds no entry.
    pub fn is_empty(&self) -> (r: bool)
        requires
            self.wf(),
        ensures
            r == (self@.dom().len() == 0),
    {
        self.prototypes.is_empty()
    }

    /// The number of prototypes in the library.
    pub fn len(&self) -> (r: usize)
        requires
            self.wf(),
        ensures
            r == self@.dom().len(),
    {
        self.prototypes.len()
    }

    /// A clone of some entry — the one stored longest — or `None` if the
    /// library is empty. Iteration order is unspecified.
    pub fn first(&self) -> (r: Option<P>)
        requires
            self.wf(),
        ensures
            match r {
                Some(p) => exists|k: u64| #[trigger] self@.contains_key(k) && self@[k] == p,
                None => self@.dom().len() == 0,
            },
    {
        match self.prototypes.first() {
            Some(p) => {
                let q = p.clone();
                proof {
                    let k = choose|k: u64| #[trigger] self@.contains_key(k) && self@[k] == *p;
                    P::clone_preserves_value(*p, q);
                    assert(self@.contains_key(k) && self@[k] == q);
                }
                Some(q)
            },
            None => None,
        }
    }

    /// A clone of some entry — the one stored last — or `None` if the
    /// library is empty. Iteration order is unspecified.
    pub fn last(&self) -> (r: Option<P>)
        requires
            self.wf(),
        ensures
            match r {
                Some(p) => exists|k: u64| #[trigger] self@.contains_key(k) && self@[k] == p,
                None => self@.dom().len() == 0,
            },
    {
        match self.prototypes.last() {
            Some(p) => {
                let q = p.clone();
                proof {
                    let k = choose|k: u64| #[trigger] self@.contains_key(k) && self@[k] == *p;
                    P::clone_preserves_value(*p, q);
                    assert(self@.contains_key(k) && self@[k] == q);
                }
                Some(q)
            },
            None => None,
        }
    }
}

impl<P: Prototype> Default for PrototypeLibrary<P> {
    fn default() -> (r: Self)
        ensures
            r@ == Map::<u64, P>::empty(),
            r.wf(),
    {
        PrototypeLibrary::new()
    }
}

/// An accepted insert stores the prototype under the id hashed from its
/// name: looking that id up in the new contents yields the inserted value.
pub proof fn lemma_insert_then_get<P: Prototype>(m: Map<u64, P>, p: P)
    requires
        insert_accepts(m, p),
    ensures
        map_after_insert(m, p).contains_key(proto_key(p)),
        map_after_insert(m, p)[proto_key(p)] == p,
{
}

/// A second insert of a prototype whose name equals that of one already
/// taken in is rejected, and rejection leaves the contents untouched.
pub proof fn lemma_duplicate_insert_rejected<P: Prototype>(m: Map<u64, P>, p: P, q: P)
    requires
        q.spec_name() == p.spec_name(),
    ensures
        !insert_accepts(map_after_insert(m, p), q),
        map_after_insert(map_after_insert(m, p), q) == map_after_insert(m, p),
{
}

} // verus!
