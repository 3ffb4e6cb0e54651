//! A list-shaped manifest: the file-level container holding many manifest
//! entries of a single kind, in file order.

use vstd::prelude::*;

verus! {

use crate::manifest_format::ManifestFormat;
use crate::manifest_trait::{AccessManifestFormat, Manifest};

/// An ordered collection of manifests of one kind, itself loadable as an
/// asset. Preserves the file order of its entries and inherits the entry
/// kind's wire format.
pub struct ManifestCollection<M> {
    /// The entries, in file order.
    pub prototypes: Vec<M>,
}

impl<M: Manifest> ManifestCollection<M> {
    /// Creates an empty collection.
    pub fn new() -> (r: Self)
        ensures
            r.prototypes@ == Seq::<M>::empty(),
    {
        ManifestCollection { prototypes: Vec::new() }
    }

    /// The number of entries in the collection.
    pub fn len(&self) -> (r: usize)
        ensures
            r == self.prototypes@.len(),
    {
        self.prototypes.len()
    }

    /// The entry at position `i`, in file order.
    pub fn entry(&self, i: usize) -> (r: &M)
        requires
            i < self.prototypes@.len(),
        ensures
            *r == self.prototypes@[i as int],
    {
        &self.prototypes[i]
    }
}

impl<M: Manifest> Default for ManifestCollection<M> {
    fn default() -> (r: Self)
        ensures
            r.prototypes@ == Seq::<M>::empty(),
    {
        ManifestCollection { prototypes: Vec::new() }
    }
}

impl<M: Manifest> AccessManifestFormat for ManifestCollection<M> {
    open spec fn spec_manifest_format() -> ManifestFormat {
        M::spec_format()
    }

    fn manifest_format() -> (r: ManifestFormat) {
        M::format()
    }
}

} // verus!
