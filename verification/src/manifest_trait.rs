//! The contract of a manifest: an authoring-time descriptor, read from a
//! file in a declared wire format, that reifies into a prototype.

use vstd::prelude::*;

verus! {

use crate::manifest_format::ManifestFormat;
use crate::prototype_trait::Prototype;

/// An authoring-time descriptor of a kind of game object.
///
/// Deserialization from the wire format is the embedding's work; the library
/// sees the parsed value and its pure conversion into a prototype.
pub trait Manifest: Sized {
    /// The prototype kind this manifest generates.
    type Output: Prototype;

    /// The wire format, as a specification-level value.
    spec fn spec_format() -> ManifestFormat;

    /// The reified prototype, as a specification-level value.
    spec fn spec_reify(&self) -> Self::Output;

    /// The format of the manifest on disk (RON, JSON, and so on).
    fn format() -> (r: ManifestFormat)
        ensures
            r == Self::spec_format(),
    ;

    /// Converts the manifest into its prototype. Pure: the result depends on
    /// the manifest value alone.
    fn reify(&self) -> (r: Self::Output)
        ensures
            r == self.spec_reify(),
    ;
}

/// Access to the wire format of a loadable asset type, independent of the
/// [`Manifest`] machinery: the embedding picks a format adapter through it.
pub trait AccessManifestFormat {
    /// The wire format, as a specification-level value.
    spec fn spec_manifest_format() -> ManifestFormat;

    /// The wire format of this asset type.
    fn manifest_format() -> (r: ManifestFormat)
        ensures
            r == Self::spec_manifest_format(),
    ;
}

impl<T: Manifest> AccessManifestFormat for T {
    open spec fn spec_manifest_format() -> ManifestFormat {
        T::spec_format()
    }

    fn manifest_format() -> (r: ManifestFormat) {
        T::format()
    }
}

} // verus!
