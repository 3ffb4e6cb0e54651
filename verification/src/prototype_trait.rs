//! The contract of a prototype: a clonable, thread-safe descriptor that
//! knows its own name.
//!
//! Stamping components onto a live entity (`build` / `rebuild` in the
//! embedding) is engine work and stays with the engine binding; the library
//! itself needs only the name, from which the identifying key is derived.

use vstd::prelude::*;

verus! {

use vstd::pervasive::cloned;
use crate::id::Id;

/// The characters of a name, as a specification-level value. Implementors
/// of [`Prototype`] outside verified code write this as the return type of
/// their `spec_name` stub.
pub type NameChars = Seq<char>;

/// A runtime descriptor of a kind of game object.
///
/// The name must be unique within a library, as it determines the id under
/// which the prototype is stored.
pub trait Prototype: Sized + Clone + Send + Sync {
    /// The name, as a specification-level value.
    spec fn spec_name(&self) -> NameChars;

    /// The name of the prototype.
    fn name(&self) -> (r: String)
        ensures
            r@ == self.spec_name(),
    ;

    /// A prototype is a plain descriptor: cloning it preserves its value.
    proof fn clone_preserves_value(a: Self, b: Self)
        requires
            cloned::<Self>(a, b),
        ensures
            b == a,
    ;

    /// The id of the prototype: its name, hashed.
    fn id(&self) -> (r: Id<Self>)
        ensures
            r == Id::<Self>::spec_from_name(self.spec_name()),
    {
        let n = self.name();
        Id::from_name(n.as_str())
    }
}

/// Tag carried by every entity spawned from a prototype of kind `P`,
/// recording the id it was built from. The rebuild dispatcher reads it to
/// find which live entities to rebuild after a reload.
#[verifier::reject_recursive_types(P)]
pub struct FromPrototype<P: Prototype>(pub Id<P>);

impl<P: Prototype> Clone for FromPrototype<P> {
    fn clone(&self) -> (r: Self)
        ensures
            r == *self,
    {
        FromPrototype(self.0)
    }
}

impl<P: Prototype> Copy for FromPrototype<P> {

}

} // verus!
