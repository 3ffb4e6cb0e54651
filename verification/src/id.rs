//! Stable, typed identifiers for data-driven assets.
//!
//! An [`Id<T>`] is a 64-bit key derived from a name string by a deterministic
//! polynomial hash, tagged with a phantom type so that identifiers of
//! different prototype kinds cannot be mixed up.

use vstd::prelude::*;

verus! {

use vstd::utf8::encode_utf8;
use vstd::string::StringSliceAdditionalSpecFns;

/// Multiplier of the polynomial name hash: a small prime, roughly the size
/// of the expected input alphabet.
pub const HASH_P: u64 = 53;

/// Modulus of the polynomial name hash: a large prime, so that collisions
/// between distinct names stay rare.
pub const HASH_M: u64 = 1_000_000_009;

/// `HASH_P^n mod HASH_M`, computed the way the hash loop computes it.
pub open spec fn pow_p(n: int) -> int
    decreases n,
{
    if n <= 0 {
        1
    } else {
        (pow_p(n - 1) * (HASH_P as int)) % (HASH_M as int)
    }
}

/// Hash of the first `n` bytes: `sum_{i < n} (bytes[i] + 1) * HASH_P^i mod HASH_M`.
pub open spec fn name_hash_prefix(bytes: Seq<u8>, n: int) -> int
    decreases n,
{
    if n <= 0 {
        0
    } else {
        (name_hash_prefix(bytes, n - 1) + (bytes[n - 1] as int + 1) * pow_p(n - 1)) % (
        HASH_M as int)
    }
}

/// The polynomial hash of a whole byte string.
pub open spec fn name_hash(bytes: Seq<u8>) -> int {
    name_hash_prefix(bytes, bytes.len() as int)
}

/// The id value of a name: the hash of its UTF-8 encoding.
pub open spec fn id_value_of_name(name: Seq<char>) -> int {
    name_hash(encode_utf8(name))
}

proof fn lemma_pow_p_bounds(n: int)
    ensures
        0 <= pow_p(n) < HASH_M as int,
    decreases n,
{
    if n > 0 {
        lemma_pow_p_bounds(n - 1);
    }
}

proof fn lemma_name_hash_prefix_bounds(bytes: Seq<u8>, n: int)
    ensures
        0 <= name_hash_prefix(bytes, n) < HASH_M as int,
    decreases n,
{
    if n > 0 {
        lemma_name_hash_prefix_bounds(bytes, n - 1);
        lemma_pow_p_bounds(n - 1);
    }
}

/// The unique identifier of a kind of game object of type `T`.
///
/// Identifiers are constructed by hashing object names via [`Id::from_name`]
/// and identify a *kind* of object, not a unique instance of one. The phantom
/// tag exists only at the type level: all information of an id is its value.
#[derive(Debug)]
#[verifier::reject_recursive_types(T)]
pub struct Id<T> {
    value: u64,
    _phantom: core::marker::PhantomData<T>,
}

impl<T> Id<T> {
    /// The raw 64-bit value, for use in specifications.
    pub closed spec fn spec_raw(&self) -> u64 {
        self.value
    }

    /// The id derived from a name, as a specification-level value.
    pub open spec fn spec_from_name(name: Seq<char>) -> Id<T> {
        Id::spec_from_raw(id_value_of_name(name) as u64)
    }

    /// The id holding a raw value, as a specification-level value.
    pub closed spec fn spec_from_raw(value: u64) -> Id<T> {
        Id { value, _phantom: core::marker::PhantomData }
    }

    /// The raw value behind a name-derived id is the hash of the name.
    pub proof fn lemma_spec_from_name_raw(name: Seq<char>)
        ensures
            Id::<T>::spec_from_name(name).spec_raw() == id_value_of_name(name) as u64,
    {
    }

    /// An id carries nothing besides its raw value.
    pub proof fn lemma_raw_determines_id(a: Id<T>, b: Id<T>)
        requires
            a.spec_raw() == b.spec_raw(),
        ensures
            a == b,
    {
    }

    /// The hash of a name always fits in the hash modulus.
    pub proof fn lemma_id_value_in_range(name: Seq<char>)
        ensures
            0 <= id_value_of_name(name) < HASH_M as int,
    {
        lemma_name_hash_prefix_bounds(encode_utf8(name), encode_utf8(name).len() as int);
    }

    /// Creates a new id by hashing a name string.
    ///
    /// Deterministic and order-sensitive: equal names produce equal ids
    /// across processes and platforms.
    pub fn from_name(name: &str) -> (r: Self)
        ensures
            r == Id::<T>::spec_from_name(name@),
            r.spec_raw() == id_value_of_name(name@) as u64,
    {
        let bytes = name.as_bytes();
        let n = bytes.len();
        let mut value: u64 = 0;
        let mut p_pow: u64 = 1;
        let mut i: usize = 0;
        proof {
            lemma_name_hash_prefix_bounds(bytes@, 0);
        }
        while i < n
            invariant
                n == bytes@.len(),
                bytes@ == name.spec_bytes(),
                0 <= i <= n,
                value as int == name_hash_prefix(bytes@, i as int),
                p_pow as int == pow_p(i as int),
                value < HASH_M,
                p_pow < HASH_M,
            decreases n - i,
        {
            let byte = bytes[i];
            proof {
                lemma_pow_p_bounds(i as int);
                assert((byte as int + 1) * (p_pow as int) <= 256 * (HASH_M as int - 1))
                    by (nonlinear_arith)
                    requires
                        byte as int <= 255,
                        0 <= p_pow as int <= HASH_M as int - 1,
                ;
            }
            value = (value + (byte as u64 + 1) * p_pow) % HASH_M;
            p_pow = (p_pow * HASH_P) % HASH_M;
            i = i + 1;
        }
        Id { value, _phantom: core::marker::PhantomData }
    }

    /// Returns the raw value of the id.
    ///
    /// Internally, `u64` is the backing type for all ids. This is primarily
    /// intended for debugging purposes.
    pub fn raw(&self) -> (r: u64)
        ensures
            r == self.spec_raw(),
    {
        self.value
    }

    /// Constructs a new id from a raw value.
    ///
    /// This is an escape hatch for advanced use cases; in almost every case,
    /// ids should come from [`Id::from_name`]. A caller constructing raw ids
    /// must keep them unique within a library.
    pub fn from_raw(value: u64) -> (r: Self)
        ensures
            r == Id::<T>::spec_from_raw(value),
            r.spec_raw() == value,
    {
        Id { value, _phantom: core::marker::PhantomData }
    }
}

/// Reading the raw value back out of a hashed id and re-wrapping it loses
/// nothing: the round trip returns the same id.
pub proof fn lemma_id_raw_round_trip<T>(name: Seq<char>)
    ensures
        Id::<T>::spec_from_raw(Id::<T>::spec_from_name(name).spec_raw()) == Id::<
            T,
        >::spec_from_name(name),
{
}

impl<T> Clone for Id<T> {
    fn clone(&self) -> (r: Self)
        ensures
            r == *self,
    {
        Id { value: self.value, _phantom: core::marker::PhantomData }
    }
}

impl<T> Copy for Id<T> {

}

impl<T> PartialEq for Id<T> {
    fn eq(&self, other: &Self) -> (r: bool) {
        self.value == other.value
    }
}

impl<T> vstd::std_specs::cmp::PartialEqSpecImpl for Id<T> {
    open spec fn obeys_eq_spec() -> bool {
        true
    }

    open spec fn eq_spec(&self, other: &Self) -> bool {
        self.spec_raw() == other.spec_raw()
    }
}

impl<T> Eq for Id<T> {

}

impl<T> PartialOrd for Id<T> {
    fn partial_cmp(&self, other: &Self) -> (r: Option<core::cmp::Ordering>) {
        if self.value < other.value {
            Some(core::cmp::Ordering::Less)
        } else if self.value == other.value {
            Some(core::cmp::Ordering::Equal)
        } else {
            Some(core::cmp::Ordering::Greater)
        }
    }
}

impl<T> vstd::std_specs::cmp::PartialOrdSpecImpl for Id<T> {
    open spec fn obeys_partial_cmp_spec() -> bool {
        true
    }

    open spec fn partial_cmp_spec(&self, other: &Self) -> Option<core::cmp::Ordering> {
        if self.spec_raw() < other.spec_raw() {
            Some(core::cmp::Ordering::Less)
        } else if self.spec_raw() == other.spec_raw() {
            Some(core::cmp::Ordering::Equal)
        } else {
            Some(core::cmp::Ordering::Greater)
        }
    }
}

} // verus!
