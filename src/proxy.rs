//! Typed handles to protocol objects.
use vstd::prelude::*;

verus! {

/// A protocol interface known at compile time: its wire name and its
/// highest version.
pub trait Interface {
    const INTERFACE: &'static str;
    const MAX_VERSION: u32;
}

/// A handle to an object of interface `I` bound at version `V`. Two handles
/// are the same object exactly when their ids are equal.
pub struct Proxy<I: Interface, const V: u32> {
    id: u32,
    _interface: std::marker::PhantomData<I>,
}

impl<I: Interface, const V: u32> Proxy<I, V> {
    /// A handle is bound at a version from 1 to the interface's highest.
    #[verifier::type_invariant]
    closed spec fn version_in_range(self) -> bool {
        1 <= V <= I::MAX_VERSION
    }

    /// The object's id.
    pub closed spec fn id(&self) -> u32 {
        self.id
    }

    /// A handle to the object with the given id.
    pub fn new(id: u32) -> (r: Self)
        requires
            1 <= V <= I::MAX_VERSION,
        ensures
            r.id() == id,
    {
        Proxy { id, _interface: std::marker::PhantomData }
    }

    /// The object's id.
    pub fn get_id(&self) -> (r: u32)
        ensures
            r == self.id(),
    {
        self.id
    }

    /// Whether both handles name the same object.
    pub fn equals(&self, other: &Self) -> (r: bool)
        ensures
            r == (self.id() == other.id()),
    {
        self.id == other.id
    }

    /// The interface's wire name.
    pub fn interface() -> &'static str {
        I::INTERFACE
    }

    /// The interface's highest version.
    pub fn max_version() -> u32 {
        I::MAX_VERSION
    }

    /// The version the handle is bound at.
    pub fn version() -> (r: u32)
        ensures
            r == V,
    {
        V
    }

    /// The version the handle is bound at, which a handle never has above
    /// its interface's highest.
    pub fn bound_version(&self) -> (r: u32)
        ensures
            r == V,
            1 <= r <= I::MAX_VERSION,
    {
        proof {
            use_type_invariant(self);
        }
        V
    }
}

} // verus!
