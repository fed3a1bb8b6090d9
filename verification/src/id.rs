//! Typed and type-erased identifiers, and the capability that views either
//! as a typed identifier.

use crate::cycle::Blocking32;
use crate::cycle::Cycle;
use crate::erased::type_key;
use crate::erased::type_key_eq;
use core::any::TypeId;
use core::marker::PhantomData;
use vstd::prelude::*;

verus! {

/// What an identifier holds: the in-bucket index, the generation witness
/// returned at placement, and the type token captured at placement.
pub struct IdData<C> {
    pub index: usize,
    pub tag: C,
    pub token: TypeId,
}

/// A typed identifier for a value of type `T` placed into a storage.
#[derive(PartialEq, Eq, Hash, Debug)]
pub struct Tid<T: 'static, C: Cycle = Blocking32> {
    index: usize,
    tag: C,
    type_id: TypeId,
    phantom: PhantomData<T>,
}

impl<T: 'static, C: Cycle> View for Tid<T, C> {
    type V = IdData<C>;

    closed spec fn view(&self) -> IdData<C> {
        IdData { index: self.index, tag: self.tag, token: self.type_id }
    }
}

impl<T: 'static, C: Cycle> Tid<T, C> {
    pub(crate) fn new(index: usize, tag: C, type_id: TypeId) -> (r: Self)
        ensures
            r@ == (IdData { index, tag, token: type_id }),
    {
        Tid { index, tag, type_id, phantom: PhantomData }
    }

    /// The in-bucket index.
    pub fn index(&self) -> (r: usize)
        ensures
            r == self@.index,
    {
        self.index
    }

    /// The generation witness.
    pub fn tag(&self) -> (r: C)
        ensures
            r == self@.tag,
    {
        self.tag
    }

    /// The embedded type token.
    pub(crate) fn token(&self) -> (r: TypeId)
        ensures
            r == self@.token,
    {
        self.type_id
    }

    /// Widens to a type-erased identifier with the same data.
    pub fn to_id(&self) -> (r: Id<C>)
        ensures
            r@ == self@,
    {
        Id { index: self.index, tag: self.tag, type_id: self.type_id }
    }
}

impl<T: 'static, C: Cycle> Clone for Tid<T, C> {
    fn clone(&self) -> (r: Self)
        ensures
            r@ == self@,
    {
        Tid { index: self.index, tag: self.tag, type_id: self.type_id, phantom: PhantomData }
    }
}

impl<T: 'static, C: Cycle> Copy for Tid<T, C> {

}

/// A type-erased identifier: like [`Tid`], with the type recoverable only by
/// a checked narrowing.
#[derive(PartialEq, Eq, Hash, Debug)]
pub struct Id<C: Cycle = Blocking32> {
    index: usize,
    tag: C,
    type_id: TypeId,
}

impl<C: Cycle> Clone for Id<C> {
    fn clone(&self) -> (r: Self)
        ensures
            r@ == self@,
    {
        Id { index: self.index, tag: self.tag, type_id: self.type_id }
    }
}

impl<C: Cycle> Copy for Id<C> {

}

impl<C: Cycle> View for Id<C> {
    type V = IdData<C>;

    closed spec fn view(&self) -> IdData<C> {
        IdData { index: self.index, tag: self.tag, token: self.type_id }
    }
}

impl<C: Cycle> Id<C> {
    pub(crate) fn new(index: usize, tag: C, type_id: TypeId) -> (r: Self)
        ensures
            r@ == (IdData { index, tag, token: type_id }),
    {
        Id { index, tag, type_id }
    }

    /// The in-bucket index.
    pub fn index(&self) -> (r: usize)
        ensures
            r == self@.index,
    {
        self.index
    }

    /// The generation witness.
    pub fn tag(&self) -> (r: C)
        ensures
            r == self@.tag,
    {
        self.tag
    }

    /// The embedded type token.
    pub fn type_id(&self) -> (r: TypeId)
        ensures
            r == self@.token,
    {
        self.type_id
    }

    /// Whether the embedded type token is `token`.
    pub fn matches_token(&self, token: &TypeId) -> (r: bool)
        ensures
            r == (self@.token == *token),
    {
        type_key_eq(&self.type_id, token)
    }

    /// Narrows to a typed identifier: succeeds at run time exactly when the
    /// embedded token is `T`'s token, and the narrowed identifier carries the
    /// same data.
    pub fn to_tid<T: 'static>(&self) -> (r: Option<Tid<T, C>>)
        ensures
            r matches Some(t) ==> t@ == self@,
    {
        let token = type_key::<T>();
        if self.matches_token(&token) {
            Some(Tid::new(self.index, self.tag, self.type_id))
        } else {
            None
        }
    }
}

impl<T: 'static, C: Cycle> From<Tid<T, C>> for Id<C> {
    fn from(tid: Tid<T, C>) -> (r: Id<C>) {
        tid.to_id()
    }
}

impl<T: 'static, C: Cycle> vstd::std_specs::convert::FromSpecImpl<Tid<T, C>> for Id<C> {
    open spec fn obeys_from_spec() -> bool {
        true
    }

    closed spec fn from_spec(tid: Tid<T, C>) -> Self {
        Id { index: tid@.index, tag: tid@.tag, type_id: tid@.token }
    }
}

/// The capability to view an identifier as a typed identifier for `T`: a
/// typed identifier yields itself, an erased identifier checks its token
/// against `T`'s first.
pub trait AsTid<T: 'static, C: Cycle>: Sized {
    /// The identifier's data.
    spec fn id_data(&self) -> IdData<C>;

    /// Whether [`AsTid::as_tid`] always succeeds.
    spec fn always_narrows(&self) -> bool;

    fn as_tid(&self) -> (r: Option<Tid<T, C>>)
        ensures
            r matches Some(t) ==> t@ == self.id_data(),
            self.always_narrows() ==> r is Some,
    ;
}

impl<T: 'static, C: Cycle> AsTid<T, C> for Tid<T, C> {
    open spec fn id_data(&self) -> IdData<C> {
        self@
    }

    open spec fn always_narrows(&self) -> bool {
        true
    }

    fn as_tid(&self) -> (r: Option<Tid<T, C>>) {
        Some(*self)
    }
}

impl<T: 'static, C: Cycle> AsTid<T, C> for Id<C> {
    open spec fn id_data(&self) -> IdData<C> {
        self@
    }

    open spec fn always_narrows(&self) -> bool {
        false
    }

    fn as_tid(&self) -> (r: Option<Tid<T, C>>) {
        self.to_tid::<T>()
    }
}

} // verus!
