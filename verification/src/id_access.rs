//! Thin fronts for the type-erased identifier surface of a storage.

use crate::cycle::Cycle;
use crate::erased::AnyValue;
use crate::id::Id;
use crate::storage::Storage;
use vstd::prelude::*;

verus! {

/// A thin read-only front for the type-erased identifier surface of a
/// storage.
pub struct IdAccess<'a, C: Cycle> {
    storage: &'a Storage<C>,
}

impl<'a, C: Cycle> IdAccess<'a, C> {
    /// The storage this view reads.
    pub closed spec fn storage_spec(&self) -> crate::storage::StorageView<C> {
        self.storage@
    }

    /// A view onto `storage`.
    pub fn new(storage: &'a Storage<C>) -> (r: Self)
        ensures
            r.storage_spec() == storage@,
    {
        IdAccess { storage }
    }

    /// As [`Storage::get`], through the erased identifier.
    pub fn get<T: 'static>(&self, id: &Id<C>) -> (r: Option<&T>)
        requires
            self.storage_spec().wf(),
        ensures
            r is Some ==> self.storage_spec().contains_data(id@),
            !self.storage_spec().contains_data(id@) ==> r is None,
    {
        self.storage.get::<T>(id)
    }

    /// As [`Storage::contains_id`].
    pub fn contains(&self, id: &Id<C>) -> (r: bool)
        requires
            self.storage_spec().wf(),
        ensures
            r == self.storage_spec().contains_data(id@),
    {
        self.storage.contains_id(id)
    }
}

/// A thin mutating front for the type-erased identifier surface of a
/// storage.
pub struct IdAccessMut<'a, C: Cycle> {
    storage: &'a mut Storage<C>,
}

impl<'a, C: Cycle> IdAccessMut<'a, C> {
    /// The storage this view works on.
    pub closed spec fn storage_spec(&self) -> crate::storage::StorageView<C> {
        (*self.storage)@
    }

    /// A mutating view onto `storage`.
    pub fn new(storage: &'a mut Storage<C>) -> (r: Self)
        ensures
            r.storage_spec() == (*old(storage))@,
    {
        IdAccessMut { storage }
    }

    /// As [`Storage::place_id`].
    pub fn place<T: 'static>(&mut self, data: T) -> (r: Id<C>)
        requires
            old(self).storage_spec().wf(),
        ensures
            final(self).storage_spec().wf(),
            ({
                let (i, w) = old(self).storage_spec().place_pick(r@.token);
                &&& r@.index as nat == i
                &&& r@.tag == w
                &&& exists|a: AnyValue|
                    final(self).storage_spec() == old(self).storage_spec().place_write(
                        r@.token,
                        a,
                    )
            }),
    {
        self.storage.place_id::<T>(data)
    }

    /// As [`Storage::remove`].
    pub fn remove<T: 'static>(&mut self, id: &Id<C>) -> (r: Option<T>)
        requires
            old(self).storage_spec().wf(),
        ensures
            final(self).storage_spec().wf(),
            r is None ==> final(self).storage_spec() == old(self).storage_spec(),
            !old(self).storage_spec().takes_data(id@) ==> r is None,
            r is Some ==> old(self).storage_spec().takes_data(id@) && final(self).storage_spec()
                == old(self).storage_spec().take_write(id@),
    {
        self.storage.remove::<T>(id)
    }

    /// As [`Storage::get`], through the erased identifier.
    pub fn get<T: 'static>(&self, id: &Id<C>) -> (r: Option<&T>)
        requires
            self.storage_spec().wf(),
        ensures
            r is Some ==> self.storage_spec().contains_data(id@),
            !self.storage_spec().contains_data(id@) ==> r is None,
    {
        self.storage.get::<T>(id)
    }

    /// As [`Storage::get_mut`], through the erased identifier.
    pub fn get_mut<T: 'static>(&mut self, id: &Id<C>) -> (r: Option<&mut T>)
        requires
            old(self).storage_spec().wf(),
        ensures
            r is None ==> final(self).storage_spec() == old(self).storage_spec(),
            !old(self).storage_spec().contains_data(id@) ==> r is None,
            r is Some ==> old(self).storage_spec().contains_data(id@),
    {
        self.storage.get_mut::<T>(id)
    }

    /// As [`Storage::contains_id`].
    pub fn contains(&self, id: &Id<C>) -> (r: bool)
        requires
            self.storage_spec().wf(),
        ensures
            r == self.storage_spec().contains_data(id@),
    {
        self.storage.contains_id(id)
    }
}

} // verus!
