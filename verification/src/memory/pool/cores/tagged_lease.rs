use crate::memory::pool::{IntoPool, PoolLease};
use core::marker::PhantomData;
use std::ops::{Deref, DerefMut};
use vstd::prelude::*;

verus! {

/// A loan of a pooled object together with metadata (`Tag`) that the pool
/// may use when the object comes back.
///
/// A lease is consumed by handing it back to the pool or by taking the
/// object out of it.
#[derive(Debug)]
pub struct TaggedLease<'a, Tag, Obj> {
    tag: Tag,
    obj: Obj,
    phantom: PhantomData<&'a ()>,
}

impl<'a, Tag, Obj> TaggedLease<'a, Tag, Obj> {
    /// The metadata of the lease.
    pub closed spec fn spec_tag(&self) -> Tag {
        self.tag
    }

    /// The leased object.
    pub closed spec fn spec_obj(&self) -> Obj {
        self.obj
    }

    /// Leases `obj` with the metadata `tag`.
    pub fn new(tag: Tag, obj: Obj) -> (r: Self)
        ensures
            r.spec_tag() == tag,
            r.spec_obj() == obj,
    {
        TaggedLease { tag, obj, phantom: PhantomData }
    }

    /// The metadata of the lease.
    pub fn tag(&self) -> (r: &Tag)
        ensures
            *r == self.spec_tag(),
    {
        &self.tag
    }

    /// Consumes the lease, returning its metadata and its object.
    pub fn into_parts(self) -> (r: (Tag, Obj))
        ensures
            r == (self.spec_tag(), self.spec_obj()),
    {
        (self.tag, self.obj)
    }
}

impl<'a, Tag, Obj: IntoPool + 'a> PoolLease<'a, Obj> for TaggedLease<'a, Tag, Obj> {
    open spec fn leased(&self) -> Obj {
        self.spec_obj()
    }

    fn take(self) -> (r: Obj) {
        self.into_parts().1
    }
}

impl<'a, Tag, Obj> Deref for TaggedLease<'a, Tag, Obj> {
    type Target = Obj;

    fn deref(&self) -> (r: &Obj)
        ensures
            *r == self.spec_obj(),
    {
        &self.obj
    }
}

impl<'a, Tag, Obj> DerefMut for TaggedLease<'a, Tag, Obj> {
    fn deref_mut(&mut self) -> (r: &mut Obj)
        ensures
            *r == old(self).spec_obj(),
            final(self).spec_obj() == *final(r),
            final(self).spec_tag() == old(self).spec_tag(),
    {
        &mut self.obj
    }
}

} // verus!
