use super::view::{View, ViewBase, ViewCallback, ViewMut, ViewMutCallback};
use vstd::prelude::*;

verus! {

/// A shared view over a mutable one.
///
/// Each access goes through the mutable view, and so pays for exclusive
/// access where the mutable view takes it.
pub struct Freeze<V> {
    view_mut: V,
}

impl<V> Freeze<V> {
    /// The mutable view that is read through.
    pub closed spec fn spec_view_mut(&self) -> V {
        self.view_mut
    }

    /// A shared view reading through `view_mut`.
    pub fn new(view_mut: V) -> (r: Self)
        ensures
            r.spec_view_mut() == view_mut,
    {
        Freeze { view_mut }
    }
}

impl<V: ViewMut> ViewBase for Freeze<V> {
    type Value = V::Value;
}

/// The callback that lends a mutably lent value on to a shared callback.
struct Frozen<'s, G> {
    next: &'s mut G,
}

impl<'s, T, E, G: ViewCallback<T, E>> ViewMutCallback<T, E> for Frozen<'s, G> {
    closed spec fn accepts_all(&self) -> bool {
        self.next.accepts_all()
    }

    closed spec fn gives(&self, v: T, r: Result<(), E>) -> bool {
        self.next.gives(&v, r)
    }

    fn call(&mut self, v: &mut T) -> (r: Result<(), E>) {
        self.next.call(&*v)
    }
}

impl<V: ViewMut> View for Freeze<V> {
    type Error = V::Error;

    closed spec fn ready(&self) -> bool {
        self.view_mut.ready()
    }

    closed spec fn own_failure(&self, r: Result<(), V::Error>) -> bool {
        self.view_mut.own_failure(r)
    }

    /// The values the mutable view lends.
    closed spec fn lends(&self, v: &V::Value) -> bool {
        self.view_mut.lends(*v)
    }

    fn view<G: ViewCallback<V::Value, V::Error>>(&self, f: &mut G) -> Result<(), V::Error> {
        let mut frozen = Frozen { next: f };
        self.view_mut.view_mut(&mut frozen)
    }
}

} // verus!
