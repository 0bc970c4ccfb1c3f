use super::bridges::Freeze;
use super::compute::{ComputeView, ComputeViewMut};
use super::map::{MapView, MapViewMut, TryMapView};
use super::view::{View, ViewMut};
use vstd::prelude::*;

verus! {

/// Combinators that build views from a [`View`].
///
/// Every view has them. Building a view takes no lock and runs no
/// callback: it only nests the views.
pub trait ViewExt: View {
    /// A view of a value computed from this view's value.
    fn compute<F, U>(self, f: F) -> (r: ComputeView<Self, F, U>) where
        Self: Sized,
        F: Fn(&Self::Value) -> Result<U, Self::Error>,

        ensures
            r.spec_view() == self,
            r.spec_f() == f,
    {
        ComputeView::new(self, f)
    }

    /// A view of the part of this view's value that `f` picks.
    fn map<F, U>(self, f: F) -> (r: MapView<Self, F, U>) where
        Self: Sized,
        F: Fn(&Self::Value) -> &U,

        ensures
            r.spec_view() == self,
            r.spec_f() == f,
    {
        MapView::new(self, f)
    }

    /// A view of the part of this view's value that `f` finds, failing
    /// where `f` fails.
    fn try_map<F, E, U>(self, f: F) -> (r: TryMapView<Self, F, E, U>) where
        Self: Sized,
        F: Fn(&Self::Value) -> Result<&U, E>,
        Self::Error: From<E>,

        ensures
            r.spec_view() == self,
            r.spec_f() == f,
    {
        TryMapView::new(self, f)
    }
}

impl<T: View> ViewExt for T {

}

/// Combinators that build mutable views from a [`ViewMut`].
pub trait ViewMutExt: ViewMut {
    /// A mutable view of a value computed from this view's value, which the
    /// computation may change.
    fn compute_mut<F, U>(self, f: F) -> (r: ComputeViewMut<Self, F, U>) where
        Self: Sized,
        F: Fn(&mut Self::Value) -> Result<U, Self::Error>,

        ensures
            r.spec_view() == self,
            r.spec_f() == f,
    {
        ComputeViewMut::new(self, f)
    }

    /// A mutable view of the part of this view's value that `f` picks.
    fn map_mut<F, U>(self, f: F) -> (r: MapViewMut<Self, F, U>) where
        Self: Sized,
        F: Fn(&mut Self::Value) -> &mut U,

        ensures
            r.spec_view() == self,
            r.spec_f() == f,
    {
        MapViewMut::new(self, f)
    }

    /// A mutable view of the part of this view's value that `f` finds,
    /// failing where `f` fails.
    fn try_map_mut<F, E, U>(self, f: F) -> (r: TryMapView<Self, F, E, U>) where
        Self: Sized,
        F: Fn(&mut Self::Value) -> Result<&mut U, E>,
        Self::Error: From<E>,

        ensures
            r.spec_view() == self,
            r.spec_f() == f,
    {
        TryMapView::new(self, f)
    }

    /// A shared view reading through this mutable one.
    ///
    /// Mutable views often take exclusive locks, which shared reads do not
    /// need; use this only where that cost is acceptable.
    fn freeze(self) -> (r: Freeze<Self>) where
        Self: Sized,

        ensures
            r.spec_view_mut() == self,
    {
        Freeze::new(self)
    }
}

impl<T: ViewMut> ViewMutExt for T {

}

} // verus!
