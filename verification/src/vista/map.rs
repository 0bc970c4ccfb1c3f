use super::view::{View, ViewBase, ViewCallback, ViewMut, ViewMutCallback};
use core::marker::PhantomData;
use vstd::prelude::*;
use vstd::std_specs::convert::FromSpec;

verus! {

/// A view of a part of the value of another view, reached by a projection.
pub struct MapView<V, F, U> {
    view: V,
    f: F,
    _marker: PhantomData<U>,
}

impl<V, F, U> MapView<V, F, U> {
    /// The view of the whole value.
    pub closed spec fn spec_view(&self) -> V {
        self.view
    }

    /// The projection to the part.
    pub closed spec fn spec_f(&self) -> F {
        self.f
    }

    /// The view of the part of `view`'s value that `f` picks.
    pub fn new(view: V, f: F) -> (r: Self)
        ensures
            r.spec_view() == view,
            r.spec_f() == f,
    {
        MapView { view, f, _marker: PhantomData }
    }
}

impl<V, F, U> ViewBase for MapView<V, F, U> {
    type Value = U;
}

/// The callback that projects a value and lends the part to the next one.
struct Projected<'s, F, G, U> {
    f: &'s F,
    next: &'s mut G,
    _marker: PhantomData<U>,
}

impl<'s, T, E, U, F: Fn(&T) -> &U, G: ViewCallback<U, E>> ViewCallback<T, E> for Projected<
    's,
    F,
    G,
    U,
> {
    closed spec fn accepts_all(&self) -> bool {
        &&& forall|v: &T| #[trigger] call_requires(*self.f, (v,))
        &&& self.next.accepts_all()
    }

    closed spec fn gives(&self, v: &T, r: Result<(), E>) -> bool {
        exists|u: &U| call_ensures(*self.f, (v,), u) && #[trigger] self.next.gives(u, r)
    }

    fn call(&mut self, v: &T) -> (r: Result<(), E>) {
        let part = (self.f)(v);
        self.next.call(part)
    }
}

impl<V: View, F: Fn(&V::Value) -> &U, U> View for MapView<V, F, U> {
    type Error = V::Error;

    closed spec fn ready(&self) -> bool {
        &&& self.view.ready()
        &&& forall|v: &V::Value| #[trigger] call_requires(self.f, (v,))
    }

    closed spec fn own_failure(&self, r: Result<(), V::Error>) -> bool {
        self.view.own_failure(r)
    }

    /// The projections of the values the inner view lends.
    closed spec fn lends(&self, u: &U) -> bool {
        exists|v: &V::Value| self.view.lends(v) && #[trigger] call_ensures(self.f, (v,), u)
    }

    fn view<G: ViewCallback<U, V::Error>>(&self, f: &mut G) -> (r: Result<(), V::Error>) {
        let ghost g = *f;
        let mut projected = Projected { f: &self.f, next: f, _marker: PhantomData };
        let ghost p = projected;
        let r = self.view.view(&mut projected);
        proof {
            if !self.view.own_failure(r) {
                let v = choose|v: &V::Value| self.view.lends(v) && #[trigger] p.gives(v, r);
                let u = choose|u: &U| call_ensures(self.f, (v,), u) && #[trigger] g.gives(u, r);
                assert(self.lends(u));
            }
        }
        r
    }
}

/// `r` is the error `x` converted by `From`: an error, and exactly the
/// converted value where the conversion follows its specification.
pub open spec fn converts_error<E: From<X>, X>(x: X, r: Result<(), E>) -> bool {
    r matches Err(e) && (E::obeys_from_spec() ==> e == E::from_spec(x))
}

/// A view of a part of the value of another view, reached by a projection
/// that may fail; its error becomes an error of the view.
pub struct TryMapView<V, F, E, U> {
    view: V,
    f: F,
    _marker: PhantomData<(E, U)>,
}

impl<V, F, E, U> TryMapView<V, F, E, U> {
    /// The view of the whole value.
    pub closed spec fn spec_view(&self) -> V {
        self.view
    }

    /// The projection to the part.
    pub closed spec fn spec_f(&self) -> F {
        self.f
    }

    /// The view of the part of `view`'s value that `f` finds.
    pub fn new(view: V, f: F) -> (r: Self)
        ensures
            r.spec_view() == view,
            r.spec_f() == f,
    {
        TryMapView { view, f, _marker: PhantomData }
    }
}

impl<V, F, E, U> ViewBase for TryMapView<V, F, E, U> {
    type Value = U;
}

/// The callback that looks for a part of a value and lends it to the next
/// one, or fails with the error of the search.
struct TryProjected<'s, F, G, X, U> {
    f: &'s F,
    next: &'s mut G,
    _marker: PhantomData<(X, U)>,
}

impl<'s, T, E, X, U, F: Fn(&T) -> Result<&U, X>, G: ViewCallback<U, E>> ViewCallback<
    T,
    E,
> for TryProjected<'s, F, G, X, U> where E: From<X> {
    closed spec fn accepts_all(&self) -> bool {
        &&& forall|v: &T| #[trigger] call_requires(*self.f, (v,))
        &&& self.next.accepts_all()
    }

    closed spec fn gives(&self, v: &T, r: Result<(), E>) -> bool {
        ||| exists|u: &U| call_ensures(*self.f, (v,), Ok::<&U, X>(u)) && #[trigger] self.next.gives(u, r)
        ||| exists|x: X|
            #[trigger] call_ensures(*self.f, (v,), Err::<&U, X>(x)) && converts_error::<E, X>(
                x,
                r,
            )
    }

    fn call(&mut self, v: &T) -> (r: Result<(), E>) {
        match (self.f)(v) {
            Ok(part) => self.next.call(part),
            Err(x) => Err(E::from(x)),
        }
    }
}

impl<V: View, F: Fn(&V::Value) -> Result<&U, E>, E, U> View for TryMapView<V, F, E, U> where
    V::Error: From<E>,
 {
    type Error = V::Error;

    closed spec fn ready(&self) -> bool {
        &&& self.view.ready()
        &&& forall|v: &V::Value| #[trigger] call_requires(self.f, (v,))
    }

    closed spec fn own_failure(&self, r: Result<(), V::Error>) -> bool {
        ||| self.view.own_failure(r)
        ||| exists|v: &V::Value, x: E| #[trigger]
            call_ensures(self.f, (v,), Err::<&U, E>(x)) && converts_error::<V::Error, E>(x, r)
    }

    /// The parts found in the values the inner view lends.
    closed spec fn lends(&self, u: &U) -> bool {
        exists|v: &V::Value|
            self.view.lends(v) && #[trigger] call_ensures(self.f, (v,), Ok::<&U, E>(u))
    }

    fn view<G: ViewCallback<U, V::Error>>(&self, f: &mut G) -> (r: Result<(), V::Error>) {
        let ghost g = *f;
        let mut projected = TryProjected { f: &self.f, next: f, _marker: PhantomData };
        let ghost p = projected;
        let r = self.view.view(&mut projected);
        proof {
            if !self.view.own_failure(r) {
                let v = choose|v: &V::Value| self.view.lends(v) && #[trigger] p.gives(v, r);
                if exists|u: &U|
                    call_ensures(self.f, (v,), Ok::<&U, E>(u)) && #[trigger] g.gives(u, r) {
                    let u = choose|u: &U|
                        call_ensures(self.f, (v,), Ok::<&U, E>(u)) && #[trigger] g.gives(u, r);
                    assert(self.lends(u));
                }
            }
        }
        r
    }
}

/// The callback that projects a value mutably and lends the part to the
/// next one.
struct ProjectedMut<'s, F, G, U> {
    f: &'s F,
    next: &'s mut G,
    _marker: PhantomData<U>,
}

impl<'s, T, E, U, F: Fn(&mut T) -> &mut U, G: ViewMutCallback<U, E>> ViewMutCallback<
    T,
    E,
> for ProjectedMut<'s, F, G, U> {
    closed spec fn accepts_all(&self) -> bool {
        &&& forall|v: &mut T| #[trigger] call_requires(*self.f, (v,))
        &&& self.next.accepts_all()
    }

    closed spec fn gives(&self, v: T, r: Result<(), E>) -> bool {
        exists|m: &mut T, u: &mut U|
            *m == v && #[trigger] call_ensures(*self.f, (m,), u) && self.next.gives(*u, r)
    }

    fn call(&mut self, v: &mut T) -> (r: Result<(), E>) {
        let part = (self.f)(v);
        self.next.call(part)
    }
}

/// The callback that looks for a part of a value mutably and lends it to
/// the next one, or fails with the error of the search.
struct TryProjectedMut<'s, F, G, X, U> {
    f: &'s F,
    next: &'s mut G,
    _marker: PhantomData<(X, U)>,
}

impl<'s, T, E, X, U, F: Fn(&mut T) -> Result<&mut U, X>, G: ViewMutCallback<U, E>> ViewMutCallback<
    T,
    E,
> for TryProjectedMut<'s, F, G, X, U> where E: From<X> {
    closed spec fn accepts_all(&self) -> bool {
        &&& forall|v: &mut T| #[trigger] call_requires(*self.f, (v,))
        &&& self.next.accepts_all()
    }

    closed spec fn gives(&self, v: T, r: Result<(), E>) -> bool {
        ||| exists|m: &mut T, u: &mut U|
            *m == v && #[trigger] call_ensures(*self.f, (m,), Ok::<&mut U, X>(u))
                && self.next.gives(*u, r)
        ||| exists|m: &mut T, x: X|
            *m == v && #[trigger] call_ensures(*self.f, (m,), Err::<&mut U, X>(x))
                && converts_error::<E, X>(x, r)
    }

    fn call(&mut self, v: &mut T) -> (r: Result<(), E>) {
        match (self.f)(v) {
            Ok(part) => self.next.call(part),
            Err(x) => Err(E::from(x)),
        }
    }
}

impl<V: ViewMut, F: Fn(&mut V::Value) -> Result<&mut U, E>, E, U> ViewMut for TryMapView<
    V,
    F,
    E,
    U,
> where V::Error: From<E> {
    type Error = V::Error;

    closed spec fn ready(&self) -> bool {
        &&& self.view.ready()
        &&& forall|v: &mut V::Value| #[trigger] call_requires(self.f, (v,))
    }

    closed spec fn own_failure(&self, r: Result<(), V::Error>) -> bool {
        ||| self.view.own_failure(r)
        ||| exists|v: &mut V::Value, x: E| #[trigger]
            call_ensures(self.f, (v,), Err::<&mut U, E>(x)) && converts_error::<V::Error, E>(x, r)
    }

    /// The parts found in the values the inner view lends.
    closed spec fn lends(&self, u: U) -> bool {
        exists|m: &mut V::Value, y: &mut U|
            self.view.lends(*m) && *y == u && #[trigger] call_ensures(
                self.f,
                (m,),
                Ok::<&mut U, E>(y),
            )
    }

    fn view_mut<G: ViewMutCallback<U, V::Error>>(&self, f: &mut G) -> (r: Result<(), V::Error>) {
        let ghost g = *f;
        let mut projected = TryProjectedMut { f: &self.f, next: f, _marker: PhantomData };
        let ghost p = projected;
        let r = self.view.view_mut(&mut projected);
        proof {
            if !self.view.own_failure(r) {
                let v = choose|v: V::Value| self.view.lends(v) && #[trigger] p.gives(v, r);
                if exists|m: &mut V::Value, u: &mut U|
                    *m == v && #[trigger] call_ensures(self.f, (m,), Ok::<&mut U, E>(u))
                        && g.gives(*u, r) {
                    let (m, u) = choose|m: &mut V::Value, u: &mut U|
                        *m == v && #[trigger] call_ensures(self.f, (m,), Ok::<&mut U, E>(u))
                            && g.gives(*u, r);
                    assert(self.lends(*u));
                }
            }
        }
        r
    }
}

/// A mutable view of a part of the value of another mutable view, reached by
/// a projection.
pub struct MapViewMut<V, F, U> {
    view: V,
    f: F,
    _marker: PhantomData<U>,
}

impl<V, F, U> MapViewMut<V, F, U> {
    /// The view of the whole value.
    pub closed spec fn spec_view(&self) -> V {
        self.view
    }

    /// The projection to the part.
    pub closed spec fn spec_f(&self) -> F {
        self.f
    }

    /// The mutable view of the part of `view`'s value that `f` picks.
    pub fn new(view: V, f: F) -> (r: Self)
        ensures
            r.spec_view() == view,
            r.spec_f() == f,
    {
        MapViewMut { view, f, _marker: PhantomData }
    }
}

impl<V, F, U> ViewBase for MapViewMut<V, F, U> {
    type Value = U;
}

impl<V: ViewMut, F: Fn(&mut V::Value) -> &mut U, U> ViewMut for MapViewMut<V, F, U> {
    type Error = V::Error;

    closed spec fn ready(&self) -> bool {
        &&& self.view.ready()
        &&& forall|v: &mut V::Value| #[trigger] call_requires(self.f, (v,))
    }

    closed spec fn own_failure(&self, r: Result<(), V::Error>) -> bool {
        self.view.own_failure(r)
    }

    /// The projections of the values the inner view lends.
    closed spec fn lends(&self, u: U) -> bool {
        exists|m: &mut V::Value, y: &mut U|
            self.view.lends(*m) && *y == u && #[trigger] call_ensures(self.f, (m,), y)
    }

    fn view_mut<G: ViewMutCallback<U, V::Error>>(&self, f: &mut G) -> (r: Result<(), V::Error>) {
        let ghost g = *f;
        let mut projected = ProjectedMut { f: &self.f, next: f, _marker: PhantomData };
        let ghost p = projected;
        let r = self.view.view_mut(&mut projected);
        proof {
            if !self.view.own_failure(r) {
                let v = choose|v: V::Value| self.view.lends(v) && #[trigger] p.gives(v, r);
                let (m, u) = choose|m: &mut V::Value, u: &mut U|
                    *m == v && #[trigger] call_ensures(self.f, (m,), u) && g.gives(*u, r);
                assert(self.lends(*u));
            }
        }
        r
    }
}

} // verus!
