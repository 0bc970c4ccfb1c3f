use super::view::{View, ViewBase, ViewCallback, ViewMut, ViewMutCallback};
use core::marker::PhantomData;
use vstd::prelude::*;

verus! {

/// A view of a value computed from the value of another view.
///
/// The computation is given the source value; the value it computes is
/// lent to the callback, and an error it reports becomes the result.
pub struct ComputeView<V, F, U> {
    view: V,
    f: F,
    _marker: PhantomData<U>,
}

impl<V, F, U> ComputeView<V, F, U> {
    /// The view of the source value.
    pub closed spec fn spec_view(&self) -> V {
        self.view
    }

    /// The computation.
    pub closed spec fn spec_f(&self) -> F {
        self.f
    }

    /// The view of what `f` computes from `view`'s value.
    pub fn new(view: V, f: F) -> (r: Self)
        ensures
            r.spec_view() == view,
            r.spec_f() == f,
    {
        ComputeView { view, f, _marker: PhantomData }
    }
}

impl<V, F, U> ViewBase for ComputeView<V, F, U> {
    type Value = U;
}

/// The callback that computes a value from the one it is lent and lends
/// the result to the next callback.
struct Computed<'s, F, G, U> {
    f: &'s F,
    next: &'s mut G,
    _marker: PhantomData<U>,
}

impl<'s, T, E, U, F: Fn(&T) -> Result<U, E>, G: ViewCallback<U, E>> ViewCallback<T, E> for Computed<
    's,
    F,
    G,
    U,
> {
    closed spec fn accepts_all(&self) -> bool {
        &&& forall|v: &T| #[trigger] call_requires(*self.f, (v,))
        &&& self.next.accepts_all()
    }

    closed spec fn gives(&self, v: &T, r: Result<(), E>) -> bool {
        ||| exists|u: U| #[trigger] call_ensures(*self.f, (v,), Ok::<U, E>(u)) && self.next.gives(
            &u,
            r,
        )
        ||| exists|e: E| #[trigger] call_ensures(*self.f, (v,), Err::<U, E>(e)) && r == Err::<(), E>(e)
    }

    fn call(&mut self, v: &T) -> (r: Result<(), E>) {
        match (self.f)(v) {
            Ok(computed) => self.next.call(&computed),
            Err(e) => Err(e),
        }
    }
}

impl<V: View, F: Fn(&V::Value) -> Result<U, V::Error>, U> View for ComputeView<V, F, U> {
    type Error = V::Error;

    closed spec fn ready(&self) -> bool {
        &&& self.view.ready()
        &&& forall|v: &V::Value| #[trigger] call_requires(self.f, (v,))
    }

    closed spec fn own_failure(&self, r: Result<(), V::Error>) -> bool {
        ||| self.view.own_failure(r)
        ||| exists|v: &V::Value, e: V::Error| #[trigger]
            call_ensures(self.f, (v,), Err::<U, V::Error>(e)) && r == Err::<(), V::Error>(e)
    }

    /// The values computed from the values the inner view lends.
    closed spec fn lends(&self, u: &U) -> bool {
        exists|v: &V::Value|
            self.view.lends(v) && #[trigger] call_ensures(self.f, (v,), Ok::<U, V::Error>(*u))
    }

    fn view<G: ViewCallback<U, V::Error>>(&self, f: &mut G) -> (r: Result<(), V::Error>) {
        let ghost g = *f;
        let mut computed = Computed { f: &self.f, next: f, _marker: PhantomData };
        let ghost c = computed;
        let r = self.view.view(&mut computed);
        proof {
            if !self.view.own_failure(r) {
                let v = choose|v: &V::Value| self.view.lends(v) && #[trigger] c.gives(v, r);
                if exists|u: U|
                    #[trigger] call_ensures(self.f, (v,), Ok::<U, V::Error>(u)) && g.gives(&u, r) {
                    let u = choose|u: U|
                        #[trigger] call_ensures(self.f, (v,), Ok::<U, V::Error>(u)) && g.gives(
                            &u,
                            r,
                        );
                    assert(self.lends(&u));
                }
            }
        }
        r
    }
}

/// A mutable view of a value computed from the value of another mutable
/// view.
///
/// The computation may change the source value while it computes; the
/// value it computes is lent mutably to the callback.
pub struct ComputeViewMut<V, F, U> {
    view: V,
    f: F,
    _marker: PhantomData<U>,
}

impl<V, F, U> ComputeViewMut<V, F, U> {
    /// The view of the source value.
    pub closed spec fn spec_view(&self) -> V {
        self.view
    }

    /// The computation.
    pub closed spec fn spec_f(&self) -> F {
        self.f
    }

    /// The mutable view of what `f` computes from `view`'s value.
    pub fn new(view: V, f: F) -> (r: Self)
        ensures
            r.spec_view() == view,
            r.spec_f() == f,
    {
        ComputeViewMut { view, f, _marker: PhantomData }
    }
}

impl<V, F, U> ViewBase for ComputeViewMut<V, F, U> {
    type Value = U;
}

/// The callback that computes a value from the one it is lent mutably and
/// lends the result mutably to the next callback.
struct ComputedMut<'s, F, G, U> {
    f: &'s F,
    next: &'s mut G,
    _marker: PhantomData<U>,
}

impl<'s, T, E, U, F: Fn(&mut T) -> Result<U, E>, G: ViewMutCallback<U, E>> ViewMutCallback<
    T,
    E,
> for ComputedMut<'s, F, G, U> {
    closed spec fn accepts_all(&self) -> bool {
        &&& forall|v: &mut T| #[trigger] call_requires(*self.f, (v,))
        &&& self.next.accepts_all()
    }

    closed spec fn gives(&self, v: T, r: Result<(), E>) -> bool {
        ||| exists|m: &mut T, u: U|
            *m == v && #[trigger] call_ensures(*self.f, (m,), Ok::<U, E>(u)) && self.next.gives(u, r)
        ||| exists|m: &mut T, e: E|
            *m == v && #[trigger] call_ensures(*self.f, (m,), Err::<U, E>(e)) && r == Err::<(), E>(e)
    }

    fn call(&mut self, v: &mut T) -> (r: Result<(), E>) {
        match (self.f)(v) {
            Ok(computed) => {
                let mut computed = computed;
                self.next.call(&mut computed)
            },
            Err(e) => Err(e),
        }
    }
}

impl<V: ViewMut, F: Fn(&mut V::Value) -> Result<U, V::Error>, U> ViewMut for ComputeViewMut<
    V,
    F,
    U,
> {
    type Error = V::Error;

    closed spec fn ready(&self) -> bool {
        &&& self.view.ready()
        &&& forall|v: &mut V::Value| #[trigger] call_requires(self.f, (v,))
    }

    closed spec fn own_failure(&self, r: Result<(), V::Error>) -> bool {
        ||| self.view.own_failure(r)
        ||| exists|v: &mut V::Value, e: V::Error| #[trigger]
            call_ensures(self.f, (v,), Err::<U, V::Error>(e)) && r == Err::<(), V::Error>(e)
    }

    /// The values computed from the values the inner view lends.
    closed spec fn lends(&self, u: U) -> bool {
        exists|m: &mut V::Value|
            self.view.lends(*m) && #[trigger] call_ensures(
                self.f,
                (m,),
                Ok::<U, V::Error>(u),
            )
    }

    fn view_mut<G: ViewMutCallback<U, V::Error>>(&self, f: &mut G) -> (r: Result<(), V::Error>) {
        let ghost g = *f;
        let mut computed = ComputedMut { f: &self.f, next: f, _marker: PhantomData };
        let ghost c = computed;
        let r = self.view.view_mut(&mut computed);
        proof {
            if !self.view.own_failure(r) {
                let v = choose|v: V::Value| self.view.lends(v) && #[trigger] c.gives(v, r);
                if exists|m: &mut V::Value, u: U|
                    *m == v && #[trigger] call_ensures(self.f, (m,), Ok::<U, V::Error>(u))
                        && g.gives(u, r) {
                    let (m, u) = choose|m: &mut V::Value, u: U|
                        *m == v && #[trigger] call_ensures(self.f, (m,), Ok::<U, V::Error>(u))
                            && g.gives(u, r);
                    assert(self.lends(u));
                }
            }
        }
        r
    }
}

} // verus!
