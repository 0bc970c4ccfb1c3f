use vstd::prelude::*;

verus! {

/// A callback that is lent a shared reference to a value.
///
/// Every `FnMut(&V) -> Result<(), E>` closure is one.
pub trait ViewCallback<V, E> {
    /// Whether the callback may be called with any value.
    spec fn accepts_all(&self) -> bool;

    /// Whether a call with `v` may return `r`.
    spec fn gives(&self, v: &V, r: Result<(), E>) -> bool;

    /// Calls the callback with `v`.
    fn call(&mut self, v: &V) -> (r: Result<(), E>)
        requires
            old(self).accepts_all(),
        ensures
            old(self).gives(v, r),
    ;
}

impl<V, E, G: FnMut(&V) -> Result<(), E>> ViewCallback<V, E> for G {
    open spec fn accepts_all(&self) -> bool {
        forall|v: &V| call_requires(*self, (v,))
    }

    open spec fn gives(&self, v: &V, r: Result<(), E>) -> bool {
        call_ensures(*self, (v,), r)
    }

    fn call(&mut self, v: &V) -> (r: Result<(), E>) {
        self(v)
    }
}

/// A callback that is lent a mutable reference to a value.
///
/// Every `FnMut(&mut V) -> Result<(), E>` closure is one.
pub trait ViewMutCallback<V, E> {
    /// Whether the callback may be called with any value.
    spec fn accepts_all(&self) -> bool;

    /// Whether a call that is lent the value `v` may return `r`.
    spec fn gives(&self, v: V, r: Result<(), E>) -> bool;

    /// Calls the callback with `v`, which it may change.
    fn call(&mut self, v: &mut V) -> (r: Result<(), E>)
        requires
            old(self).accepts_all(),
        ensures
            old(self).gives(*old(v), r),
    ;
}

impl<V, E, G: FnMut(&mut V) -> Result<(), E>> ViewMutCallback<V, E> for G {
    open spec fn accepts_all(&self) -> bool {
        forall|m: &mut V| call_requires(*self, (m,))
    }

    open spec fn gives(&self, v: V, r: Result<(), E>) -> bool {
        exists|m: &mut V| *m == v && call_ensures(*self, (m,), r)
    }

    fn call(&mut self, v: &mut V) -> (r: Result<(), E>) {
        self(v)
    }
}

/// A type that gives access to a value of type `Value`.
pub trait ViewBase {
    type Value;
}

/// Shared access to a value, lent to a callback.
///
/// Access happens only inside the callback, so the implementation decides
/// how long the reference lives: it may take a lock around the call, or
/// compute the value on the spot. `ready` tells whether the view can lend
/// every value it may meet to a callback that accepts them all.
pub trait View: ViewBase {
    /// What can go wrong when accessing the value.
    type Error;

    /// Whether every step of the view accepts every value it may be given.
    spec fn ready(&self) -> bool;

    /// Whether `r` is an error that the view may meet itself while reaching
    /// the value, before any callback runs.
    spec fn own_failure(&self, r: Result<(), Self::Error>) -> bool;

    /// Whether `v` is a value the view may lend: the value it reaches.
    spec fn lends(&self, v: &Self::Value) -> bool;

    /// Lends the value to `f` and returns what `f` returns, or the error
    /// met while reaching the value.
    fn view<G: ViewCallback<Self::Value, Self::Error>>(&self, f: &mut G) -> (r: Result<
        (),
        Self::Error,
    >)
        requires
            self.ready(),
            old(f).accepts_all(),
        ensures
            self.own_failure(r) || exists|v: &Self::Value|
                self.lends(v) && #[trigger] old(f).gives(v, r),
    ;
}

/// Mutable access to a value, lent to a callback.
///
/// This is not a kind of [`View`]: mutable access usually needs an
/// exclusive lock where shared access needs a cheaper shared one. The
/// [`Freeze`](super::Freeze) bridge turns one into the other explicitly.
pub trait ViewMut: ViewBase {
    /// What can go wrong when accessing the value.
    type Error;

    /// Whether every step of the view accepts every value it may be given.
    spec fn ready(&self) -> bool;

    /// Whether `r` is an error that the view may meet itself while reaching
    /// the value, before any callback runs.
    spec fn own_failure(&self, r: Result<(), Self::Error>) -> bool;

    /// Whether `v` is a value the view may lend: the value it reaches, as
    /// it stands when the callback is called.
    spec fn lends(&self, v: Self::Value) -> bool;

    /// Lends the value mutably to `f` and returns what `f` returns, or the
    /// error met while reaching the value.
    fn view_mut<G: ViewMutCallback<Self::Value, Self::Error>>(&self, f: &mut G) -> (r: Result<
        (),
        Self::Error,
    >)
        requires
            self.ready(),
            old(f).accepts_all(),
        ensures
            self.own_failure(r) || exists|v: Self::Value|
                self.lends(v) && #[trigger] old(f).gives(v, r),
    ;
}

} // verus!
