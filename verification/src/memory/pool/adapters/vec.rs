use crate::memory::pool::lifecycle::{
    gives_back_all, type_identity, FromPool, IntoPool, PoolAcquireHandle, PoolReleaseHandle, Released, Taken,
    TryFromPool,
};
use vstd::layout::{align_of, size_of};
use crate::memory::ArrayAllocation;
use std::any::TypeId;
use vstd::prelude::*;

verus! {

impl<T: IntoPool> IntoPool for Vec<T> {
    type Identity = Vec<T::Identity>;

    /// The elements are given back one after another, in order, then the
    /// buffer, if the vector has one: an array of the elements' size and
    /// alignment, large enough for all of them. A non-empty vector of
    /// elements of positive size always has one. The log only grows.
    open spec fn gives_back(&self, before: Seq<Released>, after: Seq<Released>) -> bool {
        &&& before.is_prefix_of(after)
        &&& exists|mid: Seq<Released>|
            #[trigger] gives_back_all(self@, before, mid) && {
                ||| after == mid && !(size_of::<T>() > 0 && self@.len() > 0)
                ||| {
                    &&& after.len() == mid.len() + 1
                    &&& after.drop_last() == mid
                    &&& after.last() matches Released::Array(_, a)
                    &&& a.spec_element_size() == size_of::<T>()
                    &&& a.spec_layout().align() == align_of::<T>()
                    &&& a.spec_layout().size() >= self@.len() * size_of::<T>()
                }
            }
    }

    /// Deconstructs the elements in order, then returns the buffer.
    fn into_pool<H: PoolReleaseHandle>(self, handle: &mut H) {
        let ghost start = handle.released();
        let ghost orig = self@;
        let ghost n = self@.len();
        let buffer = ArrayAllocation::of_buffer(&self);
        let mut items = self;
        let mut reversed: Vec<T> = Vec::new();
        while items.len() > 0
            invariant
                n == orig.len(),
                items@.len() <= n,
                items@ == orig.take(items@.len() as int),
                reversed@.len() == n - items@.len(),
                forall|j: int| 0 <= j < reversed@.len() ==> #[trigger] reversed@[j] == orig[n - 1 - j],
            decreases items@.len(),
        {
            let ghost before = items@;
            let item = items.pop().unwrap();
            proof {
                assert(items@ =~= orig.take(items@.len() as int));
            }
            reversed.push(item);
        }
        proof {
            assert(gives_back_all(orig.take(0), start, start));
        }
        while reversed.len() > 0
            invariant
                n == orig.len(),
                reversed@.len() <= n,
                forall|j: int| 0 <= j < reversed@.len() ==> #[trigger] reversed@[j] == orig[n - 1 - j],
                start.is_prefix_of(handle.released()),
                gives_back_all(orig.take(n - reversed@.len()), start, handle.released()),
            decreases reversed@.len(),
        {
            let ghost k = n - reversed@.len();
            let ghost mid = handle.released();
            let ghost last = reversed@.len() - 1;
            let item = reversed.pop().unwrap();
            proof {
                assert(item == orig[n - 1 - last]);
            }
            item.into_pool(handle);
            proof {
                let done = orig.take(k + 1);
                assert(done.drop_last() =~= orig.take(k));
                assert(done.last() == item);
                assert(gives_back_all(done.drop_last(), start, mid));
                assert(done.last().gives_back(mid, handle.released()));
                assert(gives_back_all(done, start, handle.released()));
                assert(mid.is_prefix_of(handle.released()));
            }
        }
        proof {
            assert(orig.take(n as int) =~= orig);
        }
        let ghost mid = handle.released();
        if let Some(array) = buffer {
            handle.put_array(vec_identity::<T>(), array);
            proof {
                assert(mid.is_prefix_of(handle.released()));
                assert(handle.released().drop_last() =~= mid);
            }
        }
        proof {
            assert(gives_back_all(orig, start, mid));
        }
    }
}

impl<T: IntoPool> FromPool for Vec<T> {
    /// An empty vector, after one request for an array of the size and
    /// alignment of `T`.
    open spec fn builds(before: Seq<Taken>, after: Seq<Taken>, r: Self) -> bool {
        &&& r@.len() == 0
        &&& after.len() == before.len() + 1
        &&& after.drop_last() == before
        &&& after.last() matches Taken::Array(_, alignment, element_size, _)
        &&& alignment == align_of::<T>()
        &&& element_size == size_of::<T>()
    }

    /// Reuses a cached buffer, or starts an empty vector.
    fn from_pool<H: PoolAcquireHandle>(handle: &mut H) -> (r: Self) {
        match Self::try_from_pool(handle) {
            Some(v) => v,
            None => Vec::new(),
        }
    }
}

impl<T: IntoPool> TryFromPool for Vec<T> {
    /// One request for an array of the size and alignment of `T`, which
    /// succeeds, with an empty vector, exactly when it finds one.
    open spec fn tries(before: Seq<Taken>, after: Seq<Taken>, r: Option<Self>) -> bool {
        &&& r matches Some(v) ==> v@.len() == 0
        &&& after.len() == before.len() + 1
        &&& after.drop_last() == before
        &&& after.last() matches Taken::Array(_, alignment, element_size, found)
        &&& alignment == align_of::<T>()
        &&& element_size == size_of::<T>()
        &&& (r is Some <==> found is Some)
    }

    /// An empty vector over a cached buffer of the right shape.
    ///
    /// A buffer that the handle gives for that shape always holds elements
    /// of `T`.
    fn try_from_pool<H: PoolAcquireHandle>(handle: &mut H) -> (r: Option<Self>) {
        let id = vec_identity::<T>();
        let found = handle.take_array(id, core::mem::align_of::<T>(), core::mem::size_of::<T>());
        let r = match found {
            Some(array) => {
                let element_size = array.element_size();
                match array.into_vec::<T>() {
                    Ok(v) => Some(v),
                    Err(_) => {
                        proof {
                            assert(false);
                        }
                        None
                    },
                }
            },
            None => None,
        };
        proof {
            assert(handle.taken().drop_last() =~= old(handle).taken());
        }
        r
    }
}

/// The identity under which vectors of `T` give back and ask for their
/// buffers: both directions use this one function, so a buffer a vector
/// gives back is asked for under the identity it was given under.
fn vec_identity<T: IntoPool>() -> TypeId {
    type_identity::<Vec<T::Identity>>()
}

} // verus!
