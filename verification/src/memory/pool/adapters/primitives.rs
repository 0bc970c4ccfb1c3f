use crate::memory::pool::lifecycle::{
    FromPool, IntoPool, PoolAcquireHandle, PoolReleaseHandle, Released, Taken, TryFromPool,
};
use vstd::prelude::*;

verus! {

// Primitive values own no heap memory: giving one back to a pool does
// nothing, and building one yields its default value.

impl IntoPool for bool {
    type Identity = bool;

    open spec fn gives_back(&self, before: Seq<Released>, after: Seq<Released>) -> bool {
        after == before
    }

    fn into_pool<H: PoolReleaseHandle>(self, _handle: &mut H) {
    }
}

impl FromPool for bool {
    open spec fn builds(before: Seq<Taken>, after: Seq<Taken>, r: Self) -> bool {
        after == before && r == false
    }

    fn from_pool<H: PoolAcquireHandle>(_handle: &mut H) -> (r: Self)
        ensures
            r == false,
    {
        false
    }
}

impl TryFromPool for bool {
    open spec fn tries(before: Seq<Taken>, after: Seq<Taken>, r: Option<Self>) -> bool {
        after == before && r == Some::<Self>(false)
    }

    fn try_from_pool<H: PoolAcquireHandle>(_handle: &mut H) -> (r: Option<Self>)
        ensures
            r == Some::<Self>(false),
    {
        Some(false)
    }
}

impl IntoPool for i8 {
    type Identity = i8;

    open spec fn gives_back(&self, before: Seq<Released>, after: Seq<Released>) -> bool {
        after == before
    }

    fn into_pool<H: PoolReleaseHandle>(self, _handle: &mut H) {
    }
}

impl FromPool for i8 {
    open spec fn builds(before: Seq<Taken>, after: Seq<Taken>, r: Self) -> bool {
        after == before && r == 0
    }

    fn from_pool<H: PoolAcquireHandle>(_handle: &mut H) -> (r: Self)
        ensures
            r == 0,
    {
        0
    }
}

impl TryFromPool for i8 {
    open spec fn tries(before: Seq<Taken>, after: Seq<Taken>, r: Option<Self>) -> bool {
        after == before && r == Some::<Self>(0)
    }

    fn try_from_pool<H: PoolAcquireHandle>(_handle: &mut H) -> (r: Option<Self>)
        ensures
            r == Some::<Self>(0),
    {
        Some(0)
    }
}

impl IntoPool for i16 {
    type Identity = i16;

    open spec fn gives_back(&self, before: Seq<Released>, after: Seq<Released>) -> bool {
        after == before
    }

    fn into_pool<H: PoolReleaseHandle>(self, _handle: &mut H) {
    }
}

impl FromPool for i16 {
    open spec fn builds(before: Seq<Taken>, after: Seq<Taken>, r: Self) -> bool {
        after == before && r == 0
    }

    fn from_pool<H: PoolAcquireHandle>(_handle: &mut H) -> (r: Self)
        ensures
            r == 0,
    {
        0
    }
}

impl TryFromPool for i16 {
    open spec fn tries(before: Seq<Taken>, after: Seq<Taken>, r: Option<Self>) -> bool {
        after == before && r == Some::<Self>(0)
    }

    fn try_from_pool<H: PoolAcquireHandle>(_handle: &mut H) -> (r: Option<Self>)
        ensures
            r == Some::<Self>(0),
    {
        Some(0)
    }
}

impl IntoPool for i32 {
    type Identity = i32;

    open spec fn gives_back(&self, before: Seq<Released>, after: Seq<Released>) -> bool {
        after == before
    }

    fn into_pool<H: PoolReleaseHandle>(self, _handle: &mut H) {
    }
}

impl FromPool for i32 {
    open spec fn builds(before: Seq<Taken>, after: Seq<Taken>, r: Self) -> bool {
        after == before && r == 0
    }

    fn from_pool<H: PoolAcquireHandle>(_handle: &mut H) -> (r: Self)
        ensures
            r == 0,
    {
        0
    }
}

impl TryFromPool for i32 {
    open spec fn tries(before: Seq<Taken>, after: Seq<Taken>, r: Option<Self>) -> bool {
        after == before && r == Some::<Self>(0)
    }

    fn try_from_pool<H: PoolAcquireHandle>(_handle: &mut H) -> (r: Option<Self>)
        ensures
            r == Some::<Self>(0),
    {
        Some(0)
    }
}

impl IntoPool for i64 {
    type Identity = i64;

    open spec fn gives_back(&self, before: Seq<Released>, after: Seq<Released>) -> bool {
        after == before
    }

    fn into_pool<H: PoolReleaseHandle>(self, _handle: &mut H) {
    }
}

impl FromPool for i64 {
    open spec fn builds(before: Seq<Taken>, after: Seq<Taken>, r: Self) -> bool {
        after == before && r == 0
    }

    fn from_pool<H: PoolAcquireHandle>(_handle: &mut H) -> (r: Self)
        ensures
            r == 0,
    {
        0
    }
}

impl TryFromPool for i64 {
    open spec fn tries(before: Seq<Taken>, after: Seq<Taken>, r: Option<Self>) -> bool {
        after == before && r == Some::<Self>(0)
    }

    fn try_from_pool<H: PoolAcquireHandle>(_handle: &mut H) -> (r: Option<Self>)
        ensures
            r == Some::<Self>(0),
    {
        Some(0)
    }
}

impl IntoPool for i128 {
    type Identity = i128;

    open spec fn gives_back(&self, before: Seq<Released>, after: Seq<Released>) -> bool {
        after == before
    }

    fn into_pool<H: PoolReleaseHandle>(self, _handle: &mut H) {
    }
}

impl FromPool for i128 {
    open spec fn builds(before: Seq<Taken>, after: Seq<Taken>, r: Self) -> bool {
        after == before && r == 0
    }

    fn from_pool<H: PoolAcquireHandle>(_handle: &mut H) -> (r: Self)
        ensures
            r == 0,
    {
        0
    }
}

impl TryFromPool for i128 {
    open spec fn tries(before: Seq<Taken>, after: Seq<Taken>, r: Option<Self>) -> bool {
        after == before && r == Some::<Self>(0)
    }

    fn try_from_pool<H: PoolAcquireHandle>(_handle: &mut H) -> (r: Option<Self>)
        ensures
            r == Some::<Self>(0),
    {
        Some(0)
    }
}

impl IntoPool for isize {
    type Identity = isize;

    open spec fn gives_back(&self, before: Seq<Released>, after: Seq<Released>) -> bool {
        after == before
    }

    fn into_pool<H: PoolReleaseHandle>(self, _handle: &mut H) {
    }
}

impl FromPool for isize {
    open spec fn builds(before: Seq<Taken>, after: Seq<Taken>, r: Self) -> bool {
        after == before && r == 0
    }

    fn from_pool<H: PoolAcquireHandle>(_handle: &mut H) -> (r: Self)
        ensures
            r == 0,
    {
        0
    }
}

impl TryFromPool for isize {
    open spec fn tries(before: Seq<Taken>, after: Seq<Taken>, r: Option<Self>) -> bool {
        after == before && r == Some::<Self>(0)
    }

    fn try_from_pool<H: PoolAcquireHandle>(_handle: &mut H) -> (r: Option<Self>)
        ensures
            r == Some::<Self>(0),
    {
        Some(0)
    }
}

impl IntoPool for u8 {
    type Identity = u8;

    open spec fn gives_back(&self, before: Seq<Released>, after: Seq<Released>) -> bool {
        after == before
    }

    fn into_pool<H: PoolReleaseHandle>(self, _handle: &mut H) {
    }
}

impl FromPool for u8 {
    open spec fn builds(before: Seq<Taken>, after: Seq<Taken>, r: Self) -> bool {
        after == before && r == 0
    }

    fn from_pool<H: PoolAcquireHandle>(_handle: &mut H) -> (r: Self)
        ensures
            r == 0,
    {
        0
    }
}

impl TryFromPool for u8 {
    open spec fn tries(before: Seq<Taken>, after: Seq<Taken>, r: Option<Self>) -> bool {
        after == before && r == Some::<Self>(0)
    }

    fn try_from_pool<H: PoolAcquireHandle>(_handle: &mut H) -> (r: Option<Self>)
        ensures
            r == Some::<Self>(0),
    {
        Some(0)
    }
}

impl IntoPool for u16 {
    type Identity = u16;

    open spec fn gives_back(&self, before: Seq<Released>, after: Seq<Released>) -> bool {
        after == before
    }

    fn into_pool<H: PoolReleaseHandle>(self, _handle: &mut H) {
    }
}

impl FromPool for u16 {
    open spec fn builds(before: Seq<Taken>, after: Seq<Taken>, r: Self) -> bool {
        after == before && r == 0
    }

    fn from_pool<H: PoolAcquireHandle>(_handle: &mut H) -> (r: Self)
        ensures
            r == 0,
    {
        0
    }
}

impl TryFromPool for u16 {
    open spec fn tries(before: Seq<Taken>, after: Seq<Taken>, r: Option<Self>) -> bool {
        after == before && r == Some::<Self>(0)
    }

    fn try_from_pool<H: PoolAcquireHandle>(_handle: &mut H) -> (r: Option<Self>)
        ensures
            r == Some::<Self>(0),
    {
        Some(0)
    }
}

impl IntoPool for u32 {
    type Identity = u32;

    open spec fn gives_back(&self, before: Seq<Released>, after: Seq<Released>) -> bool {
        after == before
    }

    fn into_pool<H: PoolReleaseHandle>(self, _handle: &mut H) {
    }
}

impl FromPool for u32 {
    open spec fn builds(before: Seq<Taken>, after: Seq<Taken>, r: Self) -> bool {
        after == before && r == 0
    }

    fn from_pool<H: PoolAcquireHandle>(_handle: &mut H) -> (r: Self)
        ensures
            r == 0,
    {
        0
    }
}

impl TryFromPool for u32 {
    open spec fn tries(before: Seq<Taken>, after: Seq<Taken>, r: Option<Self>) -> bool {
        after == before && r == Some::<Self>(0)
    }

    fn try_from_pool<H: PoolAcquireHandle>(_handle: &mut H) -> (r: Option<Self>)
        ensures
            r == Some::<Self>(0),
    {
        Some(0)
    }
}

impl IntoPool for u64 {
    type Identity = u64;

    open spec fn gives_back(&self, before: Seq<Released>, after: Seq<Released>) -> bool {
        after == before
    }

    fn into_pool<H: PoolReleaseHandle>(self, _handle: &mut H) {
    }
}

impl FromPool for u64 {
    open spec fn builds(before: Seq<Taken>, after: Seq<Taken>, r: Self) -> bool {
        after == before && r == 0
    }

    fn from_pool<H: PoolAcquireHandle>(_handle: &mut H) -> (r: Self)
        ensures
            r == 0,
    {
        0
    }
}

impl TryFromPool for u64 {
    open spec fn tries(before: Seq<Taken>, after: Seq<Taken>, r: Option<Self>) -> bool {
        after == before && r == Some::<Self>(0)
    }

    fn try_from_pool<H: PoolAcquireHandle>(_handle: &mut H) -> (r: Option<Self>)
        ensures
            r == Some::<Self>(0),
    {
        Some(0)
    }
}

impl IntoPool for u128 {
    type Identity = u128;

    open spec fn gives_back(&self, before: Seq<Released>, after: Seq<Released>) -> bool {
        after == before
    }

    fn into_pool<H: PoolReleaseHandle>(self, _handle: &mut H) {
    }
}

impl FromPool for u128 {
    open spec fn builds(before: Seq<Taken>, after: Seq<Taken>, r: Self) -> bool {
        after == before && r == 0
    }

    fn from_pool<H: PoolAcquireHandle>(_handle: &mut H) -> (r: Self)
        ensures
            r == 0,
    {
        0
    }
}

impl TryFromPool for u128 {
    open spec fn tries(before: Seq<Taken>, after: Seq<Taken>, r: Option<Self>) -> bool {
        after == before && r == Some::<Self>(0)
    }

    fn try_from_pool<H: PoolAcquireHandle>(_handle: &mut H) -> (r: Option<Self>)
        ensures
            r == Some::<Self>(0),
    {
        Some(0)
    }
}

impl IntoPool for usize {
    type Identity = usize;

    open spec fn gives_back(&self, before: Seq<Released>, after: Seq<Released>) -> bool {
        after == before
    }

    fn into_pool<H: PoolReleaseHandle>(self, _handle: &mut H) {
    }
}

impl FromPool for usize {
    open spec fn builds(before: Seq<Taken>, after: Seq<Taken>, r: Self) -> bool {
        after == before && r == 0
    }

    fn from_pool<H: PoolAcquireHandle>(_handle: &mut H) -> (r: Self)
        ensures
            r == 0,
    {
        0
    }
}

impl TryFromPool for usize {
    open spec fn tries(before: Seq<Taken>, after: Seq<Taken>, r: Option<Self>) -> bool {
        after == before && r == Some::<Self>(0)
    }

    fn try_from_pool<H: PoolAcquireHandle>(_handle: &mut H) -> (r: Option<Self>)
        ensures
            r == Some::<Self>(0),
    {
        Some(0)
    }
}

impl IntoPool for char {
    type Identity = char;

    open spec fn gives_back(&self, before: Seq<Released>, after: Seq<Released>) -> bool {
        after == before
    }

    fn into_pool<H: PoolReleaseHandle>(self, _handle: &mut H) {
    }
}

impl FromPool for char {
    open spec fn builds(before: Seq<Taken>, after: Seq<Taken>, r: Self) -> bool {
        after == before && r == '\0'
    }

    fn from_pool<H: PoolAcquireHandle>(_handle: &mut H) -> (r: Self)
        ensures
            r == '\0',
    {
        '\0'
    }
}

impl TryFromPool for char {
    open spec fn tries(before: Seq<Taken>, after: Seq<Taken>, r: Option<Self>) -> bool {
        after == before && r == Some::<Self>('\0')
    }

    fn try_from_pool<H: PoolAcquireHandle>(_handle: &mut H) -> (r: Option<Self>)
        ensures
            r == Some::<Self>('\0'),
    {
        Some('\0')
    }
}

} // verus!
