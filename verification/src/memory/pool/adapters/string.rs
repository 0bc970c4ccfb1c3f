use crate::memory::pool::lifecycle::{
    gives_back_all, FromPool, IntoPool, PoolAcquireHandle, PoolReleaseHandle, Released, Taken, TryFromPool,
};
use vstd::layout::{align_of, size_of};
use vstd::prelude::*;
use vstd::utf8::{decode_utf8, encode_utf8, valid_utf8};

verus! {

broadcast use {vstd::layout::layout_of_primitives, vstd::layout::align_of_u8};

/// The identity shared by strings: buffers of UTF-8 bytes.
pub struct UTF8Byte;

impl IntoPool for String {
    type Identity = UTF8Byte;

    /// The string gives back its byte buffer, if it has one, and nothing
    /// else: an array of bytes at least as long as the string. A non-empty
    /// string always has one.
    open spec fn gives_back(&self, before: Seq<Released>, after: Seq<Released>) -> bool {
        ||| after == before && self@.len() == 0
        ||| {
            &&& after.len() == before.len() + 1
            &&& after.drop_last() == before
            &&& after.last() matches Released::Array(_, a)
            &&& a.spec_element_size() == 1
            &&& a.spec_layout().align() == 1
            &&& a.spec_layout().size() >= self@.len()
        }
    }

    /// Gives back the buffer of the string's UTF-8 bytes.
    fn into_pool<H: PoolReleaseHandle>(self, handle: &mut H) {
        let ghost chars = self@;
        let bytes = string_into_bytes(self);
        proof {
            lemma_encoding_is_not_shorter(chars);
        }
        let ghost start = handle.released();
        let ghost b = bytes@;
        bytes.into_pool(handle);
        proof {
            let mid = choose|mid: Seq<Released>|
                #[trigger] gives_back_all(b, start, mid) && {
                    ||| handle.released() == mid && !(size_of::<u8>() > 0 && b.len() > 0)
                    ||| {
                        &&& handle.released().len() == mid.len() + 1
                        &&& handle.released().drop_last() == mid
                        &&& handle.released().last() matches Released::Array(_, a)
                        &&& a.spec_element_size() == size_of::<u8>()
                        &&& a.spec_layout().align() == align_of::<u8>()
                        &&& a.spec_layout().size() >= b.len() * size_of::<u8>()
                    }
                };
            lemma_bytes_give_back_nothing(b, start, mid);
        }
    }
}

impl FromPool for String {
    /// An empty string, after one request for an array of bytes.
    open spec fn builds(before: Seq<Taken>, after: Seq<Taken>, r: Self) -> bool {
        &&& r@.len() == 0
        &&& after.len() == before.len() + 1
        &&& after.drop_last() == before
        &&& after.last() matches Taken::Array(_, alignment, element_size, _)
        &&& alignment == 1
        &&& element_size == 1
    }

    /// Reuses a cached byte buffer, or starts an empty string.
    fn from_pool<H: PoolAcquireHandle>(handle: &mut H) -> (r: Self) {
        match Self::try_from_pool(handle) {
            Some(s) => s,
            None => String::new(),
        }
    }
}

impl TryFromPool for String {
    /// One request for an array of bytes, which succeeds, with an empty
    /// string, exactly when it finds one.
    open spec fn tries(before: Seq<Taken>, after: Seq<Taken>, r: Option<Self>) -> bool {
        &&& r matches Some(s) ==> s@.len() == 0
        &&& after.len() == before.len() + 1
        &&& after.drop_last() == before
        &&& after.last() matches Taken::Array(_, alignment, element_size, found)
        &&& alignment == 1
        &&& element_size == 1
        &&& (r is Some <==> found is Some)
    }

    /// An empty string over a cached byte buffer.
    ///
    /// The buffer holds no byte, which is valid UTF-8, so the conversion
    /// cannot fail.
    fn try_from_pool<H: PoolAcquireHandle>(handle: &mut H) -> (r: Option<Self>) {
        let buffer = Vec::<u8>::try_from_pool(handle)?;
        proof {
            assert(buffer@ =~= Seq::<u8>::empty());
            assert(valid_utf8(buffer@));
            assert(decode_utf8(buffer@) =~= Seq::<char>::empty());
        }
        match string_from_utf8(buffer) {
            Ok(s) => Some(s),
            Err(_) => {
                proof {
                    assert(false);
                }
                None
            },
        }
    }
}

/// Bytes own no allocation: giving back a sequence of them leaves a log
/// unchanged.
proof fn lemma_bytes_give_back_nothing(items: Seq<u8>, before: Seq<Released>, after: Seq<Released>)
    requires
        gives_back_all(items, before, after),
    ensures
        after == before,
    decreases items.len(),
{
    if items.len() > 0 {
        let mid = choose|mid: Seq<Released>|
            gives_back_all(items.drop_last(), before, mid) && #[trigger] items.last().gives_back(
                mid,
                after,
            );
        lemma_bytes_give_back_nothing(items.drop_last(), before, mid);
    }
}

/// The UTF-8 encoding of a text has at least one byte per character.
proof fn lemma_encoding_is_not_shorter(chars: Seq<char>)
    ensures
        encode_utf8(chars).len() >= chars.len(),
    decreases chars.len(),
{
    if chars.len() > 0 {
        lemma_encoding_is_not_shorter(chars.drop_first());
    }
}

/// Calls `String::into_bytes`, which hands over the string's UTF-8 bytes.
#[verifier::external_body]
fn string_into_bytes(s: String) -> (r: Vec<u8>)
    ensures
        r@ == encode_utf8(s@),
{
    s.into_bytes()
}

/// Calls `String::from_utf8`, which accepts exactly the valid UTF-8 byte
/// sequences and keeps their characters.
#[verifier::external_body]
fn string_from_utf8(v: Vec<u8>) -> (r: Result<String, std::string::FromUtf8Error>)
    ensures
        r is Ok <==> valid_utf8(v@),
        r matches Ok(s) ==> s@ == decode_utf8(v@),
{
    String::from_utf8(v)
}

#[verifier::external_type_specification]
#[verifier::external_body]
pub struct ExFromUtf8Error(std::string::FromUtf8Error);

} // verus!
