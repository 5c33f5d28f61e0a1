//! `bytes::Bytes`, seen as the sequence of bytes it holds.

use bytes::Bytes;
use vstd::prelude::*;

verus! {

/// `bytes::Bytes`: a cheaply cloneable, immutable run of bytes.
#[verifier::external_type_specification]
#[verifier::external_body]
pub struct ExBytes(Bytes);

/// The bytes that a `Bytes` holds, in order.
pub uninterp spec fn contents(b: Bytes) -> Seq<u8>;

/// `Bytes::copy_from_slice` makes a `Bytes` that holds a copy of the slice.
pub assume_specification[ Bytes::copy_from_slice ](data: &[u8]) -> (b: Bytes)
    ensures
        contents(b) == data@,
;

/// `Bytes::len` is the number of bytes held.
pub assume_specification[ Bytes::len ](b: &Bytes) -> (n: usize)
    ensures
        n == contents(*b).len(),
;

/// `Bytes::clone` shares the storage: the clone holds the same bytes.
pub assume_specification[ <Bytes as Clone>::clone ](b: &Bytes) -> (c: Bytes)
    ensures
        contents(c) == contents(*b),
;

/// `Bytes::as_ref` lends the bytes held as a slice.
pub assume_specification<'a>[ <Bytes as AsRef<[u8]>>::as_ref ](b: &'a Bytes) -> (s: &'a [u8])
    ensures
        s@ == contents(*b),
;

/// What `Debug` prints for a `Bytes` that holds `data`: a byte-string
/// literal, with escapes for what is not printable ASCII.
pub uninterp spec fn debug_text(data: Seq<u8>) -> Seq<char>;

/// Formats `b` with its `Debug` impl, which reads nothing but the bytes held.
#[verifier::external_body]
pub(crate) fn bytes_debug(b: &Bytes) -> (text: String)
    ensures
        text@ == debug_text(contents(*b)),
{
    format!("{:?}", b)
}

} // verus!
