//! How the command line's arguments are read.

use crate::cmd::bulk_of;
use crate::trusted::buf::contents;
use crate::trusted::number::{parse, parse_u64};
use bytes::Bytes;
use vstd::prelude::*;
use vstd::utf8::encode_utf8;

verus! {

/// Reads a time to live: a number of milliseconds.
pub fn duration_from_ms_str(src: &str) -> (r: Result<u128, std::num::ParseIntError>)
    ensures
        match parse_u64(encode_utf8(src@)) {
            Some(ms) => r == Ok::<u128, std::num::ParseIntError>(ms as u128),
            None => r is Err,
        },
{
    let ms = parse(src)?;
    Ok(ms as u128)
}

/// The bytes of an argument.
pub fn bytes_from_str(src: &str) -> (bytes: Bytes)
    ensures
        contents(bytes) == encode_utf8(src@),
{
    bulk_of(src)
}

} // verus!
