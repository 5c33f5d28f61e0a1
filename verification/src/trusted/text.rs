//! Functions of std on strings that have no specification elsewhere.

use crate::connection::frame::Frame;
use vstd::prelude::*;
use vstd::utf8::{decode_utf8, is_ascii_chars, valid_utf8};

verus! {

/// `String::from_utf8` succeeds exactly on well-formed UTF-8, and the string
/// it gives holds the characters that the bytes encode.
pub assume_specification[ String::from_utf8 ](bytes: Vec<u8>) -> (text: Result<
    String,
    std::string::FromUtf8Error,
>)
    ensures
        text is Ok <==> valid_utf8(bytes@),
        text matches Ok(s) ==> s@ == decode_utf8(bytes@),
;

/// The lower-case form of an ASCII letter; any other character unchanged.
pub open spec fn ascii_lower(c: char) -> char {
    if 'A' <= c <= 'Z' {
        ((c as u8) + 32) as char
    } else {
        c
    }
}

/// The upper-case form of an ASCII letter; any other character unchanged.
pub open spec fn ascii_upper(c: char) -> char {
    if 'a' <= c <= 'z' {
        ((c as u8) - 32) as char
    } else {
        c
    }
}

/// `text` with each ASCII letter in lower case.
pub open spec fn ascii_lowercase(text: Seq<char>) -> Seq<char> {
    Seq::new(text.len(), |i: int| ascii_lower(text[i]))
}

/// `text` with each ASCII letter in upper case.
pub open spec fn ascii_uppercase(text: Seq<char>) -> Seq<char> {
    Seq::new(text.len(), |i: int| ascii_upper(text[i]))
}

/// What `str::to_lowercase` returns for `text`: the Unicode lower-case
/// mapping of each character, by std's tables.
pub uninterp spec fn lowercase(text: Seq<char>) -> Seq<char>;

/// What `str::to_uppercase` returns for `text`: the Unicode upper-case
/// mapping of each character, by std's tables.
pub uninterp spec fn uppercase(text: Seq<char>) -> Seq<char>;

/// `str::to_lowercase`. Its result is a function of the text alone; on
/// ASCII text only the letters `A` to `Z` change, each to its lower case.
pub assume_specification[ str::to_lowercase ](text: &str) -> (lower: String)
    ensures
        lower@ == lowercase(text@),
        is_ascii_chars(text@) ==> lower@ == ascii_lowercase(text@),
;

/// `str::to_uppercase`. Its result is a function of the text alone; on
/// ASCII text only the letters `a` to `z` change, each to its upper case.
pub assume_specification[ str::to_uppercase ](text: &str) -> (upper: String)
    ensures
        upper@ == uppercase(text@),
        is_ascii_chars(text@) ==> upper@ == ascii_uppercase(text@),
;

/// Formats a frame with `Debug`, as std derives it for the frame and as
/// `bytes` writes it for a bulk string. Nothing is claimed of the text.
#[verifier::external_body]
pub(crate) fn frame_debug(frame: &Frame) -> String {
    format!("{:?}", frame)
}

} // verus!
