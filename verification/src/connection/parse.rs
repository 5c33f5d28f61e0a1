//! Utility for parsing a command.

use crate::connection::frame::{lemma_array_view, lemma_views_push, views, Frame, FrameView};
use crate::error::{fails_with, MiniRedisParseError, ParseErrorKind};
use crate::trusted::buf::contents;
use crate::connection::decimal::{decimal_value, parse_decimal};
use crate::trusted::text::frame_debug;
use bytes::Bytes;
use vstd::prelude::*;
use vstd::string::StringExecFns;
use vstd::utf8::{decode_utf8, encode_utf8, valid_utf8};

verus! {

/// Utility for parsing a command
///
/// Commands are represented as array frames. Each entry in the frame is a
/// "token". A `Parse` is initialized with the array frame and provides a
/// cursor-like API. Each command struct includes a `parse_frames` method that
/// uses a `Parse` to extract its fields.
#[derive(Debug)]
pub struct Parse {
    /// The tokens that are left, last one first.
    parts: Vec<Frame>,
}

/// A token read as text: simple strings as they are, bulk strings decoded.
pub open spec fn token_string(token: FrameView) -> Result<Seq<char>, ParseErrorKind> {
    match token {
        FrameView::Simple(text) => Ok(text),
        FrameView::Bulk(data) => if valid_utf8(data) {
            Ok(decode_utf8(data))
        } else {
            Err(ParseErrorKind::Parse)
        },
        _ => Err(ParseErrorKind::Parse),
    }
}

/// A token read as raw bytes.
pub open spec fn token_bytes(token: FrameView) -> Result<Seq<u8>, ParseErrorKind> {
    match token {
        FrameView::Simple(text) => Ok(encode_utf8(text)),
        FrameView::Bulk(data) => Ok(data),
        _ => Err(ParseErrorKind::Parse),
    }
}

/// A token read as a number: an integer frame as it is, a string parsed as
/// a decimal.
pub open spec fn token_int(token: FrameView) -> Result<u64, ParseErrorKind> {
    match token {
        FrameView::Integer(n) => Ok(n),
        FrameView::Simple(text) => match decimal_value(encode_utf8(text)) {
            Some(n) => Ok(n),
            None => Err(ParseErrorKind::Parse),
        },
        FrameView::Bulk(data) => match decimal_value(data) {
            Some(n) => Ok(n),
            None => Err(ParseErrorKind::Parse),
        },
        _ => Err(ParseErrorKind::Parse),
    }
}

/// The tokens that are left once one was taken, whether or not it was of
/// the kind asked for.
pub open spec fn after_take(tokens: Seq<FrameView>) -> Seq<FrameView> {
    if tokens.len() > 0 {
        tokens.drop_first()
    } else {
        tokens
    }
}

/// The next token read as text.
pub open spec fn take_string(tokens: Seq<FrameView>) -> Result<Seq<char>, ParseErrorKind> {
    if tokens.len() == 0 {
        Err(ParseErrorKind::EndOfStream)
    } else {
        token_string(tokens[0])
    }
}

/// The next token read as raw bytes.
pub open spec fn take_bytes(tokens: Seq<FrameView>) -> Result<Seq<u8>, ParseErrorKind> {
    if tokens.len() == 0 {
        Err(ParseErrorKind::EndOfStream)
    } else {
        token_bytes(tokens[0])
    }
}

/// The next token read as a number.
pub open spec fn take_int(tokens: Seq<FrameView>) -> Result<u64, ParseErrorKind> {
    if tokens.len() == 0 {
        Err(ParseErrorKind::EndOfStream)
    } else {
        token_int(tokens[0])
    }
}

impl View for Parse {
    type V = Seq<FrameView>;

    /// The tokens that are left, next one first.
    closed spec fn view(&self) -> Seq<FrameView> {
        views(self.parts@).reverse()
    }
}

impl Parse {
    /// Create a new `Parse` to parse the contents of `frame`.
    ///
    /// Returns `Err` if `frame` is not an array frame.
    pub fn new(frame: Frame) -> (r: Result<Parse, MiniRedisParseError>)
        ensures
            match frame@ {
                FrameView::Array(items) => r is Ok && r->Ok_0@ == items,
                _ => fails_with(r, ParseErrorKind::Parse),
            },
    {
        let mut array = match frame {
            Frame::Array(array) => array,
            frame => {
                return Err(
                    MiniRedisParseError::Parse(
                        "protocol error; expected array, got ".to_string().concat(
                            frame_debug(&frame).as_str(),
                        ),
                    ),
                );
            },
        };
        let ghost items = views(array@);
        proof {
            lemma_array_view(array);
        }
        let mut parts: Vec<Frame> = Vec::new();
        while array.len() > 0
            invariant
                views(parts@) + views(array@).reverse() == items.reverse(),
            decreases array.len(),
        {
            let ghost before = array@;
            let ghost done = parts@;
            match array.pop() {
                Some(part) => {
                    proof {
                        lemma_views_push(done, part);
                        assert(before =~= array@.push(part));
                        lemma_views_push(array@, part);
                        assert(views(before).reverse() =~= seq![part@] + views(array@).reverse());
                        assert(views(done).push(part@) + views(array@).reverse() =~= views(done)
                            + views(before).reverse());
                    }
                    parts.push(part);
                },
                None => {},
            }
        }
        proof {
            assert(views(array@).reverse() =~= Seq::<FrameView>::empty());
            assert(views(parts@) =~= items.reverse());
            assert(items.reverse().reverse() =~= items);
        }
        Ok(Parse { parts })
    }

    /// Return the next entry. Array frames are arrays of frames, so the next
    /// entry is a frame.
    fn next(&mut self) -> (r: Result<Frame, MiniRedisParseError>)
        ensures
            old(self)@.len() > 0 ==> r is Ok && r->Ok_0@ == old(self)@[0] && final(self)@ == old(self)@.drop_first(),
            old(self)@.len() == 0 ==> fails_with(r, ParseErrorKind::EndOfStream) && final(self)@
                == old(self)@,
    {
        let ghost before = self.parts@;
        match self.parts.pop() {
            Some(part) => {
                proof {
                    assert(before =~= self.parts@.push(part));
                    lemma_views_push(self.parts@, part);
                    assert(views(before).reverse() =~= seq![part@] + views(self.parts@).reverse());
                    assert((seq![part@] + views(self.parts@).reverse()).drop_first() =~= views(
                        self.parts@,
                    ).reverse());
                }
                Ok(part)
            },
            None => Err(MiniRedisParseError::EndOfStream),
        }
    }

    /// Return the next entry as a string.
    ///
    /// If the next entry cannot be represented as a String, then an error is returned.
    pub fn next_string(&mut self) -> (r: Result<String, MiniRedisParseError>)
        ensures
            final(self)@ == after_take(old(self)@),
            match take_string(old(self)@) {
                Ok(text) => r is Ok && r->Ok_0@ == text,
                Err(kind) => fails_with(r, kind),
            },
    {
        let token = match self.next() {
            Ok(token) => token,
            Err(e) => {
                return Err(e);
            },
        };
        match token {
            // Both `Simple` and `Bulk` representation may be strings. Strings
            // are parsed to UTF-8.
            //
            // While errors are stored as strings, they are considered separate
            // types.
            Frame::Simple(s) => Ok(s),
            Frame::Bulk(data) => match String::from_utf8(
                vstd::slice::slice_to_vec(data.as_ref()),
            ) {
                Ok(text) => Ok(text),
                Err(_) => Err(
                    MiniRedisParseError::Parse("protocol error; invalid string".to_string()),
                ),
            },
            frame => Err(
                MiniRedisParseError::Parse(
                    "protocol error; expected simple frame or bulk frame, got ".to_string().concat(
                        frame_debug(&frame).as_str(),
                    ),
                ),
            ),
        }
    }

    /// Return the next entry as raw bytes.
    ///
    /// If the next entry cannot be represented as raw bytes, an error is
    /// returned.
    pub fn next_bytes(&mut self) -> (r: Result<Bytes, MiniRedisParseError>)
        ensures
            final(self)@ == after_take(old(self)@),
            match take_bytes(old(self)@) {
                Ok(data) => r is Ok && contents(r->Ok_0) == data,
                Err(kind) => fails_with(r, kind),
            },
    {
        let token = match self.next() {
            Ok(token) => token,
            Err(e) => {
                return Err(e);
            },
        };
        match token {
            // Both `Simple` and `Bulk` representation may be raw bytes.
            //
            // Although errors are stored as strings and could be represented as
            // raw bytes, they are considered separate types.
            Frame::Simple(s) => Ok(Bytes::copy_from_slice(s.as_str().as_bytes())),
            Frame::Bulk(data) => Ok(data),
            frame => Err(
                MiniRedisParseError::Parse(
                    "protocol error; expected simple frame or bulk frame, got ".to_string().concat(
                        frame_debug(&frame).as_str(),
                    ),
                ),
            ),
        }
    }

    /// Return the next entry as an integer.
    ///
    /// This includes `Simple`, `Bulk`, and `Integer` frame types. `Simple` and
    /// `Bulk` frame types are parsed.
    ///
    /// If the next entry cannot be represented as an integer, then an error is
    /// returned.
    pub fn next_int(&mut self) -> (r: Result<u64, MiniRedisParseError>)
        ensures
            final(self)@ == after_take(old(self)@),
            match take_int(old(self)@) {
                Ok(n) => r == Ok::<u64, MiniRedisParseError>(n),
                Err(kind) => fails_with(r, kind),
            },
    {
        let token = match self.next() {
            Ok(token) => token,
            Err(e) => {
                return Err(e);
            },
        };
        match token {
            // An integer frame type is already stored as an integer.
            Frame::Integer(v) => Ok(v),
            // Simple and bulk frames must be parsed as integers. If the parsing
            // fails, an error is returned.
            Frame::Simple(data) => match parse_decimal(data.as_str().as_bytes()) {
                Some(n) => Ok(n),
                None => Err(
                    MiniRedisParseError::Parse("protocol error; invalid number".to_string()),
                ),
            },
            Frame::Bulk(data) => match parse_decimal(data.as_ref()) {
                Some(n) => Ok(n),
                None => Err(
                    MiniRedisParseError::Parse("protocol error; invalid number".to_string()),
                ),
            },
            frame => Err(
                MiniRedisParseError::Parse(
                    "protocol error; expected int frame but got ".to_string().concat(
                        frame_debug(&frame).as_str(),
                    ),
                ),
            ),
        }
    }

    /// Ensure there are no more entries in the array
    pub fn finish(&mut self) -> (r: Result<(), MiniRedisParseError>)
        ensures
            final(self)@ == after_take(old(self)@),
            old(self)@.len() == 0 ==> r is Ok,
            old(self)@.len() > 0 ==> fails_with(r, ParseErrorKind::Parse),
    {
        match self.next() {
            Err(_) => Ok(()),
            Ok(_) => Err(
                MiniRedisParseError::Parse(
                    "protocol error; expected end of frame, but there was more".to_string(),
                ),
            ),
        }
    }
}

} // verus!
