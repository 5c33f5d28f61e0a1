//! Provides a type representing a Redis protocol frame as well as utilities for
//! parsing frames from a byte array.

use crate::connection::cursor::{
    get_line, get_u8, lemma_line_end, peek_u8, skip, Cursor, CR, LF,
};
use crate::connection::decimal::{decimal, parse_decimal, write_decimal};
use crate::connection::grammar::{
    check_at, check_items, crlf, decimal_at, display_parts, encode_all, lemma_check_at_end,
    lemma_encode_all_push, lemma_parse_at_end, null_marker, parse_at, parse_items, prepend,
    text_at, ARRAY, BULK, ERROR, INTEGER, SIMPLE,
};
use crate::error::{fails_with, MiniRedisParseError, ParseErrorKind};
use crate::text::{bytes_eq, decimal_string, decimal_text, extend, str_eq};
use crate::trusted::buf::{bytes_debug, contents};
use bytes::Bytes;
use vstd::prelude::*;
use vstd::string::StringExecFns;

verus! {


/// A frame in the Redis protocol.
#[derive(Debug)]
pub enum Frame {
    Simple(String),
    Error(String),
    Integer(u64),
    Bulk(Bytes),
    Null,
    Array(Vec<Frame>),
}

/// What a frame holds, as mathematical values.
pub enum FrameView {
    Simple(Seq<char>),
    Error(Seq<char>),
    Integer(u64),
    Bulk(Seq<u8>),
    Null,
    Array(Seq<FrameView>),
}

/// What `frame` holds.
pub open spec fn frame_view(frame: Frame) -> FrameView
    decreases frame, 0nat,
{
    match frame {
        Frame::Simple(text) => FrameView::Simple(text@),
        Frame::Error(text) => FrameView::Error(text@),
        Frame::Integer(n) => FrameView::Integer(n),
        Frame::Bulk(data) => FrameView::Bulk(contents(data)),
        Frame::Null => FrameView::Null,
        Frame::Array(items) => FrameView::Array(views_upto(items, items@.len())),
    }
}

/// The views of the first `n` frames of `items`.
pub open spec fn views_upto(items: Vec<Frame>, n: nat) -> Seq<FrameView>
    decreases items, n,
{
    if n == 0 || n > items@.len() {
        Seq::empty()
    } else {
        views_upto(items, (n - 1) as nat).push(frame_view(items@[n - 1]))
    }
}

impl View for Frame {
    type V = FrameView;

    open spec fn view(&self) -> FrameView {
        frame_view(*self)
    }
}

/// The views of a run of frames, in order.
pub open spec fn views(frames: Seq<Frame>) -> Seq<FrameView> {
    Seq::new(frames.len(), |i: int| frames[i]@)
}

proof fn lemma_views_upto(items: Vec<Frame>, n: nat)
    requires
        n <= items@.len(),
    ensures
        views_upto(items, n) == views(items@.take(n as int)),
    decreases n,
{
    if n > 0 {
        lemma_views_upto(items, (n - 1) as nat);
        assert(views(items@.take(n as int)) =~= views(items@.take(n - 1)).push(items@[n - 1]@));
    } else {
        assert(views(items@.take(0)) =~= Seq::<FrameView>::empty());
    }
}

/// An array frame's view holds the views of its items.
pub proof fn lemma_array_view(items: Vec<Frame>)
    ensures
        Frame::Array(items)@ == FrameView::Array(views(items@)),
{
    lemma_views_upto(items, items@.len());
    assert(items@.take(items@.len() as int) =~= items@);
}

/// Pushing a frame onto a run of frames pushes its view onto their views.
pub proof fn lemma_views_push(frames: Seq<Frame>, frame: Frame)
    ensures
        views(frames.push(frame)) == views(frames).push(frame@),
{
    assert(views(frames.push(frame)) =~= views(frames).push(frame@));
}

impl Clone for Frame {
    fn clone(&self) -> (copy: Self)
        ensures
            copy@ == self@,
        decreases self,
    {
        match self {
            Frame::Simple(text) => Frame::Simple(text.clone()),
            Frame::Error(text) => Frame::Error(text.clone()),
            Frame::Integer(n) => Frame::Integer(*n),
            Frame::Bulk(data) => Frame::Bulk(data.clone()),
            Frame::Null => Frame::Null,
            Frame::Array(items) => {
                let mut copies: Vec<Frame> = Vec::new();
                let mut i: usize = 0;
                while i < items.len()
                    invariant
                        i <= items.len(),
                        self is Array,
                        self->Array_0 == *items,
                        views(copies@) == views(items@.take(i as int)),
                    decreases items.len() - i,
                {
                    let copy = items[i].clone();
                    proof {
                        lemma_views_push(copies@, copy);
                        lemma_views_push(items@.take(i as int), items@[i as int]);
                        assert(items@.take(i + 1) =~= items@.take(i as int).push(items@[i as int]));
                    }
                    copies.push(copy);
                    i = i + 1;
                }
                proof {
                    assert(items@.take(items.len() as int) =~= items@);
                    lemma_array_view(copies);
                    lemma_array_view(*items);
                }
                Frame::Array(copies)
            },
        }
    }
}

/// Read a new-line terminated decimal
pub fn get_decimal(src: &mut Cursor<'_>) -> (r: Result<u64, MiniRedisParseError>)
    ensures
        final(src).buf() == old(src).buf(),
        match decimal_at(old(src).buf(), old(src).pos()) {
            Ok((n, end)) => r == Ok::<u64, MiniRedisParseError>(n) && final(src).pos() == end,
            Err(kind) => fails_with(r, kind),
        },
{
    let line = match get_line(src) {
        Ok(line) => line,
        Err(e) => {
            return Err(e);
        },
    };
    match parse_decimal(line) {
        Some(n) => Ok(n),
        None => Err(
            MiniRedisParseError::Parse(
                "protocol error; invalid frame format to get decimal".to_string(),
            ),
        ),
    }
}

/// Reads a line and decodes it as UTF-8 text.
fn get_text(src: &mut Cursor<'_>) -> (r: Result<String, MiniRedisParseError>)
    ensures
        final(src).buf() == old(src).buf(),
        match text_at(old(src).buf(), old(src).pos()) {
            Ok((text, end)) => r is Ok && r->Ok_0@ == text && final(src).pos() == end,
            Err(kind) => fails_with(r, kind),
        },
{
    let line = match get_line(src) {
        Ok(line) => line,
        Err(e) => {
            return Err(e);
        },
    };
    match String::from_utf8(vstd::slice::slice_to_vec(line)) {
        Ok(text) => Ok(text),
        Err(e) => Err(MiniRedisParseError::ParseUtf8(e)),
    }
}

impl Frame {
    /// Returns an empty array
    pub fn array() -> (frame: Frame)
        ensures
            frame@ == FrameView::Array(Seq::empty()),
    {
        let items: Vec<Frame> = Vec::new();
        proof {
            lemma_array_view(items);
            assert(views(items@) =~= Seq::<FrameView>::empty());
        }
        Frame::Array(items)
    }

    /// Checks if an entire message can be decoded from `src`, and moves
    /// `src` past it.
    pub fn check(src: &mut Cursor<'_>) -> (r: Result<(), MiniRedisParseError>)
        ensures
            final(src).buf() == old(src).buf(),
            match check_at(old(src).buf(), old(src).pos()) {
                Ok(end) => r is Ok && final(src).pos() == end,
                Err(kind) => fails_with(r, kind),
            },
        decreases old(src).buf().len() - old(src).pos(),
    {
        let ghost buf = src.buf();
        let ghost pos = src.pos();
        proof {
            src.lemma_pos_range();
        }
        let kind = match get_u8(src) {
            Ok(kind) => kind,
            Err(e) => {
                return Err(e);
            },
        };
        proof {
            lemma_line_end(buf, pos + 1);
        }
        if kind == SIMPLE || kind == ERROR {
            match get_line(src) {
                Ok(_) => Ok(()),
                Err(e) => Err(e),
            }
        } else if kind == INTEGER {
            match get_decimal(src) {
                Ok(_) => Ok(()),
                Err(e) => Err(e),
            }
        } else if kind == BULK {
            let next = match peek_u8(src) {
                Ok(next) => next,
                Err(e) => {
                    return Err(e);
                },
            };
            if next == ERROR {
                // Skip '-1\r\n'
                skip(src, 4)
            } else {
                // Read the bulk string
                let len = match get_decimal(src) {
                    Ok(len) => len,
                    Err(e) => {
                        return Err(e);
                    },
                };
                let len: usize = match usize::try_from(len) {
                    Ok(len) => len,
                    Err(e) => {
                        return Err(MiniRedisParseError::ParseInt(e));
                    },
                };
                // skip that number of bytes + 2 (\r\n).
                if src.remaining() < 2 || src.remaining() - 2 < len {
                    return Err(MiniRedisParseError::Incomplete);
                }
                skip(src, len + 2)
            }
        } else if kind == ARRAY {
            let len = match get_decimal(src) {
                Ok(len) => len,
                Err(e) => {
                    return Err(e);
                },
            };
            let ghost start = src.pos();
            let mut done: u64 = 0;
            while done < len
                invariant
                    done <= len,
                    buf == old(src).buf(),
                    pos == old(src).pos(),
                    src.buf() == buf,
                    pos < start <= src.pos() <= buf.len(),
                    check_at(buf, pos) == check_items(buf, start, len as nat),
                    check_items(buf, start, len as nat) == check_items(
                        buf,
                        src.pos(),
                        (len - done) as nat,
                    ),
                decreases len - done,
            {
                proof {
                    lemma_check_at_end(buf, src.pos());
                }
                match Frame::check(src) {
                    Ok(_) => {},
                    Err(e) => {
                        return Err(e);
                    },
                }
                done = done + 1;
            }
            Ok(())
        } else {
            Err(MiniRedisParseError::Parse(invalid_type_byte(kind)))
        }
    }
}

impl Frame {
    /// Reads the frame that starts at the cursor and moves the cursor past
    /// it.
    pub fn parse(src: &mut Cursor<'_>) -> (r: Result<Frame, MiniRedisParseError>)
        ensures
            final(src).buf() == old(src).buf(),
            match parse_at(old(src).buf(), old(src).pos()) {
                Ok((frame, end)) => r is Ok && r->Ok_0@ == frame && final(src).pos() == end,
                Err(kind) => fails_with(r, kind),
            },
        decreases old(src).buf().len() - old(src).pos(),
    {
        let ghost buf = src.buf();
        let ghost pos = src.pos();
        proof {
            src.lemma_pos_range();
        }
        let kind = match get_u8(src) {
            Ok(kind) => kind,
            Err(e) => {
                return Err(e);
            },
        };
        proof {
            lemma_line_end(buf, pos + 1);
        }
        if kind == SIMPLE {
            match get_text(src) {
                Ok(text) => Ok(Frame::Simple(text)),
                Err(e) => Err(e),
            }
        } else if kind == ERROR {
            match get_text(src) {
                Ok(text) => Ok(Frame::Error(text)),
                Err(e) => Err(e),
            }
        } else if kind == INTEGER {
            match get_decimal(src) {
                Ok(n) => Ok(Frame::Integer(n)),
                Err(e) => Err(e),
            }
        } else if kind == BULK {
            let next = match peek_u8(src) {
                Ok(next) => next,
                Err(e) => {
                    return Err(e);
                },
            };
            if next == ERROR {
                let line = match get_line(src) {
                    Ok(line) => line,
                    Err(e) => {
                        return Err(e);
                    },
                };
                if line.len() == 2 && line[0] == 45 && line[1] == 49 {
                    assert(line@ =~= null_marker());
                    Ok(Frame::Null)
                } else {
                    Err(
                        MiniRedisParseError::Parse(
                            "protocol error; invalid frame format".to_string(),
                        ),
                    )
                }
            } else {
                // Read the bulk string
                let len = match get_decimal(src) {
                    Ok(len) => len,
                    Err(e) => {
                        return Err(e);
                    },
                };
                let len: usize = match usize::try_from(len) {
                    Ok(len) => len,
                    Err(e) => {
                        return Err(MiniRedisParseError::ParseInt(e));
                    },
                };
                if src.remaining() < 2 || src.remaining() - 2 < len {
                    return Err(MiniRedisParseError::Incomplete);
                }
                let chunk = src.chunk();
                if !(chunk[len] == CR && chunk[len + 1] == LF) {
                    return Err(
                        MiniRedisParseError::Parse(
                            "protocol error; invalid frame format".to_string(),
                        ),
                    );
                }
                let data = Bytes::copy_from_slice(vstd::slice::slice_subrange(chunk, 0, len));
                proof {
                    let start = src.pos();
                    assert(chunk@.subrange(0, len as int) =~= buf.subrange(start, start + len));
                }
                // skip that number of bytes + 2 (\r\n).
                src.advance(len + 2);
                Ok(Frame::Bulk(data))
            }
        } else if kind == ARRAY {
            let len = match get_decimal(src) {
                Ok(len) => len,
                Err(e) => {
                    return Err(e);
                },
            };
            let len: usize = match usize::try_from(len) {
                Ok(len) => len,
                Err(e) => {
                    return Err(MiniRedisParseError::ParseInt(e));
                },
            };
            let ghost start = src.pos();
            let mut out: Vec<Frame> = Vec::new();
            let mut done: usize = 0;
            proof {
                if let Ok((items, _)) = parse_items(buf, start, len as nat) {
                    assert(views(out@) + items =~= items);
                }
            }
            while done < len
                invariant
                    done <= len,
                    done == out@.len(),
                    buf == old(src).buf(),
                    pos == old(src).pos(),
                    src.buf() == buf,
                    pos < start <= src.pos() <= buf.len(),
                    parse_at(buf, pos) == (match parse_items(buf, start, len as nat) {
                        Err(kind) => Err(kind),
                        Ok((items, end)) => Ok((FrameView::Array(items), end)),
                    }),
                    parse_items(buf, start, len as nat) == prepend(
                        views(out@),
                        parse_items(buf, src.pos(), (len - done) as nat),
                    ),
                decreases len - done,
            {
                let ghost cur = src.pos();
                proof {
                    lemma_parse_at_end(buf, cur);
                }
                let item = match Frame::parse(src) {
                    Ok(item) => item,
                    Err(e) => {
                        return Err(e);
                    },
                };
                proof {
                    lemma_views_push(out@, item);
                    let rest = parse_items(buf, src.pos(), (len - done - 1) as nat);
                    if let Ok((items, end)) = rest {
                        assert(views(out@) + (seq![item@] + items) =~= views(out@).push(item@)
                            + items);
                    }
                }
                out.push(item);
                done = done + 1;
            }
            proof {
                lemma_array_view(out);
                assert(views(out@) + Seq::<FrameView>::empty() =~= views(out@));
            }
            Ok(Frame::Array(out))
        } else {
            Err(MiniRedisParseError::Unimplemented)
        }
    }
}

impl Frame {
    /// Appends the bytes that put this frame on the wire to `dst`.
    pub fn encode(&self, dst: &mut Vec<u8>)
        ensures
            final(dst)@ == old(dst)@ + self@.encode(),
        decreases self,
    {
        match self {
            Frame::Simple(text) => {
                dst.push(SIMPLE);
                extend(dst, text.as_str().as_bytes());
                dst.push(CR);
                dst.push(LF);
                proof {
                    assert(dst@ =~= old(dst)@ + self@.encode());
                }
            },
            Frame::Error(text) => {
                dst.push(ERROR);
                extend(dst, text.as_str().as_bytes());
                dst.push(CR);
                dst.push(LF);
                proof {
                    assert(dst@ =~= old(dst)@ + self@.encode());
                }
            },
            Frame::Integer(n) => {
                dst.push(INTEGER);
                write_decimal(dst, *n);
                dst.push(CR);
                dst.push(LF);
                proof {
                    assert(dst@ =~= old(dst)@ + self@.encode());
                }
            },
            Frame::Null => {
                dst.push(BULK);
                dst.push(45);
                dst.push(49);
                dst.push(CR);
                dst.push(LF);
                proof {
                    assert(dst@ =~= old(dst)@ + self@.encode());
                }
            },
            Frame::Bulk(data) => {
                dst.push(BULK);
                write_decimal(dst, data.len() as u64);
                dst.push(CR);
                dst.push(LF);
                extend(dst, data.as_ref());
                dst.push(CR);
                dst.push(LF);
                proof {
                    assert(dst@ =~= old(dst)@ + self@.encode());
                }
            },
            Frame::Array(items) => {
                dst.push(ARRAY);
                write_decimal(dst, items.len() as u64);
                dst.push(CR);
                dst.push(LF);
                let ghost head = dst@;
                proof {
                    lemma_array_view(*items);
                    assert(head =~= old(dst)@ + (seq![ARRAY] + decimal(items@.len()) + crlf()));
                    assert(views(items@.take(0)) =~= Seq::<FrameView>::empty());
                    assert(dst@ =~= head + encode_all(views(items@.take(0))));
                }
                let mut i: usize = 0;
                while i < items.len()
                    invariant
                        i <= items.len(),
                        self is Array,
                        self->Array_0 == *items,
                        dst@ == head + encode_all(views(items@.take(i as int))),
                    decreases items.len() - i,
                {
                    let ghost before = dst@;
                    items[i].encode(dst);
                    proof {
                        let done = views(items@.take(i as int));
                        lemma_encode_all_push(done, items@[i as int]@);
                        assert(items@.take(i + 1) =~= items@.take(i as int).push(items@[i as int]));
                        lemma_views_push(items@.take(i as int), items@[i as int]);
                        assert(dst@ =~= head + encode_all(views(items@.take(i + 1))));
                    }
                    i = i + 1;
                }
                proof {
                    assert(items@.take(items.len() as int) =~= items@);
                    assert(dst@ =~= old(dst)@ + self@.encode());
                }
            },
        }
    }
}

/// The message for a frame that starts with a byte that opens no frame.
fn invalid_type_byte(actual: u8) -> (message: String)
    ensures
        message@ == "protocol error; invalid frame type byte `"@ + decimal_text(actual as nat)
            + "`"@,
{
    let message = "protocol error; invalid frame type byte `".to_string();
    let message = message.concat(decimal_string(actual as u64).as_str());
    message.concat("`")
}

impl Frame {
    /// Push a "bulk" frame into the array. `self` must be an Array frame.
    pub fn push_bulk(&mut self, bytes: Bytes) -> (r: Result<(), MiniRedisParseError>)
        ensures
            match old(self)@ {
                FrameView::Array(items) => r is Ok && final(self)@ == FrameView::Array(
                    items.push(FrameView::Bulk(contents(bytes))),
                ),
                _ => fails_with(r, ParseErrorKind::ParseArrayFrame) && final(self)@ == old(self)@,
            },
    {
        match self {
            Frame::Array(vec) => {
                proof {
                    lemma_array_view(*vec);
                    lemma_views_push(vec@, Frame::Bulk(bytes));
                }
                vec.push(Frame::Bulk(bytes));
                proof {
                    lemma_array_view(*vec);
                }
                Ok(())
            },
            _ => Err(MiniRedisParseError::ParseArrayFrame),
        }
    }

    /// Push an "integer" frame into the array. `self` must be an Array frame.
    pub fn push_int(&mut self, value: u64) -> (r: Result<(), MiniRedisParseError>)
        ensures
            match old(self)@ {
                FrameView::Array(items) => r is Ok && final(self)@ == FrameView::Array(
                    items.push(FrameView::Integer(value)),
                ),
                _ => fails_with(r, ParseErrorKind::ParseArrayFrame) && final(self)@ == old(self)@,
            },
    {
        match self {
            Frame::Array(vec) => {
                proof {
                    lemma_array_view(*vec);
                    lemma_views_push(vec@, Frame::Integer(value));
                }
                vec.push(Frame::Integer(value));
                proof {
                    lemma_array_view(*vec);
                }
                Ok(())
            },
            _ => Err(MiniRedisParseError::ParseArrayFrame),
        }
    }

    /// Whether the frame is a simple or bulk string whose bytes are those of
    /// `other`.
    pub fn eq_str(&self, other: &str) -> (same: bool)
        ensures
            same == self@.is_text(other@),
    {
        match self {
            Frame::Simple(text) => str_eq(text.as_str(), other),
            Frame::Bulk(data) => bytes_eq(data.as_ref(), other.as_bytes()),
            _ => false,
        }
    }

    /// The frame as it is shown to a person.
    pub fn to_string(&self) -> (text: String)
        ensures
            text@ == self@.display(),
        decreases self,
    {
        match self {
            Frame::Simple(response) => response.clone(),
            Frame::Error(message) => "error: ".to_string().concat(message.as_str()),
            Frame::Integer(n) => decimal_string(*n),
            Frame::Bulk(data) => match String::from_utf8(vstd::slice::slice_to_vec(data.as_ref())) {
                Ok(text) => text,
                Err(_) => bytes_debug(data),
            },
            Frame::Null => "(nil)".to_string(),
            Frame::Array(parts) => {
                let mut text = String::new();
                let mut i: usize = 0;
                proof {
                    lemma_array_view(*parts);
                }
                while i < parts.len()
                    invariant
                        i <= parts.len(),
                        self is Array,
                        self->Array_0 == *parts,
                        text@ == display_parts(views(parts@), i as nat),
                    decreases parts.len() - i,
                {
                    if i > 0 {
                        text.append(" ");
                        let part = parts[i].to_string();
                        text.append(part.as_str());
                    }
                    i = i + 1;
                }
                text
            },
        }
    }
}

impl PartialEq<&str> for Frame {
    fn eq(&self, other: &&str) -> (same: bool) {
        self.eq_str(*other)
    }
}

impl vstd::std_specs::cmp::PartialEqSpecImpl<&str> for Frame {
    open spec fn obeys_eq_spec() -> bool {
        true
    }

    open spec fn eq_spec(&self, other: &&str) -> bool {
        self@.is_text(other@)
    }
}

} // verus!
