//! The wire format of frames, as mathematics: which bytes a frame is written
//! as, and which frame a run of bytes is read as.

use crate::connection::cursor::{lemma_line_end, line_end, CR, LF};
use crate::connection::decimal::{decimal, decimal_value};
use crate::connection::frame::FrameView;
use crate::error::ParseErrorKind;
use crate::text::decimal_text;
use crate::trusted::buf::debug_text;
use vstd::prelude::*;
use vstd::utf8::{decode_utf8, encode_utf8, valid_utf8};

verus! {

/// The byte that opens a simple string, `+`.
pub const SIMPLE: u8 = 43;

/// The byte that opens an error, `-`; also the minus sign of the null frame.
pub const ERROR: u8 = 45;

/// The byte that opens an integer, `:`.
pub const INTEGER: u8 = 58;

/// The byte that opens a bulk string or the null frame, `$`.
pub const BULK: u8 = 36;

/// The byte that opens an array, `*`.
pub const ARRAY: u8 = 42;

/// The line break that ends every header and every bulk payload.
pub open spec fn crlf() -> Seq<u8> {
    seq![CR, LF]
}

/// The text after `$` that marks the null frame: `-1`.
pub open spec fn null_marker() -> Seq<u8> {
    seq![45u8, 49u8]
}

impl FrameView {
    /// The bytes that put this frame on the wire.
    pub open spec fn encode(self) -> Seq<u8>
        decreases self, 0nat,
    {
        match self {
            FrameView::Simple(text) => seq![SIMPLE] + encode_utf8(text) + crlf(),
            FrameView::Error(text) => seq![ERROR] + encode_utf8(text) + crlf(),
            FrameView::Integer(n) => seq![INTEGER] + decimal(n as nat) + crlf(),
            FrameView::Bulk(data) => seq![BULK] + decimal(data.len()) + crlf() + data + crlf(),
            FrameView::Null => seq![BULK] + null_marker() + crlf(),
            FrameView::Array(items) => seq![ARRAY] + decimal(items.len()) + crlf() + encode_all(
                items,
            ),
        }
    }
}

/// The encodings of `items`, one after the other.
pub open spec fn encode_all(items: Seq<FrameView>) -> Seq<u8>
    decreases items, 1nat,
{
    if items.len() == 0 {
        Seq::empty()
    } else {
        encode_all(items.drop_last()) + items.last().encode()
    }
}

/// The decimal number on the line that starts at `from`, and where the next
/// line starts.
pub open spec fn decimal_at(buf: Seq<u8>, from: int) -> Result<(u64, int), ParseErrorKind> {
    match line_end(buf, from) {
        None => Err(ParseErrorKind::Incomplete),
        Some(i) => match decimal_value(buf.subrange(from, i)) {
            None => Err(ParseErrorKind::Parse),
            Some(n) => Ok((n, i + 2)),
        },
    }
}

/// The text on the line that starts at `from`, and where the next line starts.
pub open spec fn text_at(buf: Seq<u8>, from: int) -> Result<(Seq<char>, int), ParseErrorKind> {
    match line_end(buf, from) {
        None => Err(ParseErrorKind::Incomplete),
        Some(i) => if valid_utf8(buf.subrange(from, i)) {
            Ok((decode_utf8(buf.subrange(from, i)), i + 2))
        } else {
            Err(ParseErrorKind::ParseUtf8)
        },
    }
}

/// The frame that starts at `pos` in `buf` and the position just past it, or
/// why there is none.
///
/// `Incomplete` says that the bytes so far are the start of a frame that has
/// not fully arrived.
pub open spec fn parse_at(buf: Seq<u8>, pos: int) -> Result<(FrameView, int), ParseErrorKind>
    decreases buf.len() - pos, 0nat,
    via parse_at_decreases
{
    if pos < 0 || pos >= buf.len() {
        Err(ParseErrorKind::Incomplete)
    } else if buf[pos] == SIMPLE {
        match text_at(buf, pos + 1) {
            Err(kind) => Err(kind),
            Ok((text, end)) => Ok((FrameView::Simple(text), end)),
        }
    } else if buf[pos] == ERROR {
        match text_at(buf, pos + 1) {
            Err(kind) => Err(kind),
            Ok((text, end)) => Ok((FrameView::Error(text), end)),
        }
    } else if buf[pos] == INTEGER {
        match decimal_at(buf, pos + 1) {
            Err(kind) => Err(kind),
            Ok((n, end)) => Ok((FrameView::Integer(n), end)),
        }
    } else if buf[pos] == BULK {
        if pos + 1 >= buf.len() {
            Err(ParseErrorKind::Incomplete)
        } else if buf[pos + 1] == ERROR {
            match line_end(buf, pos + 1) {
                None => Err(ParseErrorKind::Incomplete),
                Some(i) => if buf.subrange(pos + 1, i) == null_marker() {
                    Ok((FrameView::Null, i + 2))
                } else {
                    Err(ParseErrorKind::Parse)
                },
            }
        } else {
            match decimal_at(buf, pos + 1) {
                Err(kind) => Err(kind),
                Ok((n, start)) => if n > usize::MAX {
                    Err(ParseErrorKind::ParseInt)
                } else if buf.len() - start < n + 2 {
                    Err(ParseErrorKind::Incomplete)
                } else if buf[start + n] == CR && buf[start + n + 1] == LF {
                    Ok((FrameView::Bulk(buf.subrange(start, start + n)), start + n + 2))
                } else {
                    Err(ParseErrorKind::Parse)
                },
            }
        }
    } else if buf[pos] == ARRAY {
        match decimal_at(buf, pos + 1) {
            Err(kind) => Err(kind),
            Ok((n, start)) => if n > usize::MAX {
                Err(ParseErrorKind::ParseInt)
            } else {
                match parse_items(buf, start, n as nat) {
                    Err(kind) => Err(kind),
                    Ok((items, end)) => Ok((FrameView::Array(items), end)),
                }
            },
        }
    } else {
        Err(ParseErrorKind::Unimplemented)
    }
}

/// The `count` frames that follow each other from `pos` on, and the
/// position just past the last.
pub open spec fn parse_items(buf: Seq<u8>, pos: int, count: nat) -> Result<
    (Seq<FrameView>, int),
    ParseErrorKind,
>
    decreases buf.len() - pos, count + 1,
{
    if count == 0 {
        Ok((Seq::empty(), pos))
    } else {
        match parse_at(buf, pos) {
            Err(kind) => Err(kind),
            Ok((first, next)) => if pos < next <= buf.len() {
                match parse_items(buf, next, (count - 1) as nat) {
                    Err(kind) => Err(kind),
                    Ok((rest, end)) => Ok((seq![first] + rest, end)),
                }
            } else {
                Err(ParseErrorKind::Incomplete)
            },
        }
    }
}

#[via_fn]
proof fn parse_at_decreases(buf: Seq<u8>, pos: int) {
    if 0 <= pos < buf.len() {
        lemma_line_end(buf, pos + 1);
    }
}

/// A frame that parses ends after it starts, and inside the buffer.
pub proof fn lemma_parse_at_end(buf: Seq<u8>, pos: int)
    ensures
        parse_at(buf, pos) matches Ok((_, end)) ==> 0 <= pos < end <= buf.len(),
    decreases buf.len() - pos, 0nat,
{
    if 0 <= pos < buf.len() {
        lemma_line_end(buf, pos + 1);
        if buf[pos] == ARRAY {
            if let Ok((n, start)) = decimal_at(buf, pos + 1) {
                if n <= usize::MAX {
                    lemma_parse_items_end(buf, start, n as nat);
                }
            }
        }
    }
}

/// A run of frames that parses ends no earlier than it starts, and inside
/// the buffer.
pub proof fn lemma_parse_items_end(buf: Seq<u8>, pos: int, count: nat)
    requires
        0 <= pos <= buf.len(),
    ensures
        parse_items(buf, pos, count) matches Ok((items, end)) ==> pos <= end <= buf.len()
            && items.len() == count,
    decreases buf.len() - pos, count + 1,
{
    if count > 0 {
        lemma_parse_at_end(buf, pos);
        if let Ok((first, next)) = parse_at(buf, pos) {
            lemma_parse_items_end(buf, next, (count - 1) as nat);
        }
    }
}


/// Where the frame that starts at `pos` ends, going by its headers alone:
/// text is not decoded and a bulk payload is skipped unread.
pub open spec fn check_at(buf: Seq<u8>, pos: int) -> Result<int, ParseErrorKind>
    decreases buf.len() - pos, 0nat,
    via check_at_decreases
{
    if pos < 0 || pos >= buf.len() {
        Err(ParseErrorKind::Incomplete)
    } else if buf[pos] == SIMPLE || buf[pos] == ERROR {
        match line_end(buf, pos + 1) {
            None => Err(ParseErrorKind::Incomplete),
            Some(i) => Ok(i + 2),
        }
    } else if buf[pos] == INTEGER {
        match decimal_at(buf, pos + 1) {
            Err(kind) => Err(kind),
            Ok((_, end)) => Ok(end),
        }
    } else if buf[pos] == BULK {
        if pos + 1 >= buf.len() {
            Err(ParseErrorKind::Incomplete)
        } else if buf[pos + 1] == ERROR {
            if buf.len() - (pos + 1) < 4 {
                Err(ParseErrorKind::Incomplete)
            } else {
                Ok(pos + 5)
            }
        } else {
            match decimal_at(buf, pos + 1) {
                Err(kind) => Err(kind),
                Ok((n, start)) => if n > usize::MAX {
                    Err(ParseErrorKind::ParseInt)
                } else if buf.len() - start < n + 2 {
                    Err(ParseErrorKind::Incomplete)
                } else {
                    Ok(start + n + 2)
                },
            }
        }
    } else if buf[pos] == ARRAY {
        match decimal_at(buf, pos + 1) {
            Err(kind) => Err(kind),
            Ok((n, start)) => check_items(buf, start, n as nat),
        }
    } else {
        Err(ParseErrorKind::Parse)
    }
}

/// Where the run of `count` frames that starts at `pos` ends, going by
/// headers alone.
pub open spec fn check_items(buf: Seq<u8>, pos: int, count: nat) -> Result<int, ParseErrorKind>
    decreases buf.len() - pos, count + 1,
{
    if count == 0 {
        Ok(pos)
    } else {
        match check_at(buf, pos) {
            Err(kind) => Err(kind),
            Ok(next) => if pos < next <= buf.len() {
                check_items(buf, next, (count - 1) as nat)
            } else {
                Err(ParseErrorKind::Incomplete)
            },
        }
    }
}

#[via_fn]
proof fn check_at_decreases(buf: Seq<u8>, pos: int) {
    if 0 <= pos < buf.len() {
        lemma_line_end(buf, pos + 1);
    }
}

/// A frame that checks ends after it starts, and inside the buffer.
pub proof fn lemma_check_at_end(buf: Seq<u8>, pos: int)
    ensures
        check_at(buf, pos) matches Ok(end) ==> 0 <= pos < end <= buf.len(),
    decreases buf.len() - pos, 0nat,
{
    if 0 <= pos < buf.len() {
        lemma_line_end(buf, pos + 1);
        if buf[pos] == ARRAY {
            if let Ok((n, start)) = decimal_at(buf, pos + 1) {
                lemma_check_items_end(buf, start, n as nat);
            }
        }
    }
}

/// A run of frames that checks ends no earlier than it starts, and inside
/// the buffer.
pub proof fn lemma_check_items_end(buf: Seq<u8>, pos: int, count: nat)
    requires
        0 <= pos <= buf.len(),
    ensures
        check_items(buf, pos, count) matches Ok(end) ==> pos <= end <= buf.len(),
    decreases buf.len() - pos, count + 1,
{
    if count > 0 {
        lemma_check_at_end(buf, pos);
        if let Ok(next) = check_at(buf, pos) {
            lemma_check_items_end(buf, next, (count - 1) as nat);
        }
    }
}

/// Where a frame parses, it checks, and ends at the same place.
pub proof fn lemma_parse_checks(buf: Seq<u8>, pos: int)
    ensures
        parse_at(buf, pos) matches Ok((_, end)) ==> check_at(buf, pos) == Ok::<
            int,
            ParseErrorKind,
        >(end),
    decreases buf.len() - pos, 0nat,
{
    if 0 <= pos < buf.len() {
        lemma_line_end(buf, pos + 1);
        if buf[pos] == BULK && pos + 1 < buf.len() && buf[pos + 1] == ERROR {
            if let Some(i) = line_end(buf, pos + 1) {
                if buf.subrange(pos + 1, i) == null_marker() {
                    assert(buf.subrange(pos + 1, i).len() == 2);
                }
            }
        }
        if buf[pos] == ARRAY {
            if let Ok((n, start)) = decimal_at(buf, pos + 1) {
                if n <= usize::MAX {
                    lemma_parse_items_check(buf, start, n as nat);
                }
            }
        }
    }
}

/// Where a run of frames parses, it checks, and ends at the same place.
pub proof fn lemma_parse_items_check(buf: Seq<u8>, pos: int, count: nat)
    requires
        0 <= pos <= buf.len(),
    ensures
        parse_items(buf, pos, count) matches Ok((_, end)) ==> check_items(buf, pos, count) == Ok::<
            int,
            ParseErrorKind,
        >(end),
    decreases buf.len() - pos, count + 1,
{
    if count > 0 {
        lemma_parse_checks(buf, pos);
        lemma_parse_at_end(buf, pos);
        if let Ok((first, next)) = parse_at(buf, pos) {
            lemma_parse_items_check(buf, next, (count - 1) as nat);
        }
    }
}

/// Puts frames that were parsed before in front of the result for the rest.
pub open spec fn prepend(
    done: Seq<FrameView>,
    rest: Result<(Seq<FrameView>, int), ParseErrorKind>,
) -> Result<(Seq<FrameView>, int), ParseErrorKind> {
    match rest {
        Err(kind) => Err(kind),
        Ok((items, end)) => Ok((done + items, end)),
    }
}

/// Encoding one more frame appends its bytes.
pub proof fn lemma_encode_all_push(items: Seq<FrameView>, item: FrameView)
    ensures
        encode_all(items.push(item)) == encode_all(items) + item.encode(),
{
    assert(items.push(item).drop_last() =~= items);
}

impl FrameView {
    /// Whether the frame is a simple or bulk string that holds `text`.
    pub open spec fn is_text(self, text: Seq<char>) -> bool {
        match self {
            FrameView::Simple(held) => held == text,
            FrameView::Bulk(data) => data == encode_utf8(text),
            _ => false,
        }
    }

    /// The frame as it is shown to a person.
    pub open spec fn display(self) -> Seq<char>
        decreases self, 0nat,
    {
        match self {
            FrameView::Simple(text) => text,
            FrameView::Error(message) => "error: "@ + message,
            FrameView::Integer(n) => decimal_text(n as nat),
            FrameView::Bulk(data) => if valid_utf8(data) {
                decode_utf8(data)
            } else {
                debug_text(data)
            },
            FrameView::Null => "(nil)"@,
            FrameView::Array(parts) => display_parts(parts, parts.len()),
        }
    }
}

/// What an array shows of its first `n` parts: each part but the first, with
/// a space before it.
pub open spec fn display_parts(parts: Seq<FrameView>, n: nat) -> Seq<char>
    decreases parts, n,
{
    if n <= 1 || n > parts.len() {
        Seq::empty()
    } else {
        display_parts(parts, (n - 1) as nat) + " "@ + parts[n - 1].display()
    }
}

} // verus!
