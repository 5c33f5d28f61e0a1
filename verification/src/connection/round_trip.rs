//! Decoding gives back what was encoded.

use crate::connection::cursor::{lemma_line_end, line_end, CR, LF};
use crate::connection::decimal::{decimal, lemma_decimal_digits, lemma_decimal_round_trip};
use crate::connection::connect::decode;
use crate::connection::frame::{FrameView};
use crate::connection::grammar::{lemma_parse_checks, crlf, decimal_at, encode_all, null_marker, parse_at, parse_items, text_at, ARRAY, BULK, ERROR, INTEGER, SIMPLE};
use crate::error::ParseErrorKind;
use vstd::prelude::*;
use vstd::utf8::{encode_utf8, encode_utf8_decode_utf8, encode_utf8_valid_utf8};

verus! {

/// No line break occurs inside `body`.
pub open spec fn unbroken(body: Seq<u8>) -> bool {
    forall|j: int| 0 <= j && j + 1 < body.len() ==> !(body[j] == CR && #[trigger] body[j + 1] == LF)
}

impl FrameView {
    /// The frame can be put on the wire and told apart from what follows it:
    /// its text holds no line break, and every length in it fits the
    /// machine's index type.
    pub open spec fn encodable(self) -> bool
        decreases self,
    {
        match self {
            FrameView::Simple(text) => unbroken(encode_utf8(text)),
            FrameView::Error(text) => unbroken(encode_utf8(text)),
            FrameView::Integer(_) => true,
            FrameView::Bulk(data) => data.len() <= usize::MAX,
            FrameView::Null => true,
            FrameView::Array(items) => items.len() <= usize::MAX && forall|i: int|
                0 <= i < items.len() ==> (#[trigger] items[i]).encodable(),
        }
    }
}

/// A line without a break inside it ends where its terminator stands.
pub proof fn lemma_line_end_of_body(pre: Seq<u8>, body: Seq<u8>, suf: Seq<u8>)
    requires
        unbroken(body),
    ensures
        line_end(pre + body + crlf() + suf, pre.len() as int) == Some(
            (pre.len() + body.len()) as int,
        ),
{
    let buf = pre + body + crlf() + suf;
    let from = pre.len() as int;
    let at = from + body.len();
    lemma_line_end(buf, from);
    assert(buf[at] == CR);
    assert(buf[at + 1] == LF);
    assert forall|j: int| from <= j < at implies !(buf[j] == CR && #[trigger] buf[j + 1] == LF) by {
        let k = j - from;
        assert(buf[j] == body[k]);
        if k + 1 < body.len() {
            assert(buf[j + 1] == body[k + 1]);
            assert(!(body[k] == CR && body[k + 1] == LF));
        } else {
            assert(buf[j + 1] == CR);
        }
    }
}

/// Decimal digits hold no line break.
pub proof fn lemma_decimal_unbroken(n: nat)
    ensures
        unbroken(decimal(n)),
{
    lemma_decimal_digits(n);
}

/// The decimal header of `n` is read back as `n`.
pub proof fn lemma_decimal_at(pre: Seq<u8>, n: u64, suf: Seq<u8>)
    ensures
        decimal_at(pre + decimal(n as nat) + crlf() + suf, pre.len() as int) == Ok::<
            (u64, int),
            ParseErrorKind,
        >((n, (pre.len() + decimal(n as nat).len() + 2) as int)),
{
    let digits = decimal(n as nat);
    let buf = pre + digits + crlf() + suf;
    lemma_decimal_unbroken(n as nat);
    lemma_line_end_of_body(pre, digits, suf);
    assert(buf.subrange(pre.len() as int, (pre.len() + digits.len()) as int) =~= digits);
    lemma_decimal_round_trip(n);
}

/// A line of encoded text is read back as the text.
pub proof fn lemma_text_at(pre: Seq<u8>, text: Seq<char>, suf: Seq<u8>)
    requires
        unbroken(encode_utf8(text)),
    ensures
        text_at(pre + encode_utf8(text) + crlf() + suf, pre.len() as int) == Ok::<
            (Seq<char>, int),
            ParseErrorKind,
        >((text, (pre.len() + encode_utf8(text).len() + 2) as int)),
{
    let body = encode_utf8(text);
    let buf = pre + body + crlf() + suf;
    lemma_line_end_of_body(pre, body, suf);
    assert(buf.subrange(pre.len() as int, (pre.len() + body.len()) as int) =~= body);
    encode_utf8_valid_utf8(text);
    encode_utf8_decode_utf8(text);
}

/// Encoding a run of frames that starts with `first` starts with the bytes of
/// `first`.
pub proof fn lemma_encode_all_front(first: FrameView, rest: Seq<FrameView>)
    ensures
        encode_all(seq![first] + rest) == first.encode() + encode_all(rest),
    decreases rest.len(),
{
    let all = seq![first] + rest;
    if rest.len() == 0 {
        assert(all =~= seq![first]);
        assert(all.drop_last() =~= Seq::<FrameView>::empty());
        assert(encode_all(all.drop_last()) =~= Seq::<u8>::empty());
        assert(encode_all(all) =~= first.encode());
        assert(first.encode() + encode_all(rest) =~= first.encode());
    } else {
        lemma_encode_all_front(first, rest.drop_last());
        assert(all.drop_last() =~= seq![first] + rest.drop_last());
        assert(all.last() == rest.last());
        assert(encode_all(all) =~= first.encode() + encode_all(rest));
    }
}

/// Every frame's encoding holds at least its type byte.
pub proof fn lemma_encode_nonempty(frame: FrameView)
    ensures
        frame.encode().len() > 0,
{
}

proof fn lemma_simple_at(text: Seq<char>, pre: Seq<u8>, suf: Seq<u8>)
    requires
        unbroken(encode_utf8(text)),
    ensures
        parse_at(pre + FrameView::Simple(text).encode() + suf, pre.len() as int) == Ok::<
            (FrameView, int),
            ParseErrorKind,
        >((FrameView::Simple(text), (pre.len() + FrameView::Simple(text).encode().len()) as int)),
{
    let buf = pre + FrameView::Simple(text).encode() + suf;
    lemma_text_at(pre + seq![SIMPLE], text, suf);
    assert(buf =~= pre + seq![SIMPLE] + encode_utf8(text) + crlf() + suf);
    assert(buf[pre.len() as int] == SIMPLE);
}

proof fn lemma_error_at(text: Seq<char>, pre: Seq<u8>, suf: Seq<u8>)
    requires
        unbroken(encode_utf8(text)),
    ensures
        parse_at(pre + FrameView::Error(text).encode() + suf, pre.len() as int) == Ok::<
            (FrameView, int),
            ParseErrorKind,
        >((FrameView::Error(text), (pre.len() + FrameView::Error(text).encode().len()) as int)),
{
    let buf = pre + FrameView::Error(text).encode() + suf;
    lemma_text_at(pre + seq![ERROR], text, suf);
    assert(buf =~= pre + seq![ERROR] + encode_utf8(text) + crlf() + suf);
    assert(buf[pre.len() as int] == ERROR);
}

proof fn lemma_integer_at(n: u64, pre: Seq<u8>, suf: Seq<u8>)
    ensures
        parse_at(pre + FrameView::Integer(n).encode() + suf, pre.len() as int) == Ok::<
            (FrameView, int),
            ParseErrorKind,
        >((FrameView::Integer(n), (pre.len() + FrameView::Integer(n).encode().len()) as int)),
{
    let buf = pre + FrameView::Integer(n).encode() + suf;
    lemma_decimal_at(pre + seq![INTEGER], n, suf);
    assert(buf =~= pre + seq![INTEGER] + decimal(n as nat) + crlf() + suf);
    assert(buf[pre.len() as int] == INTEGER);
}

proof fn lemma_null_at(pre: Seq<u8>, suf: Seq<u8>)
    ensures
        parse_at(pre + FrameView::Null.encode() + suf, pre.len() as int) == Ok::<
            (FrameView, int),
            ParseErrorKind,
        >((FrameView::Null, (pre.len() + FrameView::Null.encode().len()) as int)),
{
    let buf = pre + FrameView::Null.encode() + suf;
    let pos = pre.len() as int;
    let body = null_marker();
    lemma_line_end_of_body(pre + seq![BULK], body, suf);
    assert(buf =~= pre + seq![BULK] + body + crlf() + suf);
    assert(buf[pos] == BULK);
    assert(buf[pos + 1] == ERROR);
    assert(buf.subrange(pos + 1, pos + 3) =~= body);
}

proof fn lemma_bulk_at(data: Seq<u8>, pre: Seq<u8>, suf: Seq<u8>)
    requires
        data.len() <= usize::MAX,
    ensures
        parse_at(pre + FrameView::Bulk(data).encode() + suf, pre.len() as int) == Ok::<
            (FrameView, int),
            ParseErrorKind,
        >((FrameView::Bulk(data), (pre.len() + FrameView::Bulk(data).encode().len()) as int)),
{
    let buf = pre + FrameView::Bulk(data).encode() + suf;
    let pos = pre.len() as int;
    let n = data.len() as u64;
    let digits = decimal(n as nat);
    let tail = data + crlf() + suf;
    lemma_decimal_at(pre + seq![BULK], n, tail);
    lemma_decimal_digits(n as nat);
    assert(buf =~= pre + seq![BULK] + digits + crlf() + tail);
    assert(buf[pos] == BULK);
    assert(buf[pos + 1] == digits[0]);
    let start = pos + 1 + digits.len() + 2;
    assert(buf[start + n] == CR);
    assert(buf[start + n + 1] == LF);
    assert(buf.subrange(start, start + n) =~= data);
}

/// A frame that was encoded is read back unchanged, wherever it stands in a
/// buffer and whatever follows it.
pub proof fn lemma_parse_encode_at(frame: FrameView, pre: Seq<u8>, suf: Seq<u8>)
    requires
        frame.encodable(),
    ensures
        parse_at(pre + frame.encode() + suf, pre.len() as int) == Ok::<
            (FrameView, int),
            ParseErrorKind,
        >((frame, (pre.len() + frame.encode().len()) as int)),
    decreases frame, 0nat,
{
    match frame {
        FrameView::Simple(text) => lemma_simple_at(text, pre, suf),
        FrameView::Error(text) => lemma_error_at(text, pre, suf),
        FrameView::Integer(n) => lemma_integer_at(n, pre, suf),
        FrameView::Null => lemma_null_at(pre, suf),
        FrameView::Bulk(data) => lemma_bulk_at(data, pre, suf),
        FrameView::Array(items) => {
            let buf = pre + frame.encode() + suf;
            let n = items.len() as u64;
            let digits = decimal(n as nat);
            let head = pre + seq![ARRAY] + digits + crlf();
            lemma_decimal_at(pre + seq![ARRAY], n, encode_all(items) + suf);
            assert(buf =~= pre + seq![ARRAY] + digits + crlf() + (encode_all(items) + suf));
            assert(buf[pre.len() as int] == ARRAY);
            assert(buf =~= head + encode_all(items) + suf);
            lemma_parse_encode_all_at(items, head, suf);
        },
    }
}

/// A run of frames that was encoded is read back unchanged.
pub proof fn lemma_parse_encode_all_at(items: Seq<FrameView>, pre: Seq<u8>, suf: Seq<u8>)
    requires
        forall|i: int| 0 <= i < items.len() ==> (#[trigger] items[i]).encodable(),
    ensures
        parse_items(pre + encode_all(items) + suf, pre.len() as int, items.len()) == Ok::<
            (Seq<FrameView>, int),
            ParseErrorKind,
        >((items, (pre.len() + encode_all(items).len()) as int)),
    decreases items, 1nat,
{
    let buf = pre + encode_all(items) + suf;
    if items.len() == 0 {
        assert(items =~= Seq::<FrameView>::empty());
    } else {
        let first = items[0];
        let rest = items.drop_first();
        assert(items =~= seq![first] + rest);
        lemma_encode_all_front(first, rest);
        lemma_encode_nonempty(first);
        assert(buf =~= pre + first.encode() + (encode_all(rest) + suf));
        lemma_parse_encode_at(first, pre, encode_all(rest) + suf);
        let mid = pre + first.encode();
        assert(buf =~= mid + encode_all(rest) + suf);
        assert forall|i: int| 0 <= i < rest.len() implies (#[trigger] rest[i]).encodable() by {
            assert(rest[i] == items[i + 1]);
        }
        lemma_parse_encode_all_at(rest, mid, suf);
    }
}

/// Round trip: parsing the bytes that encode a frame gives the frame back,
/// and reads exactly those bytes.
pub proof fn lemma_parse_encode(frame: FrameView)
    requires
        frame.encodable(),
    ensures
        parse_at(frame.encode(), 0) == Ok::<(FrameView, int), ParseErrorKind>(
            (frame, frame.encode().len() as int),
        ),
{
    lemma_parse_encode_at(frame, Seq::empty(), Seq::empty());
    assert(Seq::<u8>::empty() + frame.encode() + Seq::<u8>::empty() =~= frame.encode());
}

/// A connection that has received the bytes of a frame, and whatever came
/// after them, decodes that frame and takes exactly its bytes.
pub proof fn lemma_decode_encode(frame: FrameView, rest: Seq<u8>)
    requires
        frame.encodable(),
    ensures
        decode(frame.encode() + rest) == Ok::<Option<(FrameView, int)>, ParseErrorKind>(
            Some((frame, frame.encode().len() as int)),
        ),
{
    let buf = frame.encode() + rest;
    lemma_parse_encode_at(frame, Seq::empty(), rest);
    assert(Seq::<u8>::empty() + frame.encode() + rest =~= buf);
    lemma_parse_checks(buf, 0);
}

} // verus!
