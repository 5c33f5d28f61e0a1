//! A read position over a borrowed byte buffer.

use crate::error::{fails_with, MiniRedisParseError, ParseErrorKind};
use vstd::prelude::*;

verus! {

/// Carriage return, the first byte of a line break.
pub const CR: u8 = 13;

/// Line feed, the second byte of a line break.
pub const LF: u8 = 10;

/// A byte buffer together with the position of the next byte to read. The
/// position may lie past the end: nothing remains then.
pub struct Cursor<'a> {
    inner: &'a [u8],
    pos: usize,
}

impl<'a> Cursor<'a> {
    /// The whole buffer, read and unread.
    pub closed spec fn buf(&self) -> Seq<u8> {
        self.inner@
    }

    /// The position of the next byte to read.
    pub closed spec fn pos(&self) -> int {
        self.pos as int
    }

    /// The position is a machine index.
    pub proof fn lemma_pos_range(&self)
        ensures
            0 <= self.pos() <= usize::MAX,
    {
    }

    /// How many bytes are left to read.
    pub open spec fn left(&self) -> int {
        if self.pos() <= self.buf().len() {
            self.buf().len() - self.pos()
        } else {
            0
        }
    }

    /// A cursor at the start of `inner`.
    pub fn new(inner: &'a [u8]) -> (cursor: Self)
        ensures
            cursor.buf() == inner@,
            cursor.pos() == 0,
    {
        Cursor { inner, pos: 0 }
    }

    pub fn position(&self) -> (pos: usize)
        ensures
            pos == self.pos(),
    {
        self.pos
    }

    pub fn set_position(&mut self, pos: usize)
        ensures
            final(self).buf() == old(self).buf(),
            final(self).pos() == pos,
    {
        self.pos = pos;
    }

    /// The underlying buffer.
    pub fn get_ref(&self) -> (inner: &'a [u8])
        ensures
            inner@ == self.buf(),
    {
        self.inner
    }

    pub fn remaining(&self) -> (n: usize)
        ensures
            n == self.left(),
    {
        let len = self.inner.len();
        if self.pos <= len {
            len - self.pos
        } else {
            0
        }
    }

    pub fn has_remaining(&self) -> (b: bool)
        ensures
            b == (self.left() > 0),
    {
        self.remaining() > 0
    }

    /// The unread part of the buffer.
    pub fn chunk(&self) -> (rest: &'a [u8])
        ensures
            rest@.len() == self.left(),
            self.left() > 0 ==> rest@ == self.buf().subrange(self.pos(), self.buf().len() as int),
    {
        let len = self.inner.len();
        if self.pos <= len {
            vstd::slice::slice_subrange(self.inner, self.pos, len)
        } else {
            vstd::slice::slice_subrange(self.inner, len, len)
        }
    }

    /// Moves the position `n` bytes on.
    pub fn advance(&mut self, n: usize)
        requires
            n <= old(self).left(),
        ensures
            final(self).buf() == old(self).buf(),
            final(self).pos() == old(self).pos() + n,
    {
        let len = self.inner.len();
        assert(self.pos + n <= len || n == 0);
        self.pos = self.pos + n;
    }
}

/// Moves `src` over `n` bytes, if that many are left.
pub fn skip(src: &mut Cursor<'_>, n: usize) -> (r: Result<(), MiniRedisParseError>)
    ensures
        final(src).buf() == old(src).buf(),
        n <= old(src).left() ==> r is Ok && final(src).pos() == old(src).pos() + n,
        n > old(src).left() ==> fails_with(r, ParseErrorKind::Incomplete) && final(src).pos()
            == old(src).pos(),
{
    if src.remaining() < n {
        return Err(MiniRedisParseError::Incomplete);
    }
    src.advance(n);
    Ok(())
}

/// The next byte, which stays unread.
pub fn peek_u8(src: &mut Cursor<'_>) -> (r: Result<u8, MiniRedisParseError>)
    ensures
        *final(src) == *old(src),
        old(src).left() > 0 ==> r == Ok::<u8, MiniRedisParseError>(
            old(src).buf()[old(src).pos()],
        ),
        old(src).left() == 0 ==> fails_with(r, ParseErrorKind::Incomplete),
{
    if !src.has_remaining() {
        return Err(MiniRedisParseError::Incomplete);
    }
    Ok(src.chunk()[0])
}

/// Reads the next byte.
pub fn get_u8(src: &mut Cursor<'_>) -> (r: Result<u8, MiniRedisParseError>)
    ensures
        final(src).buf() == old(src).buf(),
        old(src).left() > 0 ==> r == Ok::<u8, MiniRedisParseError>(
            old(src).buf()[old(src).pos()],
        ) && final(src).pos() == old(src).pos() + 1,
        old(src).left() == 0 ==> fails_with(r, ParseErrorKind::Incomplete) && final(src).pos() == old(src).pos(),
{
    if !src.has_remaining() {
        return Err(MiniRedisParseError::Incomplete);
    }
    let byte = src.chunk()[0];
    src.advance(1);
    Ok(byte)
}

/// Where the first line break at or after `from` starts: the least `i >= from`
/// with a carriage return at `i` and a line feed at `i + 1`.
pub open spec fn line_end(buf: Seq<u8>, from: int) -> Option<int>
    decreases buf.len() - from,
{
    if from < 0 || from + 1 >= buf.len() {
        None
    } else if buf[from] == CR && buf[from + 1] == LF {
        Some(from)
    } else {
        line_end(buf, from + 1)
    }
}

/// `line_end` finds a line break, and the first one.
pub proof fn lemma_line_end(buf: Seq<u8>, from: int)
    requires
        0 <= from,
    ensures
        match line_end(buf, from) {
            Some(i) => from <= i && i + 1 < buf.len() && buf[i] == CR && buf[i + 1] == LF
                && forall|j: int| from <= j < i ==> !(buf[j] == CR && #[trigger] buf[j + 1] == LF),
            None => forall|j: int|
                from <= j && j + 1 < buf.len() ==> !(buf[j] == CR && #[trigger] buf[j + 1] == LF),
        },
    decreases buf.len() - from,
{
    if from + 1 >= buf.len() {
    } else if buf[from] == CR && buf[from + 1] == LF {
    } else {
        lemma_line_end(buf, from + 1);
    }
}

/// Reads up to the next line break and moves past it; the line comes back
/// without the break.
pub fn get_line<'a>(src: &mut Cursor<'a>) -> (r: Result<&'a [u8], MiniRedisParseError>)
    ensures
        final(src).buf() == old(src).buf(),
        match line_end(old(src).buf(), old(src).pos()) {
            Some(i) => r is Ok && r->Ok_0@ == old(src).buf().subrange(old(src).pos(), i) && final(src).pos() == i + 2,
            None => fails_with(r, ParseErrorKind::Incomplete) && final(src).pos() == old(src).pos(),
        },
{
    let start = src.position();
    let buf = src.get_ref();
    if buf.len() == 0 {
        return Err(MiniRedisParseError::Incomplete);
    }
    let end = buf.len() - 1;
    let mut i = start;
    while i < end
        invariant
            start <= i,
            end == buf@.len() - 1,
            buf@ == src.buf(),
            src.pos() == start,
            *src == *old(src),
            line_end(buf@, start as int) == line_end(buf@, i as int),
        decreases end - i,
    {
        if buf[i] == CR && buf[i + 1] == LF {
            src.set_position(i + 2);
            return Ok(vstd::slice::slice_subrange(buf, start, i));
        }
        i = i + 1;
    }
    Err(MiniRedisParseError::Incomplete)
}

} // verus!
