//! Frames in and out of a connection's buffers. Bytes reach the buffer and
//! leave it at the caller's hands; what is decided here is where a frame
//! ends, what it holds, and what the end of the stream means.

use crate::connection::cursor::Cursor;
use crate::connection::frame::{Frame, FrameView};
use crate::connection::grammar::{check_at, lemma_check_at_end, parse_at};
use crate::error::{MiniRedisConnectionError, MiniRedisParseError, ParseErrorKind};
use crate::text::extend;
use vstd::prelude::*;

verus! {

/// Send and receive `Frame` values from a remote peer.
///
/// To read frames, the `Connection` uses an internal buffer, which is filled
/// up until there are enough bytes to create a full frame. Once this happens,
/// the `Connection` creates the frame and hands it to the caller.
pub struct Connection {
    /// The bytes that were received and not yet decoded.
    buffer: Vec<u8>,
}

/// What the front of a buffer decodes to: a frame and the number of bytes it
/// takes, nothing yet where the frame has not fully arrived, or the reason
/// why the bytes are no frame.
pub open spec fn decode(buf: Seq<u8>) -> Result<Option<(FrameView, int)>, ParseErrorKind> {
    match check_at(buf, 0) {
        Err(ParseErrorKind::Incomplete) => Ok(None),
        Err(kind) => Err(kind),
        Ok(end) => match parse_at(buf, 0) {
            Ok((frame, _)) => Ok(Some((frame, end))),
            Err(kind) => Err(kind),
        },
    }
}

impl View for Connection {
    type V = Seq<u8>;

    /// The bytes that were received and not yet decoded.
    closed spec fn view(&self) -> Seq<u8> {
        self.buffer@
    }
}

impl Connection {
    /// A connection that has received nothing.
    pub fn new() -> (connection: Connection)
        ensures
            connection@ == Seq::<u8>::empty(),
    {
        Connection { buffer: Vec::new() }
    }

    /// Takes in bytes that arrived from the peer.
    pub fn receive(&mut self, bytes: &[u8])
        ensures
            final(self)@ == old(self)@ + bytes@,
    {
        extend(&mut self.buffer, bytes);
    }

    /// How many bytes wait to be decoded.
    pub fn buffered(&self) -> (n: usize)
        ensures
            n == self@.len(),
    {
        self.buffer.len()
    }

    /// Tries to parse a frame from the buffer. If the buffer contains enough
    /// data, the frame is returned and the data removed from the buffer. If not
    /// enough data has been buffered yet, `Ok(None)` is returned. If the
    /// buffered data does not represent a valid frame, `Err` is returned.
    pub fn parse_frame(&mut self) -> (r: Result<Option<Frame>, MiniRedisConnectionError>)
        ensures
            match decode(old(self)@) {
                Ok(Some((frame, used))) => r matches Ok(Some(got)) && got@ == frame && 0 < used
                    <= old(self)@.len() && final(self)@ == old(self)@.skip(used),
                Ok(None) => r matches Ok(None) && final(self)@ == old(self)@,
                Err(kind) => r is Err && r->Err_0.is_parse(kind) && final(self)@ == old(self)@,
            },
    {
        proof {
            lemma_check_at_end(self@, 0);
        }
        // Cursor is used to track the "current" location in the
        // buffer.
        let mut buf = Cursor::new(self.buffer.as_slice());

        // The first step is to check if enough data has been buffered to parse
        // a single frame. This step is usually much faster than doing a full
        // parse of the frame, and allows us to skip allocating data structures
        // to hold the frame data unless we know the full frame has been
        // received.
        match Frame::check(&mut buf) {
            Ok(_) => {
                // The `check` function will have advanced the cursor until the
                // end of the frame. Since the cursor had position set to zero
                // before `Frame::check` was called, we obtain the length of the
                // frame by checking the cursor position.
                let len = buf.position();

                // Reset the position to zero before passing the cursor to
                // `Frame::parse`.
                buf.set_position(0);

                // Parse the frame from the buffer. This allocates the necessary
                // structures to represent the frame and returns the frame
                // value.
                //
                // If the encoded frame representation is invalid, an error is
                // returned. This should terminate the **current** connection
                // but should not impact any other connected client.
                let frame = match Frame::parse(&mut buf) {
                    Ok(frame) => frame,
                    Err(e) => {
                        return Err(MiniRedisConnectionError::ParseFrame(e));
                    },
                };

                // Discard the parsed data from the read buffer.
                let rest = self.buffer.split_off(len);
                self.buffer = rest;

                // Return the parsed frame to the caller.
                Ok(Some(frame))
            },
            // There is not enough data present in the read buffer to parse a
            // single frame. We must wait for more data to be received from the
            // socket.
            //
            // We do not want to return `Err` from here as this "error" is an
            // expected runtime condition.
            Err(MiniRedisParseError::Incomplete) => Ok(None),
            // An error was encountered while parsing the frame. The connection
            // is now in an invalid state. Returning `Err` from here will result
            // in the connection being closed.
            Err(e) => Err(MiniRedisConnectionError::ParseFrame(e)),
        }
    }

    /// What the end of the stream means, given what is buffered: with an
    /// empty buffer the peer closed the connection in good order; with a
    /// partial frame buffered the connection was reset.
    pub fn end_of_stream(&self) -> (r: Result<(), MiniRedisConnectionError>)
        ensures
            self@.len() == 0 ==> r is Ok,
            self@.len() > 0 ==> r matches Err(MiniRedisConnectionError::Disconnect),
    {
        if self.buffer.len() == 0 {
            Ok(())
        } else {
            Err(MiniRedisConnectionError::Disconnect)
        }
    }

    /// The bytes that carry `frame` to the peer.
    pub fn write_frame(frame: &Frame) -> (bytes: Vec<u8>)
        ensures
            bytes@ == frame@.encode(),
    {
        let mut bytes: Vec<u8> = Vec::new();
        frame.encode(&mut bytes);
        proof {
            assert(Seq::<u8>::empty() + frame@.encode() =~= frame@.encode());
        }
        bytes
    }
}

} // verus!
