use crate::cmd::{bulk_of, bulk_text, CommandView};
use crate::connection::frame::{Frame, FrameView};
use crate::connection::parse::{after_take, take_string, Parse};
use crate::error::{fails_with, MiniRedisParseError, ParseErrorKind};
use crate::storage::store::Store;
use vstd::prelude::*;

verus! {

/// Get the value of key.
///
/// If the key does not exist the special value nil is returned.
#[derive(Debug)]
pub struct Get {
    /// Name of the key to get
    key: String,
}

impl View for Get {
    type V = CommandView;

    closed spec fn view(&self) -> CommandView {
        CommandView::Get { key: self.key@ }
    }
}

impl Get {
    /// The view of this command is of its own kind.
    pub proof fn lemma_kind(&self)
        ensures
            self@ is Get,
    {
    }

    /// What is made of the tokens that follow the command's name, and the
    /// tokens that are left.
    pub open spec fn parse_spec(tokens: Seq<FrameView>) -> Result<
        (CommandView, Seq<FrameView>),
        ParseErrorKind,
    > {
        match take_string(tokens) {
            Err(kind) => Err(kind),
            Ok(key) => Ok((CommandView::Get { key }, after_take(tokens))),
        }
    }

    /// The answer to `GET` for what the key holds.
    pub open spec fn response_spec(held: Option<Seq<u8>>) -> FrameView {
        match held {
            Some(data) => FrameView::Bulk(data),
            None => FrameView::Null,
        }
    }

    /// Create a new `Get` command which fetches `key`.
    pub fn new(key: &str) -> (get: Get)
        ensures
            get@ == (CommandView::Get { key: key@ }),
    {
        Get { key: key.to_string() }
    }

    /// Get the key
    pub fn key(&self) -> (key: &str)
        ensures
            self@ == (CommandView::Get { key: key@ }),
    {
        self.key.as_str()
    }

    /// Parse a `Get` instance from a received frame.
    ///
    /// The `GET` string has already been consumed.
    pub fn parse_frames(parse: &mut Parse) -> (r: Result<Get, MiniRedisParseError>)
        ensures
            match Get::parse_spec(old(parse)@) {
                Ok((command, rest)) => r is Ok && r->Ok_0@ == command && final(parse)@ == rest,
                Err(kind) => fails_with(r, kind),
            },
    {
        // The `GET` string has already been consumed. The next value is the
        // name of the key to get. If the next value is not a string or the
        // input is fully consumed, then an error is returned.
        let key = parse.next_string()?;
        Ok(Get { key })
    }

    /// Looks the key up in `db`. The answer is the value as a bulk string,
    /// or the null frame where the key holds nothing.
    pub fn apply(self, db: &Store) -> (response: Frame)
        requires
            db.wf(),
        ensures
            self@ matches CommandView::Get { key } && response@ == Get::response_spec(
                db@.get(key),
            ),
    {
        match db.get(self.key.as_str()) {
            Some(value) => Frame::Bulk(value),
            None => Frame::Null,
        }
    }

    /// Converts the command into an equivalent `Frame`.
    ///
    /// This is called by the client when encoding a `Get` command to send to
    /// the server.
    pub fn into_frame(self) -> (frame: Frame)
        ensures
            frame@ == self@.frame_spec(),
    {
        let mut frame = Frame::array();
        let _ = frame.push_bulk(bulk_of("get"));
        let _ = frame.push_bulk(bulk_of(self.key.as_str()));
        proof {
            assert(frame@->Array_0 =~= seq![bulk_text("get"@), bulk_text(self.key@)]);
        }
        frame
    }
}

} // verus!
