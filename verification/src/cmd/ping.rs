use crate::cmd::{bulk_of, bulk_text, CommandView};
use crate::connection::frame::{Frame, FrameView};
use crate::connection::parse::{token_string, Parse};
use crate::error::{fails_with, MiniRedisParseError, ParseErrorKind};
use vstd::prelude::*;
use vstd::utf8::encode_utf8;

verus! {

/// Returns PONG if no argument is provided, otherwise
/// return a copy of the argument as a bulk.
///
/// This command is often used to test if a connection
/// is still alive, or to measure latency.
#[derive(Debug)]
pub struct Ping {
    /// optional message to be returned
    msg: Option<String>,
}

/// The text of a string that may be absent.
pub open spec fn option_text(text: Option<String>) -> Option<Seq<char>> {
    match text {
        Some(text) => Some(text@),
        None => None,
    }
}

impl View for Ping {
    type V = CommandView;

    closed spec fn view(&self) -> CommandView {
        CommandView::Ping { msg: option_text(self.msg) }
    }
}

impl Ping {
    /// The view of this command is of its own kind.
    pub proof fn lemma_kind(&self)
        ensures
            self@ is Ping,
    {
    }

    /// What is made of the tokens that follow the command's name, and the
    /// tokens that are left.
    pub open spec fn parse_spec(tokens: Seq<FrameView>) -> Result<
        (CommandView, Seq<FrameView>),
        ParseErrorKind,
    > {
        if tokens.len() == 0 {
            Ok((CommandView::Ping { msg: None }, tokens))
        } else {
            match token_string(tokens[0]) {
                Err(kind) => Err(kind),
                Ok(text) => Ok((CommandView::Ping { msg: Some(text) }, tokens.drop_first())),
            }
        }
    }

    /// The answer to `PING`: `PONG`, or the message that came with it.
    pub open spec fn response_spec(msg: Option<Seq<char>>) -> FrameView {
        match msg {
            Some(text) => FrameView::Bulk(encode_utf8(text)),
            None => FrameView::Simple("PONG"@),
        }
    }

    /// Create a new `Ping` command with optional `msg`.
    pub fn new(msg: Option<String>) -> (ping: Ping)
        ensures
            ping@ == (CommandView::Ping { msg: option_text(msg) }),
    {
        Ping { msg }
    }

    /// Parse a `Ping` instance from a received frame.
    ///
    /// The `PING` string has already been consumed.
    pub fn parse_frames(parse: &mut Parse) -> (r: Result<Ping, MiniRedisParseError>)
        ensures
            match Ping::parse_spec(old(parse)@) {
                Ok((command, rest)) => r is Ok && r->Ok_0@ == command && final(parse)@ == rest,
                Err(kind) => fails_with(r, kind),
            },
    {
        match parse.next_string() {
            Ok(msg) => Ok(Ping::new(Some(msg))),
            Err(MiniRedisParseError::EndOfStream) => Ok(Ping::new(None)),
            Err(e) => Err(e),
        }
    }

    /// The answer to the command.
    pub fn apply(self) -> (response: Frame)
        ensures
            self@ matches CommandView::Ping { msg } && response@ == Ping::response_spec(msg),
    {
        match self.msg {
            None => Frame::Simple("PONG".to_string()),
            Some(msg) => Frame::Bulk(bulk_of(msg.as_str())),
        }
    }

    /// Converts the command into an equivalent `Frame`.
    ///
    /// This is called by the client when encoding a `Ping` command to send
    /// to the server.
    pub fn into_frame(self) -> (frame: Frame)
        ensures
            frame@ == self@.frame_spec(),
    {
        let mut frame = Frame::array();
        let _ = frame.push_bulk(bulk_of("ping"));
        match self.msg {
            Some(msg) => {
                let _ = frame.push_bulk(bulk_of(msg.as_str()));
                proof {
                    assert(frame@->Array_0 =~= seq![bulk_text("ping"@)] + seq![bulk_text(msg@)]);
                }
            },
            None => {
                proof {
                    assert(frame@->Array_0 =~= seq![bulk_text("ping"@)] + Seq::<FrameView>::empty());
                }
            },
        }
        frame
    }
}

} // verus!
