use crate::cmd::subscribe::{channels_of, parse_channels, push_channels};
use crate::cmd::{bulk_of, texts, CommandView};
use crate::connection::frame::{Frame, FrameView};
use crate::connection::parse::Parse;
use crate::error::{fails_with, MiniRedisParseError, ParseErrorKind};
use vstd::prelude::*;

verus! {

/// Unsubscribes the client from one or more channels.
///
/// When no channels are specified, the client is unsubscribed from all the
/// previously subscribed channels.
#[derive(Debug)]
pub struct Unsubscribe {
    channels: Vec<String>,
}

impl View for Unsubscribe {
    type V = CommandView;

    closed spec fn view(&self) -> CommandView {
        CommandView::Unsubscribe { channels: texts(self.channels@) }
    }
}

impl Unsubscribe {
    /// The view of this command is of its own kind.
    pub proof fn lemma_kind(&self)
        ensures
            self@ is Unsubscribe,
    {
    }

    /// What is made of the tokens that follow the command's name, and the
    /// tokens that are left: every token a channel's name, possibly none.
    pub open spec fn parse_spec(tokens: Seq<FrameView>) -> Result<
        (CommandView, Seq<FrameView>),
        ParseErrorKind,
    > {
        match channels_of(tokens) {
            Err(kind) => Err(kind),
            Ok(channels) => Ok((CommandView::Unsubscribe { channels }, Seq::empty())),
        }
    }

    /// Create a new `Unsubscribe` command with the given `channels`.
    pub fn new(channels: Vec<String>) -> (unsubscribe: Unsubscribe)
        ensures
            unsubscribe@ == (CommandView::Unsubscribe { channels: texts(channels@) }),
    {
        Unsubscribe { channels }
    }

    /// Gives the channels up to the caller.
    pub fn into_channels(self) -> (channels: Vec<String>)
        ensures
            self@ == (CommandView::Unsubscribe { channels: texts(channels@) }),
    {
        self.channels
    }

    /// Parse an `Unsubscribe` instance from a received frame.
    ///
    /// The `UNSUBSCRIBE` string has already been consumed.
    pub fn parse_frames(parse: &mut Parse) -> (r: Result<Unsubscribe, MiniRedisParseError>)
        ensures
            match Unsubscribe::parse_spec(old(parse)@) {
                Ok((command, rest)) => r is Ok && r->Ok_0@ == command && final(parse)@ == rest,
                Err(kind) => fails_with(r, kind),
            },
    {
        // There may be no channels listed, so start with an empty vec.
        let mut channels: Vec<String> = Vec::new();
        proof {
            assert(texts(channels@) =~= Seq::<Seq<char>>::empty());
        }
        // Each entry in the frame must be a string or the frame is malformed.
        // Once all values in the frame have been consumed, the command is fully
        // parsed.
        parse_channels(parse, &mut channels)?;
        proof {
            assert(parse@ =~= Seq::<FrameView>::empty());
            match channels_of(old(parse)@) {
                Ok(names) => {
                    assert(Seq::<Seq<char>>::empty() + names =~= names);
                },
                Err(_) => {},
            }
        }
        Ok(Unsubscribe { channels })
    }

    /// Converts the command into an equivalent `Frame`.
    ///
    /// This is called by the client when encoding an `Unsubscribe` command to
    /// send to the server.
    pub fn into_frame(self) -> (frame: Frame)
        ensures
            frame@ == self@.frame_spec(),
    {
        let mut frame = Frame::array();
        let _ = frame.push_bulk(bulk_of("unsubscribe"));
        push_channels(&mut frame, &self.channels);
        frame
    }
}

} // verus!
