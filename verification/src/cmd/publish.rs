use crate::cmd::{bulk_of, bulk_text, CommandView};
use crate::connection::frame::{Frame, FrameView};
use crate::connection::parse::{after_take, take_bytes, take_string, Parse};
use crate::error::{fails_with, MiniRedisParseError, ParseErrorKind};
use crate::storage::store::Store;
use crate::trusted::buf::contents;
use bytes::Bytes;
use vstd::prelude::*;

verus! {

/// Posts a message to the given channel.
///
/// Send a message into a channel without any knowledge of individual consumers.
/// Consumers may subscribe to channels in order to receive the messages.
///
/// Channel names have no relation to the key-value namespace. Publishing on a
/// channel named "foo" has no relation to setting the "foo" key.
#[derive(Debug)]
pub struct Publish {
    /// Name of the channel on which the message should be published.
    channel: String,
    /// The message to publish.
    message: Bytes,
}

impl View for Publish {
    type V = CommandView;

    closed spec fn view(&self) -> CommandView {
        CommandView::Publish { channel: self.channel@, message: contents(self.message) }
    }
}

impl Publish {
    /// The view of this command is of its own kind.
    pub proof fn lemma_kind(&self)
        ensures
            self@ is Publish,
    {
    }

    /// What is made of the tokens that follow the command's name, and the
    /// tokens that are left.
    pub open spec fn parse_spec(tokens: Seq<FrameView>) -> Result<
        (CommandView, Seq<FrameView>),
        ParseErrorKind,
    > {
        match take_string(tokens) {
            Err(kind) => Err(kind),
            Ok(channel) => match take_bytes(after_take(tokens)) {
                Err(kind) => Err(kind),
                Ok(message) => Ok(
                    (CommandView::Publish { channel, message }, after_take(after_take(tokens))),
                ),
            },
        }
    }

    /// Create a new `Publish` command which sends `message` on `channel`.
    pub fn new(channel: &str, message: Bytes) -> (publish: Publish)
        ensures
            publish@ == (CommandView::Publish { channel: channel@, message: contents(message) }),
    {
        Publish { channel: channel.to_string(), message }
    }

    /// Parse a `Publish` instance from a received frame.
    ///
    /// The `PUBLISH` string has already been consumed.
    pub fn parse_frames(parse: &mut Parse) -> (r: Result<Publish, MiniRedisParseError>)
        ensures
            match Publish::parse_spec(old(parse)@) {
                Ok((command, rest)) => r is Ok && r->Ok_0@ == command && final(parse)@ == rest,
                Err(kind) => fails_with(r, kind),
            },
    {
        // The `channel` must be a valid string.
        let channel = parse.next_string()?;

        // The `message` is arbitrary bytes.
        let message = parse.next_bytes()?;

        Ok(Publish { channel, message })
    }

    /// Hands the message to the channel's subscribers. The answer is the
    /// number of subscribers that the channel had; on a channel that nobody
    /// ever subscribed to it is zero.
    pub fn apply(self, db: &Store) -> (response: Frame)
        requires
            db.wf(),
        ensures
            response@ is Integer,
            self@ matches CommandView::Publish { channel, .. } && (!db@.channels.contains(channel)
                ==> response@ == FrameView::Integer(0)),
    {
        // The shared state contains the `tokio::sync::broadcast::Sender` for
        // all active channels. Calling `db.publish` dispatches the message into
        // the appropriate channel.
        //
        // The number of subscribers currently listening on the channel is
        // returned. This does not mean that `num_subscriber` channels will
        // receive the message. Subscribers may drop before receiving the
        // message. Given this, `num_subscribers` should only be used as a
        // "hint".
        let num_subscribers = db.publish(self.channel.as_str(), self.message);

        // The number of subscribers is returned as the response to the publish
        // request.
        Publish::response(num_subscribers)
    }

    /// The answer to `PUBLISH`: the number of subscribers that the message
    /// was handed to.
    pub fn response(num_subscribers: usize) -> (response: Frame)
        ensures
            response@ == FrameView::Integer(num_subscribers as u64),
    {
        Frame::Integer(num_subscribers as u64)
    }

    /// Converts the command into an equivalent `Frame`.
    ///
    /// This is called by the client when encoding a `Publish` command to send
    /// to the server.
    pub fn into_frame(self) -> (frame: Frame)
        ensures
            frame@ == self@.frame_spec(),
    {
        let mut frame = Frame::array();
        let _ = frame.push_bulk(bulk_of("publish"));
        let _ = frame.push_bulk(bulk_of(self.channel.as_str()));
        let _ = frame.push_bulk(self.message);
        proof {
            assert(frame@->Array_0 =~= seq![
                bulk_text("publish"@),
                bulk_text(self.channel@),
                FrameView::Bulk(contents(self.message)),
            ]);
        }
        frame
    }
}

} // verus!
