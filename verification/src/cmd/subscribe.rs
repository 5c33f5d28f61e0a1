use crate::cmd::{bulk_of, bulk_text, bulk_texts, texts, CommandView};
use crate::connection::frame::{Frame, FrameView};
use crate::connection::parse::{token_string, Parse};
use crate::error::{fails_with, MiniRedisParseError, ParseErrorKind};
use vstd::prelude::*;

verus! {

/// Subscribes the client to one or more channels.
///
/// Once the client enters the subscribed state, it is not supposed to issue any
/// other commands, except for additional SUBSCRIBE, PSUBSCRIBE, UNSUBSCRIBE,
/// PUNSUBSCRIBE, PING and QUIT commands.
#[derive(Debug)]
pub struct Subscribe {
    channels: Vec<String>,
}

impl View for Subscribe {
    type V = CommandView;

    closed spec fn view(&self) -> CommandView {
        CommandView::Subscribe { channels: texts(self.channels@) }
    }
}

/// The channel names that the tokens give, each token read as text.
pub open spec fn channels_of(tokens: Seq<FrameView>) -> Result<Seq<Seq<char>>, ParseErrorKind>
    decreases tokens.len(),
{
    if tokens.len() == 0 {
        Ok(Seq::empty())
    } else {
        match token_string(tokens[0]) {
            Err(kind) => Err(kind),
            Ok(channel) => match channels_of(tokens.drop_first()) {
                Err(kind) => Err(kind),
                Ok(rest) => Ok(seq![channel] + rest),
            },
        }
    }
}

/// Puts names that were read before in front of the result for the rest.
pub open spec fn after_names(
    done: Seq<Seq<char>>,
    rest: Result<Seq<Seq<char>>, ParseErrorKind>,
) -> Result<Seq<Seq<char>>, ParseErrorKind> {
    match rest {
        Err(kind) => Err(kind),
        Ok(names) => Ok(done + names),
    }
}

/// Reads every token that is left as a channel name and appends it to
/// `channels`.
pub(crate) fn parse_channels(parse: &mut Parse, channels: &mut Vec<String>) -> (r: Result<
    (),
    MiniRedisParseError,
>)
    ensures
        match channels_of(old(parse)@) {
            Ok(names) => r is Ok && texts(final(channels)@) == texts(old(channels)@) + names
                && final(parse)@.len() == 0,
            Err(kind) => fails_with(r, kind),
        },
{
    let ghost all = parse@;
    let ghost had = texts(channels@);
    proof {
        assert(had + Seq::<Seq<char>>::empty() =~= had);
        match channels_of(all) {
            Ok(names) => {
                assert(Seq::<Seq<char>>::empty() + names =~= names);
            },
            Err(_) => {},
        }
    }
    let ghost mut done: Seq<Seq<char>> = Seq::empty();
    loop
        invariant
            all == old(parse)@,
            had == texts(old(channels)@),
            texts(channels@) == had + done,
            channels_of(all) == after_names(done, channels_of(parse@)),
        decreases parse@.len(),
    {
        let ghost before = parse@;
        match parse.next_string() {
            // Strings are consumed from the `parse` and pushed into the list of
            // channels to subscribe to.
            Ok(s) => {
                proof {
                    match channels_of(parse@) {
                        Ok(names) => {
                            assert(done + (seq![s@] + names) =~= done.push(s@) + names);
                        },
                        Err(_) => {},
                    }
                    assert(texts(channels@.push(s)) =~= texts(channels@).push(s@));
                    assert(had + done.push(s@) =~= (had + done).push(s@));
                    done = done.push(s@);
                }
                channels.push(s);
            },
            // The `EndOfStream` error indicates there is no further data to
            // parse.
            Err(MiniRedisParseError::EndOfStream) => {
                proof {
                    assert(done + Seq::<Seq<char>>::empty() =~= done);
                }
                return Ok(());
            },
            // All other errors are bubbled up, resulting in the connection
            // being terminated.
            Err(e) => {
                return Err(e);
            },
        }
    }
}

impl Subscribe {
    /// The view of this command is of its own kind.
    pub proof fn lemma_kind(&self)
        ensures
            self@ is Subscribe,
    {
    }

    /// What is made of the tokens that follow the command's name, and the
    /// tokens that are left: at least one channel, and every token a name.
    pub open spec fn parse_spec(tokens: Seq<FrameView>) -> Result<
        (CommandView, Seq<FrameView>),
        ParseErrorKind,
    > {
        if tokens.len() == 0 {
            Err(ParseErrorKind::EndOfStream)
        } else {
            match channels_of(tokens) {
                Err(kind) => Err(kind),
                Ok(channels) => Ok((CommandView::Subscribe { channels }, Seq::empty())),
            }
        }
    }

    /// Creates a new `Subscribe` command to listen on the specified channels.
    pub fn new(channels: Vec<String>) -> (subscribe: Subscribe)
        ensures
            subscribe@ == (CommandView::Subscribe { channels: texts(channels@) }),
    {
        Subscribe { channels }
    }

    /// The channels to listen on.
    pub fn channels(&self) -> (channels: &Vec<String>)
        ensures
            self@ == (CommandView::Subscribe { channels: texts(channels@) }),
    {
        &self.channels
    }

    /// Gives the channels up to the caller.
    pub fn into_channels(self) -> (channels: Vec<String>)
        ensures
            self@ == (CommandView::Subscribe { channels: texts(channels@) }),
    {
        self.channels
    }

    /// Parse a `Subscribe` instance from a received frame.
    ///
    /// The `SUBSCRIBE` string has already been consumed.
    pub fn parse_frames(parse: &mut Parse) -> (r: Result<Subscribe, MiniRedisParseError>)
        ensures
            match Subscribe::parse_spec(old(parse)@) {
                Ok((command, rest)) => r is Ok && r->Ok_0@ == command && final(parse)@ == rest,
                Err(kind) => fails_with(r, kind),
            },
    {
        // The `SUBSCRIBE` string has already been consumed. At this point,
        // there is one or more strings remaining in `parse`. These represent
        // the channels to subscribe to.
        //
        // Extract the first string. If there is none, the the frame is
        // malformed and the error is bubbled up.
        let ghost tokens = parse@;
        let first = parse.next_string()?;
        let mut channels: Vec<String> = Vec::new();
        channels.push(first);
        proof {
            assert(texts(channels@) =~= seq![first@]);
        }
        // Now, the remainder of the frame is consumed. Each value must be a
        // string or the frame is malformed. Once all values in the frame have
        // been consumed, the command is fully parsed.
        parse_channels(parse, &mut channels)?;
        proof {
            assert(parse@ =~= Seq::<FrameView>::empty());
        }
        Ok(Subscribe { channels })
    }

    /// Converts the command into an equivalent `Frame`.
    ///
    /// This is called by the client when encoding a `Subscribe` command to send
    /// to the server.
    pub fn into_frame(self) -> (frame: Frame)
        ensures
            frame@ == self@.frame_spec(),
    {
        let mut frame = Frame::array();
        let _ = frame.push_bulk(bulk_of("subscribe"));
        push_channels(&mut frame, &self.channels);
        frame
    }
}

/// Pushes each channel's name onto the array `frame` as a bulk string.
pub(crate) fn push_channels(frame: &mut Frame, channels: &Vec<String>)
    requires
        old(frame)@ is Array,
    ensures
        final(frame)@ == FrameView::Array(old(frame)@->Array_0 + bulk_texts(texts(channels@))),
{
    let ghost head = frame@->Array_0;
    let mut i: usize = 0;
    proof {
        assert(head + bulk_texts(texts(channels@.take(0))) =~= head);
    }
    while i < channels.len()
        invariant
            i <= channels.len(),
            head == old(frame)@->Array_0,
            frame@ == FrameView::Array(head + bulk_texts(texts(channels@.take(i as int)))),
        decreases channels.len() - i,
    {
        let _ = frame.push_bulk(bulk_of(channels[i].as_str()));
        proof {
            assert((head + bulk_texts(texts(channels@.take(i as int)))).push(
                bulk_text(channels@[i as int]@),
            ) =~= head + bulk_texts(texts(channels@.take(i + 1))));
        }
        i = i + 1;
    }
    proof {
        assert(channels@.take(channels.len() as int) =~= channels@);
    }
}

} // verus!
