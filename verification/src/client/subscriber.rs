use crate::client::cli::Client;
use crate::cmd::{bulk_of, texts};
use crate::connection::frame::{lemma_array_view, Frame, FrameView};
use crate::error::MiniRedisConnectionError;
use crate::trusted::buf::contents;
use bytes::Bytes;
use vstd::prelude::*;
use vstd::utf8::encode_utf8;

verus! {

/// A client that has entered pub/sub mode.
///
/// Once clients subscribe to a channel, they may only perform pub/sub related
/// commands. The `Client` type is transitioned to a `Subscriber` type in order
/// to prevent non-pub/sub methods from being called.
pub struct Subscriber {
    /// The subscribed client.
    pub client: Client,
    /// The set of channels to which the `Subscriber` is currently subscribed.
    pub subscribed_channels: Vec<String>,
}

/// A message received on a subscribed channel.
#[derive(Debug, Clone)]
pub struct Message {
    pub channel: String,
    pub content: Bytes,
}

/// The names among `channels` that `frame` does not hold, in order.
pub open spec fn retained(channels: Seq<Seq<char>>, frame: FrameView) -> Seq<Seq<char>>
    decreases channels.len(),
{
    if channels.len() == 0 {
        Seq::empty()
    } else if frame.is_text(channels.last()) {
        retained(channels.drop_last(), frame)
    } else {
        retained(channels.drop_last(), frame).push(channels.last())
    }
}

/// Whether `response` is the confirmation that a channel was left.
pub open spec fn confirms_leave(response: FrameView) -> bool {
    response matches FrameView::Array(parts) && parts.len() >= 2 && parts[0].is_text(
        "unsubscribe"@,
    )
}

/// Whether `frame` carries a message that was published.
pub open spec fn carries_message(frame: FrameView) -> bool {
    frame matches FrameView::Array(parts) && parts.len() == 3 && parts[0].is_text("message"@)
}

impl Subscriber {
    /// Takes note that the server has confirmed the subscription to
    /// `channels`.
    pub fn subscribe(&mut self, channels: &[String])
        ensures
            final(self).client.connection@ == old(self).client.connection@,
            texts(final(self).subscribed_channels@) == texts(old(self).subscribed_channels@)
                + texts(channels@),
    {
        let mut i: usize = 0;
        proof {
            assert(texts(self.subscribed_channels@) + texts(channels@.take(0)) =~= texts(
                self.subscribed_channels@,
            ));
        }
        while i < channels.len()
            invariant
                i <= channels.len(),
                self.client.connection@ == old(self).client.connection@,
                texts(self.subscribed_channels@) == texts(old(self).subscribed_channels@) + texts(
                    channels@.take(i as int),
                ),
            decreases channels.len() - i,
        {
            let ghost before = self.subscribed_channels@;
            let channel = channels[i].clone();
            self.subscribed_channels.push(channel);
            proof {
                assert(texts(before.push(channel)) =~= texts(before).push(channel@));
                assert(texts(channels@.take(i + 1)) =~= texts(channels@.take(i as int)).push(
                    channels@[i as int]@,
                ));
                assert(texts(self.subscribed_channels@) =~= texts(old(self).subscribed_channels@)
                    + texts(channels@.take(i + 1)));
            }
            i = i + 1;
        }
        proof {
            assert(channels@.take(channels.len() as int) =~= channels@);
        }
    }

    /// Returns the set of channels currently subscribed to.
    pub fn get_subscribed(&self) -> (channels: &[String])
        ensures
            channels@ == self.subscribed_channels@,
    {
        self.subscribed_channels.as_slice()
    }

    /// What a frame that arrived on a subscribed connection holds: a message
    /// published on a subscribed channel, or nothing where the stream has
    /// ended.
    ///
    /// `None` indicates the subscription has been terminated.
    pub fn next_message(frame: Option<Frame>) -> (r: Result<
        Option<Message>,
        MiniRedisConnectionError,
    >)
        ensures
            match frame {
                None => r matches Ok(None),
                Some(frame) => match frame@ {
                    FrameView::Array(parts) => if carries_message(frame@) {
                        r matches Ok(Some(message)) && message.channel@ == parts[1].display()
                            && contents(message.content) == encode_utf8(parts[2].display())
                    } else {
                        r matches Err(MiniRedisConnectionError::InvalidFrameType)
                    },
                    _ => r is Err && r->Err_0.is_command_execute(frame@.display()),
                },
            },
    {
        match frame {
            Some(frame) => {
                match frame {
                    Frame::Array(parts) => {
                        proof {
                            lemma_array_view(parts);
                        }
                        if parts.len() == 3 && parts[0].eq_str("message") {
                            Ok(
                                Some(
                                    Message {
                                        channel: parts[1].to_string(),
                                        content: bulk_of(parts[2].to_string().as_str()),
                                    },
                                ),
                            )
                        } else {
                            Err(MiniRedisConnectionError::InvalidFrameType)
                        }
                    },
                    frame => Err(MiniRedisConnectionError::CommandExecute(frame.to_string())),
                }
            },
            None => Ok(None),
        }
    }

    /// How many confirmations the server sends for a request to leave
    /// `channels`: one for each, or one for each subscribed channel where
    /// none is named.
    pub fn unsubscribe_count(&self, channels: &[String]) -> (count: usize)
        ensures
            count == if channels@.len() == 0 {
                self.subscribed_channels@.len()
            } else {
                channels@.len()
            },
    {
        // if the input channel list is empty, server acknowledges as unsubscribing
        // from all subscribed channels, so we assert that the unsubscribe list received
        // matches the client subscribed one
        if channels.len() == 0 {
            self.subscribed_channels.len()
        } else {
            channels.len()
        }
    }

    /// Takes note of one answer to a request to leave channels: the channel
    /// that the answer names is no longer subscribed.
    ///
    /// The answer has to confirm the leaving of exactly one channel that is
    /// subscribed.
    pub fn unsubscribe(&mut self, response: Frame) -> (r: Result<(), MiniRedisConnectionError>)
        ensures
            final(self).client.connection@ == old(self).client.connection@,
            match response@ {
                FrameView::Array(parts) => if !confirms_leave(response@) {
                    &&& r matches Err(MiniRedisConnectionError::InvalidFrameType)
                    &&& final(self).subscribed_channels@ == old(self).subscribed_channels@
                } else if old(self).subscribed_channels@.len() == 0 {
                    &&& r is Err
                    &&& r->Err_0.is_invalid_argument(response@.display())
                    &&& final(self).subscribed_channels@ == old(self).subscribed_channels@
                } else {
                    &&& texts(final(self).subscribed_channels@) == retained(
                        texts(old(self).subscribed_channels@),
                        parts[1],
                    )
                    &&& if final(self).subscribed_channels@.len() + 1 == old(self).subscribed_channels@.len() {
                        r is Ok
                    } else {
                        r is Err && r->Err_0.is_command_execute(response@.display())
                    }
                },
                _ => {
                    &&& r is Err
                    &&& r->Err_0.is_command_execute(response@.display())
                    &&& final(self).subscribed_channels@ == old(self).subscribed_channels@
                },
            },
    {
        match &response {
            Frame::Array(parts) => {
                proof {
                    lemma_array_view(*parts);
                }
                if parts.len() >= 2 && parts[0].eq_str("unsubscribe") {
                    let len = self.subscribed_channels.len();

                    if len == 0 {
                        // There must be at least one channel
                        return Err(
                            MiniRedisConnectionError::InvalidArgument(response.to_string()),
                        );
                    }
                    // unsubscribed channel should exist in the subscribed list at this point
                    self.retain(&parts[1]);

                    // Only a single channel should be removed from the
                    // list of subscribed channels.
                    if self.subscribed_channels.len() != len - 1 {
                        return Err(MiniRedisConnectionError::CommandExecute(response.to_string()));
                    }
                    Ok(())
                } else {
                    Err(MiniRedisConnectionError::InvalidFrameType)
                }
            },
            frame => Err(MiniRedisConnectionError::CommandExecute(frame.to_string())),
        }
    }

    /// Keeps the subscribed channels whose name `channel` does not hold.
    fn retain(&mut self, channel: &Frame)
        ensures
            final(self).client.connection@ == old(self).client.connection@,
            texts(final(self).subscribed_channels@) == retained(
                texts(old(self).subscribed_channels@),
                channel@,
            ),
    {
        let mut kept: Vec<String> = Vec::new();
        let mut all: Vec<String> = Vec::new();
        std::mem::swap(&mut all, &mut self.subscribed_channels);
        let ghost names = texts(all@);
        let mut i: usize = 0;
        proof {
            assert(names.take(0) =~= Seq::<Seq<char>>::empty());
            assert(texts(kept@) =~= Seq::<Seq<char>>::empty());
        }
        while i < all.len()
            invariant
                i <= all.len(),
                names == texts(all@),
                texts(kept@) == retained(names.take(i as int), channel@),
            decreases all.len() - i,
        {
            proof {
                assert(names.take(i + 1).drop_last() =~= names.take(i as int));
                assert(names.take(i + 1).last() == all@[i as int]@);
            }
            if !channel.eq_str(all[i].as_str()) {
                let ghost before = kept@;
                let name = all[i].clone();
                kept.push(name);
                proof {
                    assert(texts(before.push(name)) =~= texts(before).push(name@));
                }
            }
            i = i + 1;
        }
        proof {
            assert(names.take(all.len() as int) =~= names);
        }
        self.subscribed_channels = kept;
    }
}

} // verus!
