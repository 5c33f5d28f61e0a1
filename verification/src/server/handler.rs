//! What a connection answers to what it receives.

use crate::cmd::subscribe::Subscribe;
use crate::cmd::unknown::Unknown;
use crate::cmd::unsubscribe::Unsubscribe;
use crate::cmd::{bulk_of, bulk_text, command_of, texts, Command, CommandView};
use crate::cmd::get::Get;
use crate::cmd::ping::Ping;
use crate::cmd::set::{deadline_spec, instant_after_spec, SetKey, NANOS_PER_MILLI};
use crate::connection::frame::{views, Frame, FrameView};
use crate::error::MiniRedisConnectionError;
use crate::server::shutdown::Shutdown;
use crate::storage::invariants::{lemma_get_after_expiry, lemma_get_before_expiry};
use crate::storage::store::{kept, Store, StoreView};
use crate::text::str_eq;
use crate::trusted::broadcast::hears;
use crate::trusted::buf::contents;
use bytes::Bytes;
use tokio::sync::broadcast::{Receiver, Sender};
use vstd::prelude::*;

verus! {

/// A channel that the connection has joined, with the receiver of what is
/// published on it.
pub struct Subscription {
    pub channel: String,
    pub receiver: Receiver<Bytes>,
}

/// What a connection does in answer to a frame.
pub struct Reaction {
    /// The frames to send to the peer, in order.
    pub responses: Vec<Frame>,
    /// The channels to listen on from now on. A channel that is listened on
    /// already is listened on with the new receiver.
    pub joined: Vec<Subscription>,
    /// The channels to listen on no longer.
    pub left: Vec<String>,
    /// Whether the task that purges expired keys has to be woken.
    pub notify: bool,
}

/// What the loop that serves a connection was waiting for.
pub enum Event {
    /// A frame was read from the peer.
    Frame(Frame),
    /// The peer closed the connection, with no frame half sent.
    Closed,
    /// The shutdown signal came.
    Shutdown,
}

/// What a subscription's receiver gave.
#[derive(Debug, Clone, Copy, PartialEq, Eq, Structural)]
pub enum Received {
    /// A message that was published on the channel.
    Message,
    /// The notice that this many messages were lost: the subscriber was too
    /// slow for the channel's buffer.
    Lagged(u64),
    /// The channel has closed.
    Closed,
}

/// Per-connection state: the channels that the connection is subscribed to,
/// and whether the server is shutting down.
///
/// A connection with no subscription takes any command. A connection with
/// subscriptions takes `SUBSCRIBE` and `UNSUBSCRIBE` only, until it has left
/// its last channel.
pub struct Handler {
    /// The channels subscribed to, in the order in which they were joined.
    subscriptions: Vec<String>,
    /// Listen for shutdown notifications.
    shutdown: Shutdown,
}

/// The names of the channels of `joined`, in order.
pub open spec fn joined_names(joined: Seq<Subscription>) -> Seq<Seq<char>> {
    Seq::new(joined.len(), |i: int| joined[i].channel@)
}

/// The receiver of each subscription hangs on the sender that the store
/// holds for the subscription's channel.
pub open spec fn listens(joined: Seq<Subscription>, senders: Map<Seq<char>, Sender<Bytes>>) -> bool {
    forall|i: int|
        0 <= i < joined.len() ==> senders.contains_key((#[trigger] joined[i]).channel@) && hears(
            joined[i].receiver,
            senders[joined[i].channel@],
        )
}

/// The frame that confirms a subscription: `subscribe`, the channel, and the
/// number of channels that the connection is subscribed to.
pub open spec fn subscribe_frame(channel: Seq<char>, count: nat) -> FrameView {
    FrameView::Array(
        seq![bulk_text("subscribe"@), bulk_text(channel), FrameView::Integer(count as u64)],
    )
}

/// The frame that confirms the leaving of a channel: `unsubscribe`, the
/// channel, and the number of channels that the connection is still
/// subscribed to.
pub open spec fn unsubscribe_frame(channel: Seq<char>, count: nat) -> FrameView {
    FrameView::Array(
        seq![bulk_text("unsubscribe"@), bulk_text(channel), FrameView::Integer(count as u64)],
    )
}

/// The frame that carries a published message to a subscriber: `message`,
/// the channel, and the payload.
pub open spec fn message_frame(channel: Seq<char>, payload: Seq<u8>) -> FrameView {
    FrameView::Array(seq![bulk_text("message"@), bulk_text(channel), FrameView::Bulk(payload)])
}

/// The subscriptions after `channel` is joined: it is added unless it is
/// there already.
pub open spec fn with_channel(subscriptions: Seq<Seq<char>>, channel: Seq<char>) -> Seq<Seq<char>> {
    if subscriptions.contains(channel) {
        subscriptions
    } else {
        subscriptions.push(channel)
    }
}

/// The subscriptions after `channel` is left.
pub open spec fn without_channel(subscriptions: Seq<Seq<char>>, channel: Seq<char>) -> Seq<
    Seq<char>,
>
    decreases subscriptions.len(),
{
    if subscriptions.len() == 0 {
        Seq::empty()
    } else if subscriptions.last() == channel {
        without_channel(subscriptions.drop_last(), channel)
    } else {
        without_channel(subscriptions.drop_last(), channel).push(subscriptions.last())
    }
}

/// The subscriptions after `channels` are joined one after the other.
pub open spec fn join_all(subscriptions: Seq<Seq<char>>, channels: Seq<Seq<char>>) -> Seq<
    Seq<char>,
>
    decreases channels.len(),
{
    if channels.len() == 0 {
        subscriptions
    } else {
        with_channel(join_all(subscriptions, channels.drop_last()), channels.last())
    }
}

/// The confirmations for joining `channels` one after the other.
pub open spec fn join_frames(subscriptions: Seq<Seq<char>>, channels: Seq<Seq<char>>) -> Seq<
    FrameView,
>
    decreases channels.len(),
{
    if channels.len() == 0 {
        Seq::empty()
    } else {
        join_frames(subscriptions, channels.drop_last()).push(
            subscribe_frame(channels.last(), join_all(subscriptions, channels).len()),
        )
    }
}

/// The subscriptions after `channels` are left one after the other.
pub open spec fn leave_all(subscriptions: Seq<Seq<char>>, channels: Seq<Seq<char>>) -> Seq<
    Seq<char>,
>
    decreases channels.len(),
{
    if channels.len() == 0 {
        subscriptions
    } else {
        without_channel(leave_all(subscriptions, channels.drop_last()), channels.last())
    }
}

/// The confirmations for leaving `channels` one after the other.
pub open spec fn leave_frames(subscriptions: Seq<Seq<char>>, channels: Seq<Seq<char>>) -> Seq<
    FrameView,
>
    decreases channels.len(),
{
    if channels.len() == 0 {
        Seq::empty()
    } else {
        leave_frames(subscriptions, channels.drop_last()).push(
            unsubscribe_frame(channels.last(), leave_all(subscriptions, channels).len()),
        )
    }
}

/// The store after subscriptions to `channels`.
pub open spec fn subscribe_all(store: StoreView, channels: Seq<Seq<char>>) -> StoreView
    decreases channels.len(),
{
    if channels.len() == 0 {
        store
    } else {
        subscribe_all(store, channels.drop_last()).subscribe(channels.last())
    }
}

/// The channels that a request to leave means: those that it names, or all
/// that are subscribed where it names none.
pub open spec fn leaving(subscriptions: Seq<Seq<char>>, channels: Seq<Seq<char>>) -> Seq<Seq<char>> {
    if channels.len() == 0 {
        subscriptions
    } else {
        channels
    }
}

/// What a handler holds, as mathematical values.
pub struct HandlerView {
    /// The names of the channels subscribed to, in the order in which they
    /// were joined.
    pub subscriptions: Seq<Seq<char>>,
    /// Whether the shutdown signal was seen.
    pub shutdown: bool,
}

impl View for Handler {
    type V = HandlerView;

    closed spec fn view(&self) -> HandlerView {
        HandlerView { subscriptions: texts(self.subscriptions@), shutdown: self.shutdown@ }
    }
}

impl Handler {

    /// A handler for a fresh connection: no subscription, no shutdown seen.
    pub fn new() -> (handler: Handler)
        ensures
            handler@ == (HandlerView { subscriptions: Seq::empty(), shutdown: false }),
    {
        let handler = Handler { subscriptions: Vec::new(), shutdown: Shutdown::new() };
        proof {
            assert(handler@.subscriptions =~= Seq::<Seq<char>>::empty());
        }
        handler
    }

    /// Whether the connection is in the subscribed state, in which it takes
    /// pub/sub commands only.
    pub fn is_subscribed(&self) -> (subscribed: bool)
        ensures
            subscribed == (self@.subscriptions.len() > 0),
    {
        self.subscriptions.len() > 0
    }

    /// The channels subscribed to.
    pub fn subscriptions(&self) -> (channels: &Vec<String>)
        ensures
            texts(channels@) == self@.subscriptions,
    {
        &self.subscriptions
    }

    /// Whether the connection has to go on: it has, until the shutdown
    /// signal is seen.
    pub fn is_running(&self) -> (running: bool)
        ensures
            running == !self@.shutdown,
    {
        !self.shutdown.is_shutdown()
    }

    /// Takes note of the shutdown signal. The connection ends at this, its
    /// next safe point.
    pub fn shutdown(&mut self)
        ensures
            final(self)@ == (HandlerView { shutdown: true, ..old(self)@ }),
    {
        self.shutdown.recv();
    }

    /// The frame that carries a message published on `channel` to the peer.
    pub fn message(channel: &str, payload: Bytes) -> (frame: Frame)
        ensures
            frame@ == message_frame(channel@, contents(payload)),
    {
        let mut frame = Frame::array();
        let _ = frame.push_bulk(bulk_of("message"));
        let _ = frame.push_bulk(bulk_of(channel));
        let _ = frame.push_bulk(payload);
        proof {
            assert(frame@->Array_0 =~= seq![
                bulk_text("message"@),
                bulk_text(channel@),
                FrameView::Bulk(contents(payload)),
            ]);
        }
        frame
    }

    /// Whether `channel` is subscribed to.
    fn holds(&self, channel: &str) -> (held: bool)
        ensures
            held == self@.subscriptions.contains(channel@),
    {
        let mut i: usize = 0;
        while i < self.subscriptions.len()
            invariant
                i <= self.subscriptions.len(),
                forall|j: int| 0 <= j < i ==> self@.subscriptions[j] != channel@,
            decreases self.subscriptions.len() - i,
        {
            if str_eq(self.subscriptions[i].as_str(), channel) {
                proof {
                    assert(self@.subscriptions[i as int] == channel@);
                }
                return true;
            }
            i = i + 1;
        }
        false
    }

    /// Joins `channels` one after the other, and confirms each.
    fn join(&mut self, db: &mut Store, channels: Vec<String>, reaction: &mut Reaction)
        requires
            old(db).wf(),
            listens(old(reaction).joined@, old(db).senders()),
        ensures
            final(db).wf(),
            final(db)@ == subscribe_all(old(db)@, texts(channels@)),
            kept(old(db).senders(), final(db).senders()),
            listens(final(reaction).joined@, final(db).senders()),
            final(self)@.subscriptions == join_all(old(self)@.subscriptions, texts(channels@)),
            final(self)@.shutdown == old(self)@.shutdown,
            views(final(reaction).responses@) == views(old(reaction).responses@) + join_frames(
                old(self)@.subscriptions,
                texts(channels@),
            ),
            joined_names(final(reaction).joined@) == joined_names(old(reaction).joined@) + texts(
                channels@,
            ),
            final(reaction).left == old(reaction).left,
            final(reaction).notify == old(reaction).notify,
    {
        let ghost names = texts(channels@);
        let mut i: usize = 0;
        proof {
            assert(names.take(0) =~= Seq::<Seq<char>>::empty());
            assert(views(reaction.responses@) + Seq::<FrameView>::empty() =~= views(
                reaction.responses@,
            ));
            assert(joined_names(reaction.joined@) + Seq::<Seq<char>>::empty() =~= joined_names(
                reaction.joined@,
            ));
        }
        while i < channels.len()
            invariant
                i <= channels.len(),
                names == texts(channels@),
                db.wf(),
                db@ == subscribe_all(old(db)@, names.take(i as int)),
                kept(old(db).senders(), db.senders()),
                listens(reaction.joined@, db.senders()),
                self@.subscriptions == join_all(old(self)@.subscriptions, names.take(i as int)),
                self@.shutdown == old(self)@.shutdown,
                views(reaction.responses@) == views(old(reaction).responses@) + join_frames(
                    old(self)@.subscriptions,
                    names.take(i as int),
                ),
                joined_names(reaction.joined@) == joined_names(old(reaction).joined@) + names.take(
                    i as int,
                ),
                reaction.left == old(reaction).left,
                reaction.notify == old(reaction).notify,
            decreases channels.len() - i,
        {
            let ghost before = self@.subscriptions;
            let ghost sent = reaction.responses@;
            let ghost listening = reaction.joined@;
            let name = channels[i].clone();
            proof {
                assert(names.take(i + 1).drop_last() =~= names.take(i as int));
                assert(names.take(i + 1).last() == name@);
            }
            let ghost senders = db.senders();
            let receiver = db.subscribe(name.clone());
            if !self.holds(name.as_str()) {
                let ghost held = self.subscriptions@;
                self.subscriptions.push(name.clone());
                proof {
                    assert(texts(held.push(name)) =~= texts(held).push(name@));
                }
            }
            let response = Handler::confirmation("subscribe", name.as_str(), self.subscriptions.len());
            proof {
                crate::connection::frame::lemma_views_push(sent, response);
                assert(views(old(reaction).responses@) + join_frames(
                    old(self)@.subscriptions,
                    names.take(i as int),
                ).push(response@) =~= (views(old(reaction).responses@) + join_frames(
                    old(self)@.subscriptions,
                    names.take(i as int),
                )).push(response@));
            }
            reaction.responses.push(response);
            let subscription = Subscription { channel: name, receiver };
            proof {
                assert forall|j: int| 0 <= j < listening.push(subscription).len() implies db.senders().contains_key(
                    (#[trigger] listening.push(subscription)[j]).channel@,
                ) && hears(
                    listening.push(subscription)[j].receiver,
                    db.senders()[listening.push(subscription)[j].channel@],
                ) by {
                    if j < listening.len() {
                        assert(listening.push(subscription)[j] == listening[j]);
                        assert(senders.contains_key(listening[j].channel@));
                    }
                }
                assert(joined_names(listening.push(subscription)) =~= joined_names(listening).push(
                    name@,
                ));
                assert(joined_names(old(reaction).joined@) + names.take(i + 1) =~= (joined_names(
                    old(reaction).joined@,
                ) + names.take(i as int)).push(name@));
            }
            reaction.joined.push(subscription);
            i = i + 1;
        }
        proof {
            assert(names.take(channels.len() as int) =~= names);
        }
    }

    /// The frame that confirms `what` for `channel`, with the number of
    /// channels that the connection is subscribed to.
    fn confirmation(what: &str, channel: &str, count: usize) -> (frame: Frame)
        ensures
            frame@ == FrameView::Array(
                seq![bulk_text(what@), bulk_text(channel@), FrameView::Integer(count as u64)],
            ),
    {
        let mut frame = Frame::array();
        let _ = frame.push_bulk(bulk_of(what));
        let _ = frame.push_bulk(bulk_of(channel));
        let _ = frame.push_int(count as u64);
        proof {
            assert(frame@->Array_0 =~= seq![
                bulk_text(what@),
                bulk_text(channel@),
                FrameView::Integer(count as u64),
            ]);
        }
        frame
    }

    /// Takes `channel` off the subscriptions.
    fn drop_channel(&mut self, channel: &str)
        ensures
            final(self)@.subscriptions == without_channel(old(self)@.subscriptions, channel@),
            final(self)@.shutdown == old(self)@.shutdown,
    {
        let mut kept: Vec<String> = Vec::new();
        let mut all: Vec<String> = Vec::new();
        std::mem::swap(&mut all, &mut self.subscriptions);
        let ghost names = texts(all@);
        let mut i: usize = 0;
        proof {
            assert(names.take(0) =~= Seq::<Seq<char>>::empty());
            assert(texts(kept@) =~= Seq::<Seq<char>>::empty());
        }
        while i < all.len()
            invariant
                i <= all.len(),
                names == texts(all@),
                texts(kept@) == without_channel(names.take(i as int), channel@),
            decreases all.len() - i,
        {
            proof {
                assert(names.take(i + 1).drop_last() =~= names.take(i as int));
                assert(names.take(i + 1).last() == all@[i as int]@);
            }
            if !str_eq(all[i].as_str(), channel) {
                let ghost before = kept@;
                let name = all[i].clone();
                kept.push(name);
                proof {
                    assert(texts(before.push(name)) =~= texts(before).push(name@));
                }
            }
            i = i + 1;
        }
        proof {
            assert(names.take(all.len() as int) =~= names);
        }
        self.subscriptions = kept;
    }

    /// Leaves `channels` one after the other, and confirms each.
    fn leave(&mut self, channels: Vec<String>, reaction: &mut Reaction)
        ensures
            final(self)@.subscriptions == leave_all(old(self)@.subscriptions, texts(channels@)),
            final(self)@.shutdown == old(self)@.shutdown,
            views(final(reaction).responses@) == views(old(reaction).responses@) + leave_frames(
                old(self)@.subscriptions,
                texts(channels@),
            ),
            texts(final(reaction).left@) == texts(old(reaction).left@) + texts(channels@),
            final(reaction).joined == old(reaction).joined,
            final(reaction).notify == old(reaction).notify,
    {
        let ghost names = texts(channels@);
        let mut i: usize = 0;
        proof {
            assert(names.take(0) =~= Seq::<Seq<char>>::empty());
            assert(views(reaction.responses@) + Seq::<FrameView>::empty() =~= views(
                reaction.responses@,
            ));
            assert(texts(reaction.left@) + Seq::<Seq<char>>::empty() =~= texts(reaction.left@));
        }
        while i < channels.len()
            invariant
                i <= channels.len(),
                names == texts(channels@),
                self@.subscriptions == leave_all(old(self)@.subscriptions, names.take(i as int)),
                self@.shutdown == old(self)@.shutdown,
                views(reaction.responses@) == views(old(reaction).responses@) + leave_frames(
                    old(self)@.subscriptions,
                    names.take(i as int),
                ),
                texts(reaction.left@) == texts(old(reaction).left@) + names.take(i as int),
                reaction.joined == old(reaction).joined,
                reaction.notify == old(reaction).notify,
            decreases channels.len() - i,
        {
            let ghost sent = reaction.responses@;
            let ghost gone = reaction.left@;
            let name = channels[i].clone();
            proof {
                assert(names.take(i + 1).drop_last() =~= names.take(i as int));
                assert(names.take(i + 1).last() == name@);
            }
            self.drop_channel(name.as_str());
            let response = Handler::confirmation(
                "unsubscribe",
                name.as_str(),
                self.subscriptions.len(),
            );
            proof {
                crate::connection::frame::lemma_views_push(sent, response);
                assert(views(old(reaction).responses@) + leave_frames(
                    old(self)@.subscriptions,
                    names.take(i as int),
                ).push(response@) =~= (views(old(reaction).responses@) + leave_frames(
                    old(self)@.subscriptions,
                    names.take(i as int),
                )).push(response@));
                assert(texts(gone.push(name)) =~= texts(gone).push(name@));
                assert(texts(old(reaction).left@) + names.take(i + 1) =~= (texts(
                    old(reaction).left@,
                ) + names.take(i as int)).push(name@));
            }
            reaction.responses.push(response);
            reaction.left.push(name);
            i = i + 1;
        }
        proof {
            assert(names.take(channels.len() as int) =~= names);
        }
    }
}

/// What a reaction holds, as mathematical values.
pub struct ReactionView {
    pub responses: Seq<FrameView>,
    pub joined: Seq<Seq<char>>,
    pub left: Seq<Seq<char>>,
    pub notify: bool,
}

impl View for Reaction {
    type V = ReactionView;

    open spec fn view(&self) -> ReactionView {
        ReactionView {
            responses: views(self.responses@),
            joined: joined_names(self.joined@),
            left: texts(self.left@),
            notify: self.notify,
        }
    }
}

impl Reaction {
    /// The reaction that does nothing.
    pub fn new() -> (reaction: Reaction)
        ensures
            reaction@ == ReactionView::silent(),
            reaction.joined@.len() == 0,
    {
        let reaction = Reaction {
            responses: Vec::new(),
            joined: Vec::new(),
            left: Vec::new(),
            notify: false,
        };
        proof {
            assert(reaction@.responses =~= Seq::<FrameView>::empty());
            assert(reaction@.joined =~= Seq::<Seq<char>>::empty());
            assert(reaction@.left =~= Seq::<Seq<char>>::empty());
        }
        reaction
    }

    /// The reaction that sends `response` and does nothing else.
    pub fn respond(response: Frame) -> (reaction: Reaction)
        ensures
            reaction@ == ReactionView::answer(response@),
            reaction.joined@.len() == 0,
    {
        let mut reaction = Reaction::new();
        proof {
            crate::connection::frame::lemma_views_push(reaction.responses@, response);
        }
        reaction.responses.push(response);
        proof {
            assert(reaction@.responses =~= seq![response@]);
        }
        reaction
    }
}

impl ReactionView {
    /// The reaction that does nothing.
    pub open spec fn silent() -> ReactionView {
        ReactionView {
            responses: Seq::empty(),
            joined: Seq::empty(),
            left: Seq::empty(),
            notify: false,
        }
    }

    /// The reaction that sends `response` and does nothing else.
    pub open spec fn answer(response: FrameView) -> ReactionView {
        ReactionView { responses: seq![response], ..ReactionView::silent() }
    }
}

/// What a command is answered with where any command is taken, and what it
/// does to the store and to the connection's subscriptions.
///
/// `UNSUBSCRIBE` is no command here, and neither is a `SET` that the store
/// has no id for: these end the connection.
pub open spec fn answers(
    command: CommandView,
    store: StoreView,
    now: u64,
    before: Seq<Seq<char>>,
    subscriptions: Seq<Seq<char>>,
    after: StoreView,
    reaction: ReactionView,
) -> bool {
    match command {
        CommandView::Ping { msg } => {
            &&& after == store
            &&& subscriptions == before
            &&& reaction == ReactionView::answer(Ping::response_spec(msg))
        },
        CommandView::Get { key } => {
            &&& after == store
            &&& subscriptions == before
            &&& reaction == ReactionView::answer(Get::response_spec(store.get(key)))
        },
        CommandView::SetKey { key, value, expire } => {
            &&& after == store.set(key, value, deadline_spec(now, expire))
            &&& subscriptions == before
            &&& reaction == (ReactionView {
                notify: store.wakes_purge(deadline_spec(now, expire)),
                ..ReactionView::answer(FrameView::Simple("OK"@))
            })
        },
        CommandView::Publish { channel, message } => {
            &&& after == store
            &&& subscriptions == before
            &&& reaction.responses.len() == 1
            &&& reaction.responses[0] is Integer
            &&& !store.channels.contains(channel) ==> reaction.responses[0] == FrameView::Integer(0)
            &&& reaction == (ReactionView {
                responses: reaction.responses,
                ..ReactionView::silent()
            })
        },
        CommandView::Subscribe { channels } => {
            &&& after == subscribe_all(store, channels)
            &&& subscriptions == join_all(before, channels)
            &&& reaction == (ReactionView {
                responses: join_frames(before, channels),
                joined: channels,
                ..ReactionView::silent()
            })
        },
        CommandView::Unknown { name } => {
            &&& after == store
            &&& subscriptions == before
            &&& reaction == ReactionView::answer(Unknown::response_spec(name))
        },
        CommandView::Unsubscribe { .. } => false,
    }
}

/// What a command is answered with on a connection that has subscriptions.
/// Only joining and leaving channels is honoured; anything else is answered
/// with an error frame.
pub open spec fn answers_subscribed(
    command: CommandView,
    store: StoreView,
    before: Seq<Seq<char>>,
    subscriptions: Seq<Seq<char>>,
    after: StoreView,
    reaction: ReactionView,
) -> bool {
    match command {
        CommandView::Subscribe { channels } => {
            &&& after == subscribe_all(store, channels)
            &&& subscriptions == join_all(before, channels)
            &&& reaction == (ReactionView {
                responses: join_frames(before, channels),
                joined: channels,
                ..ReactionView::silent()
            })
        },
        CommandView::Unsubscribe { channels } => {
            &&& after == store
            &&& subscriptions == leave_all(before, leaving(before, channels))
            &&& reaction == (ReactionView {
                responses: leave_frames(before, leaving(before, channels)),
                left: leaving(before, channels),
                ..ReactionView::silent()
            })
        },
        _ => {
            &&& after == store
            &&& subscriptions == before
            &&& reaction == ReactionView::answer(
                Unknown::response_spec(Command::name_spec(command)),
            )
        },
    }
}

/// Whether a command can be carried out where any command is taken, on a
/// store with `next_id` as its next id.
pub open spec fn acceptable(command: CommandView, next_id: u64) -> bool {
    match command {
        CommandView::Unsubscribe { .. } => false,
        CommandView::SetKey { .. } => SetKey::applicable(next_id),
        _ => true,
    }
}

/// The outcome of applying a frame's command: the reaction, or why the
/// connection ends. `before` and `after` are the handler and the store before
/// and after.
pub open spec fn applies(
    frame: FrameView,
    before: HandlerView,
    store: StoreView,
    now: u64,
    after: HandlerView,
    after_store: StoreView,
    r: Result<Reaction, MiniRedisConnectionError>,
) -> bool {
    &&& after.shutdown == before.shutdown
    &&& match command_of(frame) {
        Err(kind) => r is Err && r->Err_0.is_parse(kind) && after_store == store && after
            == before,
        Ok(command) => if before.subscriptions.len() > 0 {
            r is Ok && answers_subscribed(
                command,
                store,
                before.subscriptions,
                after.subscriptions,
                after_store,
                r->Ok_0@,
            )
        } else if acceptable(command, store.next_id) {
            r is Ok && answers(
                command,
                store,
                now,
                before.subscriptions,
                after.subscriptions,
                after_store,
                r->Ok_0@,
            )
        } else {
            r is Err && r->Err_0 is CommandExecute && after_store == store && after == before
        },
    }
}

impl Command {
    /// Apply the command to the store, on the connection that `handler`
    /// stands for, at the instant `now`.
    ///
    /// The answer is in the reaction that comes back. `UNSUBSCRIBE` cannot
    /// be applied: it may only be received by a connection that has
    /// subscriptions, which handles it itself.
    pub fn apply(self, db: &mut Store, handler: &mut Handler, now: u64) -> (r: Result<
        Reaction,
        MiniRedisConnectionError,
    >)
        requires
            old(db).wf(),
        ensures
            final(db).wf(),
            kept(old(db).senders(), final(db).senders()),
            final(handler)@.shutdown == old(handler)@.shutdown,
            acceptable(self@, old(db)@.next_id) ==> r is Ok && answers(
                self@,
                old(db)@,
                now,
                old(handler)@.subscriptions,
                final(handler)@.subscriptions,
                final(db)@,
                r->Ok_0@,
            ) && listens(r->Ok_0.joined@, final(db).senders()),
            !acceptable(self@, old(db)@.next_id) ==> r is Err && r->Err_0 is CommandExecute
                && final(db)@ == old(db)@ && final(handler)@ == old(handler)@,
    {
        proof {
            self.lemma_kind();
        }
        match self {
            Command::Ping(cmd) => Ok(Reaction::respond(cmd.apply())),
            Command::Get(cmd) => Ok(Reaction::respond(cmd.apply(db))),
            Command::SetKey(cmd) => {
                if !cmd.can_apply(db) {
                    return Err(
                        MiniRedisConnectionError::CommandExecute(
                            "`Set` cannot be carried out: the store has run out of ids".to_string(),
                        ),
                    );
                }
                let (response, notify) = cmd.apply(db, now);
                let mut reaction = Reaction::respond(response);
                reaction.notify = notify;
                Ok(reaction)
            },
            Command::Publish(cmd) => {
                let response = cmd.apply(db);
                let reaction = Reaction::respond(response);
                Ok(reaction)
            },
            Command::Subscribe(cmd) => {
                let mut reaction = Reaction::new();
                let channels = cmd.into_channels();
                handler.join(db, channels, &mut reaction);
                proof {
                    let names = texts(channels@);
                    assert(Seq::<FrameView>::empty() + join_frames(
                        old(handler)@.subscriptions,
                        names,
                    ) =~= join_frames(old(handler)@.subscriptions, names));
                    assert(Seq::<Seq<char>>::empty() + names =~= names);
                }
                Ok(reaction)
            },
            // `Unsubscribe` cannot be applied. It may only be received from the
            // context of a `Subscribe` command.
            Command::Unsubscribe(_) => Err(
                MiniRedisConnectionError::CommandExecute(
                    "`Unsubscribe` is unsupported in this context".to_string(),
                ),
            ),
            Command::Unknown(cmd) => Ok(Reaction::respond(cmd.apply())),
        }
    }
}

impl Handler {
    /// A copy of the names of the channels subscribed to.
    fn all_channels(&self) -> (channels: Vec<String>)
        ensures
            texts(channels@) == self@.subscriptions,
    {
        let mut channels: Vec<String> = Vec::new();
        let mut i: usize = 0;
        while i < self.subscriptions.len()
            invariant
                i <= self.subscriptions.len(),
                texts(channels@) == self@.subscriptions.take(i as int),
            decreases self.subscriptions.len() - i,
        {
            let ghost before = channels@;
            let name = self.subscriptions[i].clone();
            channels.push(name);
            proof {
                assert(name@ == self@.subscriptions[i as int]);
                assert(texts(before.push(name)) =~= texts(before).push(name@));
                assert(self@.subscriptions.take(i + 1) =~= self@.subscriptions.take(i as int).push(self@.subscriptions[i as int]));
            }
            i = i + 1;
        }
        proof {
            assert(self@.subscriptions.take(self.subscriptions.len() as int) =~= self@.subscriptions);
        }
        channels
    }

    /// Carries out a command on a connection that has subscriptions.
    fn apply_subscribed(&mut self, db: &mut Store, command: Command) -> (reaction: Reaction)
        requires
            old(db).wf(),
        ensures
            final(db).wf(),
            kept(old(db).senders(), final(db).senders()),
            listens(reaction.joined@, final(db).senders()),
            final(self)@.shutdown == old(self)@.shutdown,
            answers_subscribed(
                command@,
                old(db)@,
                old(self)@.subscriptions,
                final(self)@.subscriptions,
                final(db)@,
                reaction@,
            ),
    {
        proof {
            command.lemma_kind();
        }
        match command {
            Command::Subscribe(cmd) => {
                let mut reaction = Reaction::new();
                let channels = cmd.into_channels();
                self.join(db, channels, &mut reaction);
                proof {
                    let names = texts(channels@);
                    assert(Seq::<FrameView>::empty() + join_frames(old(self)@.subscriptions, names)
                        =~= join_frames(old(self)@.subscriptions, names));
                    assert(Seq::<Seq<char>>::empty() + names =~= names);
                }
                reaction
            },
            Command::Unsubscribe(cmd) => {
                let mut reaction = Reaction::new();
                let mut channels = cmd.into_channels();
                // If no channels are specified, this requests unsubscribing
                // from **all** channels.
                if channels.len() == 0 {
                    channels = self.all_channels();
                }
                self.leave(channels, &mut reaction);
                proof {
                    let names = texts(channels@);
                    assert(Seq::<FrameView>::empty() + leave_frames(old(self)@.subscriptions, names)
                        =~= leave_frames(old(self)@.subscriptions, names));
                    assert(Seq::<Seq<char>>::empty() + names =~= names);
                }
                reaction
            },
            command => {
                let name = command.get_name();
                let unknown = Unknown::new(name);
                Reaction::respond(unknown.apply())
            },
        }
    }

    /// Carries out what `frame` asks for, on the store and on this
    /// connection, and says what to answer.
    ///
    /// A frame that is no command, and a command that cannot be carried out,
    /// end the connection: they give an error and change nothing.
    pub fn apply(&mut self, db: &mut Store, frame: Frame, now: u64) -> (r: Result<
        Reaction,
        MiniRedisConnectionError,
    >)
        requires
            old(db).wf(),
        ensures
            final(db).wf(),
            kept(old(db).senders(), final(db).senders()),
            r matches Ok(reaction) ==> listens(reaction.joined@, final(db).senders()),
            applies(frame@, old(self)@, old(db)@, now, final(self)@, final(db)@, r),
    {
        // Convert the redis frame into a command struct. This returns an
        // error if the frame is not a valid redis command or it is an
        // unsupported command.
        let command = match Command::from_frame(frame) {
            Ok(command) => command,
            Err(e) => {
                return Err(MiniRedisConnectionError::ParseFrame(e));
            },
        };
        // Perform the work needed to apply the command. This may mutate the
        // database state as a result.
        if self.is_subscribed() {
            Ok(self.apply_subscribed(db, command))
        } else {
            command.apply(db, self, now)
        }
    }

    /// One turn of the loop that serves the connection: deals with what the
    /// connection was waiting for.
    ///
    /// A frame is applied, and the loop goes on with the reaction. When the
    /// peer has closed the connection in good order, and when the shutdown
    /// signal has come, there is no further work to do: the loop returns,
    /// with no error. The shutdown signal ends the wait for the next frame;
    /// a frame that was read is applied in full.
    pub fn run(&mut self, db: &mut Store, event: Event, now: u64) -> (r: Result<
        Option<Reaction>,
        MiniRedisConnectionError,
    >)
        requires
            old(db).wf(),
        ensures
            final(db).wf(),
            kept(old(db).senders(), final(db).senders()),
            match event {
                Event::Frame(frame) => match r {
                    Ok(Some(reaction)) => listens(reaction.joined@, final(db).senders())
                        && applies(
                        frame@,
                        old(self)@,
                        old(db)@,
                        now,
                        final(self)@,
                        final(db)@,
                        Ok(reaction),
                    ),
                    Ok(None) => false,
                    Err(e) => applies(
                        frame@,
                        old(self)@,
                        old(db)@,
                        now,
                        final(self)@,
                        final(db)@,
                        Err(e),
                    ),
                },
                Event::Closed => r matches Ok(None) && final(self)@ == old(self)@ && final(db)@
                    == old(db)@,
                Event::Shutdown => r matches Ok(None) && final(self)@ == (HandlerView {
                    shutdown: true,
                    ..old(self)@
                }) && final(db)@ == old(db)@,
            },
    {
        match event {
            Event::Frame(frame) => match self.apply(db, frame, now) {
                Ok(reaction) => Ok(Some(reaction)),
                Err(e) => Err(e),
            },
            // The peer closed the socket. There is no further work to do and
            // the task can be terminated.
            Event::Closed => Ok(None),
            // If a shutdown signal is received, return from `run`. This will
            // result in the task terminating.
            Event::Shutdown => {
                self.shutdown();
                Ok(None)
            },
        }
    }

    /// Whether a subscription goes on after what its receiver gave: it does
    /// after a message, and after the notice that messages were lost to a
    /// slow subscriber, which are skipped; it ends when the channel has
    /// closed.
    pub fn goes_on(outcome: Received) -> (go_on: bool)
        ensures
            go_on == !(outcome is Closed),
    {
        match outcome {
            Received::Message => true,
            Received::Lagged(_) => true,
            Received::Closed => false,
        }
    }
}

/// On one connection a `GET` that follows a `SET` of the same key observes
/// the `SET`: it is answered with the value that was set.
pub proof fn lemma_get_observes_set(
    key: Seq<char>,
    value: Seq<u8>,
    expire: Option<nat>,
    store: StoreView,
    set_at: u64,
    after_set: StoreView,
    set_reaction: ReactionView,
    get_at: u64,
    after_get: StoreView,
    get_reaction: ReactionView,
)
    requires
        answers(
            CommandView::SetKey { key, value, expire },
            store,
            set_at,
            Seq::empty(),
            Seq::empty(),
            after_set,
            set_reaction,
        ),
        answers(
            CommandView::Get { key },
            after_set,
            get_at,
            Seq::empty(),
            Seq::empty(),
            after_get,
            get_reaction,
        ),
    ensures
        set_reaction.responses == seq![FrameView::Simple("OK"@)],
        get_reaction.responses == seq![FrameView::Bulk(value)],
        after_get == after_set,
{
}

/// A value that is set with a time to live is confirmed with `OK`, expires
/// that many milliseconds after the instant of the `SET`, is served by `GET`
/// for as long as no purge has run at or after that instant, and is gone,
/// with the null frame for an answer, once one has.
pub proof fn lemma_set_with_expiry(
    key: Seq<char>,
    value: Seq<u8>,
    millis: nat,
    store: StoreView,
    now: u64,
    before: Seq<Seq<char>>,
    subscriptions: Seq<Seq<char>>,
    after: StoreView,
    reaction: ReactionView,
)
    requires
        !store.shutdown,
        answers(
            CommandView::SetKey { key, value, expire: Some(millis) },
            store,
            now,
            before,
            subscriptions,
            after,
            reaction,
        ),
    ensures
        reaction.responses == seq![FrameView::Simple("OK"@)],
        after.get(key) == Some(value),
        after.entries[key].expires_at == Some(
            instant_after_spec(now, (millis * NANOS_PER_MILLI) as nat),
        ),
        forall|later: u64|
            later < instant_after_spec(now, (millis * NANOS_PER_MILLI) as nat)
                ==> Get::response_spec(#[trigger] after.purge(later).get(key)) == FrameView::Bulk(
                value,
            ),
        forall|later: u64|
            later >= instant_after_spec(now, (millis * NANOS_PER_MILLI) as nat)
                ==> Get::response_spec(#[trigger] after.purge(later).get(key)) == FrameView::Null,
{
    let expiry = instant_after_spec(now, (millis * NANOS_PER_MILLI) as nat);
    assert forall|later: u64| later < expiry implies Get::response_spec(
        #[trigger] after.purge(later).get(key),
    ) == FrameView::Bulk(value) by {
        lemma_get_before_expiry(store, key, value, expiry, later);
    }
    assert forall|later: u64| later >= expiry implies Get::response_spec(
        #[trigger] after.purge(later).get(key),
    ) == FrameView::Null by {
        lemma_get_after_expiry(store, key, value, expiry, later);
    }
}

/// A command that is not known is answered with an error frame and ends
/// nothing: the store and the subscriptions stay as they are, and the
/// connection takes the next command.
pub proof fn lemma_unknown_is_answered(
    name: Seq<char>,
    store: StoreView,
    now: u64,
    before: Seq<Seq<char>>,
    subscriptions: Seq<Seq<char>>,
    after: StoreView,
    reaction: ReactionView,
)
    requires
        answers(CommandView::Unknown { name }, store, now, before, subscriptions, after, reaction),
    ensures
        acceptable(CommandView::Unknown { name }, store.next_id),
        reaction == ReactionView::answer(
            FrameView::Error("err unknown command '"@ + name + "'"@),
        ),
        after == store,
        subscriptions == before,
{
}

/// A frame that was read is applied in the same way whether or not the
/// shutdown signal has been noted: the signal ends the wait for the next
/// frame, never a command.
pub proof fn lemma_shutdown_spares_commands(
    frame: FrameView,
    before: HandlerView,
    store: StoreView,
    now: u64,
    after: HandlerView,
    after_store: StoreView,
    r: Result<Reaction, MiniRedisConnectionError>,
)
    requires
        applies(frame, before, store, now, after, after_store, r),
    ensures
        applies(
            frame,
            HandlerView { shutdown: true, ..before },
            store,
            now,
            HandlerView { shutdown: true, ..after },
            after_store,
            r,
        ),
{
}

} // verus!
