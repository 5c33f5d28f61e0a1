use crate::cmd::{
    bulk_of, bulk_text, option_name, uppercase_name, wire_millis, CommandView,
};
use crate::connection::frame::{Frame, FrameView};
use crate::connection::parse::{after_take, take_bytes, take_int, take_string, Parse};
use crate::error::{fails_with, MiniRedisParseError, ParseErrorKind};
use crate::storage::store::Store;
use crate::text::str_eq;
use crate::trusted::buf::contents;
use bytes::Bytes;
use vstd::prelude::*;

verus! {

/// Set `key` to hold the string `value`.
///
/// If `key` already holds a value, it is overwritten, regardless of its type.
/// Any previous time to live associated with the key is discarded on successful
/// SET operation.
///
/// # Options
///
/// Currently, the following options are supported:
///
/// * EX `seconds` -- Set the specified expire time, in seconds.
/// * PX `milliseconds` -- Set the specified expire time, in milliseconds.
#[derive(Debug)]
pub struct SetKey {
    /// the lookup key
    key: String,
    /// the value to be stored
    value: Bytes,
    /// When to expire the key: the time to live, in milliseconds
    expire: Option<u128>,
}

/// Milliseconds in a second.
pub const MILLIS_PER_SEC: u64 = 1_000;

/// Nanoseconds in a millisecond.
pub const NANOS_PER_MILLI: u64 = 1_000_000;

/// A time to live that may be absent, as a mathematical number of
/// milliseconds.
pub open spec fn option_millis(expire: Option<u128>) -> Option<nat> {
    match expire {
        Some(millis) => Some(millis as nat),
        None => None,
    }
}

/// The instant that lies `span` nanoseconds after `now`. Instants are
/// counted in 64 bits of nanoseconds; an instant beyond their range counts
/// as the last one.
pub open spec fn instant_after_spec(now: u64, span: nat) -> u64 {
    if now + span <= u64::MAX {
        (now + span) as u64
    } else {
        u64::MAX
    }
}

/// The instant at which a value set at `now` expires, if it has a time to
/// live of `expire` milliseconds.
pub open spec fn deadline_spec(now: u64, expire: Option<nat>) -> Option<u64> {
    match expire {
        Some(millis) => Some(instant_after_spec(now, (millis * NANOS_PER_MILLI) as nat)),
        None => None,
    }
}

/// The instant that lies `span` nanoseconds after `now`, or the last instant
/// where that lies beyond it.
pub fn instant_after(now: u64, span: u128) -> (instant: u64)
    ensures
        instant == instant_after_spec(now, span as nat),
{
    if span <= (u64::MAX - now) as u128 {
        now + (span as u64)
    } else {
        u64::MAX
    }
}

/// The instant that lies `expire` milliseconds after `now`, or the last
/// instant where that lies beyond it.
pub fn deadline(now: u64, expire: u128) -> (instant: u64)
    ensures
        Some(instant) == deadline_spec(now, Some(expire as nat)),
{
    if expire <= u64::MAX as u128 {
        instant_after(now, expire * (NANOS_PER_MILLI as u128))
    } else {
        assert(now + expire * NANOS_PER_MILLI > u64::MAX) by (nonlinear_arith)
            requires
                expire > u64::MAX,
                NANOS_PER_MILLI == 1_000_000,
                now >= 0,
        ;
        u64::MAX
    }
}

/// The number of milliseconds that goes on the wire for a time to live of
/// `millis` milliseconds: its low 64 bits.
pub fn millis_on_wire(millis: u128) -> (n: u64)
    ensures
        n == wire_millis(millis as nat),
{
    (millis % 0x1_0000_0000_0000_0000u128) as u64
}

impl View for SetKey {
    type V = CommandView;

    closed spec fn view(&self) -> CommandView {
        CommandView::SetKey {
            key: self.key@,
            value: contents(self.value),
            expire: option_millis(self.expire),
        }
    }
}

impl SetKey {
    /// The view of this command is of its own kind.
    pub proof fn lemma_kind(&self)
        ensures
            self@ is SetKey,
    {
    }

    /// The time to live that the option `option`, which is in upper case,
    /// asks for with the tokens that follow it, and the tokens that are left.
    pub open spec fn option_spec(option: Seq<char>, tokens: Seq<FrameView>) -> Result<
        (Option<nat>, Seq<FrameView>),
        ParseErrorKind,
    > {
        if option == "EX"@ {
            match take_int(tokens) {
                Err(kind) => Err(kind),
                Ok(secs) => Ok((Some((secs * MILLIS_PER_SEC) as nat), after_take(tokens))),
            }
        } else if option == "PX"@ {
            match take_int(tokens) {
                Err(kind) => Err(kind),
                Ok(millis) => Ok((Some(millis as nat), after_take(tokens))),
            }
        } else {
            Err(ParseErrorKind::Parse)
        }
    }

    /// The time to live that the tokens after key and value ask for, and the
    /// tokens that are left.
    pub open spec fn expire_spec(tokens: Seq<FrameView>) -> Result<
        (Option<nat>, Seq<FrameView>),
        ParseErrorKind,
    > {
        if tokens.len() == 0 {
            Ok((None, tokens))
        } else {
            match take_string(tokens) {
                Err(kind) => Err(kind),
                Ok(option) => SetKey::option_spec(option_name(option), after_take(tokens)),
            }
        }
    }

    /// What is made of the tokens that follow the command's name, and the
    /// tokens that are left.
    pub open spec fn parse_spec(tokens: Seq<FrameView>) -> Result<
        (CommandView, Seq<FrameView>),
        ParseErrorKind,
    > {
        match take_string(tokens) {
            Err(kind) => Err(kind),
            Ok(key) => match take_bytes(after_take(tokens)) {
                Err(kind) => Err(kind),
                Ok(value) => match SetKey::expire_spec(after_take(after_take(tokens))) {
                    Err(kind) => Err(kind),
                    Ok((expire, rest)) => Ok((CommandView::SetKey { key, value, expire }, rest)),
                },
            },
        }
    }

    /// Create a new `Set` command which sets `key` to `value`.
    ///
    /// If `expire` is `Some`, the value should expire after the specified
    /// number of milliseconds.
    pub fn new(key: &str, value: Bytes, expire: Option<u128>) -> (set: SetKey)
        ensures
            set@ == (CommandView::SetKey {
                key: key@,
                value: contents(value),
                expire: option_millis(expire),
            }),
    {
        SetKey { key: key.to_string(), value, expire }
    }

    /// Get the key
    pub fn key(&self) -> (key: &str)
        ensures
            self@ matches CommandView::SetKey { key: held, .. } && held == key@,
    {
        self.key.as_str()
    }

    /// Get the value
    pub fn value(&self) -> (value: &Bytes)
        ensures
            self@ matches CommandView::SetKey { value: held, .. } && held == contents(*value),
    {
        &self.value
    }

    /// Get the expire, in milliseconds
    pub fn expire(&self) -> (expire: Option<u128>)
        ensures
            self@ matches CommandView::SetKey { expire: held, .. } && held == option_millis(expire),
    {
        self.expire
    }

    /// Parse a `Set` instance from a received frame.
    ///
    /// The `SET` string has already been consumed.
    pub fn parse_frames(parse: &mut Parse) -> (r: Result<SetKey, MiniRedisParseError>)
        ensures
            match SetKey::parse_spec(old(parse)@) {
                Ok((command, rest)) => r is Ok && r->Ok_0@ == command && final(parse)@ == rest,
                Err(kind) => fails_with(r, kind),
            },
    {
        // Read the key to set. This is a required field
        let key = parse.next_string()?;

        // Read the value to set. This is a required field.
        let value = parse.next_bytes()?;

        // The expiration is optional. If nothing else follows, then it is
        // `None`.
        let mut expire = None;

        // Attempt to parse another string.
        match parse.next_string() {
            Ok(option) => {
                let option = uppercase_name(option.as_str());
                expire = Some(SetKey::parse_option(option.as_str(), parse)?);
            },
            // The `EndOfStream` error indicates there is no further data to
            // parse. In this case, it is a normal run time situation and
            // indicates there are no specified `SET` options.
            Err(MiniRedisParseError::EndOfStream) => {},
            // All other errors are bubbled up, resulting in the connection
            // being terminated.
            Err(e) => {
                return Err(e);
            },
        }

        Ok(SetKey { key, value, expire })
    }

    /// Reads the time to live that the option `option`, which is in upper
    /// case, asks for with the tokens that follow it.
    pub fn parse_option(option: &str, parse: &mut Parse) -> (r: Result<u128, MiniRedisParseError>)
        ensures
            match SetKey::option_spec(option@, old(parse)@) {
                Ok((expire, rest)) => r is Ok && Some(r->Ok_0 as nat) == expire && final(parse)@
                    == rest,
                Err(kind) => fails_with(r, kind),
            },
    {
        if str_eq(option, "EX") {
            // An expiration is specified in seconds. The next value is an
            // integer.
            let secs = parse.next_int()?;
            Ok(secs as u128 * MILLIS_PER_SEC as u128)
        } else if str_eq(option, "PX") {
            // An expiration is specified in milliseconds. The next value is
            // an integer.
            let ms = parse.next_int()?;
            Ok(ms as u128)
        } else {
            // Currently, mini-redis does not support any of the other SET
            // options. An error here results in the connection being
            // terminated. Other connections will continue to operate
            // normally.
            Err(
                MiniRedisParseError::Parse(
                    "currently `SET` only supports the expiration option".to_string(),
                ),
            )
        }
    }

    /// Whether the command can be applied to a store that has `next_id` as
    /// its next id: the store has to have an id to give.
    pub open spec fn applicable(next_id: u64) -> bool {
        next_id < u64::MAX
    }

    /// Whether the command can be applied to `db`.
    pub fn can_apply(&self, db: &Store) -> (can: bool)
        ensures
            can == SetKey::applicable(db@.next_id),
    {
        db.next_id() < u64::MAX
    }

    /// Sets the key in `db`, to expire its time to live after `now`. The
    /// answer is `OK`; with it comes whether the task that purges expired
    /// keys has to be woken.
    pub fn apply(self, db: &mut Store, now: u64) -> (done: (Frame, bool))
        requires
            old(db).wf(),
            SetKey::applicable(old(db)@.next_id),
        ensures
            final(db).wf(),
            final(db).senders() == old(db).senders(),
            done.0@ == FrameView::Simple("OK"@),
            self@ matches CommandView::SetKey { key, value, expire } && final(db)@ == old(db)@.set(
                key,
                value,
                deadline_spec(now, expire),
            ) && done.1 == old(db)@.wakes_purge(deadline_spec(now, expire)),
    {
        let expires_at = match self.expire {
            Some(expire) => Some(deadline(now, expire)),
            None => None,
        };
        // Set the value in the shared database state.
        let notify = db.set(self.key, self.value, expires_at);

        // Create a success response and write it to `dst`.
        (Frame::Simple("OK".to_string()), notify)
    }

    /// Converts the command into an equivalent `Frame`.
    ///
    /// This is called by the client when encoding a `Set` command to send to
    /// the server.
    pub fn into_frame(self) -> (frame: Frame)
        ensures
            frame@ == self@.frame_spec(),
    {
        let mut frame = Frame::array();
        let _ = frame.push_bulk(bulk_of("set"));
        let _ = frame.push_bulk(bulk_of(self.key.as_str()));
        let _ = frame.push_bulk(self.value);
        let ghost head = seq![
            bulk_text("set"@),
            bulk_text(self.key@),
            FrameView::Bulk(contents(self.value)),
        ];
        proof {
            assert(frame@->Array_0 =~= head);
        }
        match self.expire {
            Some(ms) => {
                // Expirations in Redis protocol can be specified in two ways
                // 1. SET key value EX seconds
                // 2. SET key value PX milliseconds
                // The second one is used, because it allows greater precision
                // and the command line takes the expiration in milliseconds.
                let _ = frame.push_bulk(bulk_of("px"));
                let _ = frame.push_int(millis_on_wire(ms));
                proof {
                    assert(frame@->Array_0 =~= head + seq![
                        bulk_text("px"@),
                        FrameView::Integer(wire_millis(ms as nat)),
                    ]);
                }
            },
            None => {
                proof {
                    assert(frame@->Array_0 =~= head + Seq::<FrameView>::empty());
                }
            },
        }
        frame
    }
}

} // verus!
