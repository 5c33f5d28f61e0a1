//! A command that was turned into a frame is read back unchanged.

use crate::cmd::get::Get;
use crate::cmd::ping::Ping;
use crate::cmd::publish::Publish;
use crate::cmd::set::SetKey;
use crate::cmd::subscribe::{channels_of, Subscribe};
use crate::cmd::unsubscribe::Unsubscribe;
use crate::cmd::{
    bulk_text, bulk_texts, command_name, command_of, option_name, wire_millis, CommandView,
};
use crate::connection::frame::FrameView;
use crate::connection::parse::{after_take, token_string};
use crate::error::ParseErrorKind;
use crate::trusted::text::{ascii_lowercase, ascii_uppercase};
use vstd::prelude::*;
use vstd::utf8::{encode_utf8_decode_utf8, encode_utf8_valid_utf8};

verus! {

/// `name` is the name of a command that the server knows.
pub open spec fn known(name: Seq<char>) -> bool {
    ||| name == "get"@
    ||| name == "set"@
    ||| name == "publish"@
    ||| name == "subscribe"@
    ||| name == "unsubscribe"@
    ||| name == "ping"@
}

impl CommandView {
    /// The command can be told from its frame: a subscription names a
    /// channel, a time to live is a number of milliseconds that fits 64 bits,
    /// and an unknown command goes by a name in lower case that is none of the
    /// known ones.
    pub open spec fn well_formed(self) -> bool {
        match self {
            CommandView::SetKey { expire, .. } => expire matches Some(millis) ==> millis
                <= u64::MAX,
            CommandView::Subscribe { channels } => channels.len() > 0,
            CommandView::Unknown { name } => command_name(name) == name && !known(name),
            _ => true,
        }
    }
}

/// A bulk string that carries text is read back as that text.
pub proof fn lemma_bulk_text(text: Seq<char>)
    ensures
        token_string(bulk_text(text)) == Ok::<Seq<char>, ParseErrorKind>(text),
{
    encode_utf8_valid_utf8(text);
    encode_utf8_decode_utf8(text);
}

/// The names of the commands are in lower case already, and no two are the
/// same.
pub proof fn lemma_names()
    ensures
        command_name("get"@) == "get"@,
        command_name("set"@) == "set"@,
        command_name("publish"@) == "publish"@,
        command_name("subscribe"@) == "subscribe"@,
        command_name("unsubscribe"@) == "unsubscribe"@,
        command_name("ping"@) == "ping"@,
        "set"@ != "get"@,
        "publish"@ != "get"@,
        "publish"@ != "set"@,
        "subscribe"@ != "get"@,
        "subscribe"@ != "set"@,
        "subscribe"@ != "publish"@,
        "unsubscribe"@ != "get"@,
        "unsubscribe"@ != "set"@,
        "unsubscribe"@ != "publish"@,
        "unsubscribe"@ != "subscribe"@,
        "ping"@ != "get"@,
        "ping"@ != "set"@,
        "ping"@ != "publish"@,
        "ping"@ != "subscribe"@,
        "ping"@ != "unsubscribe"@,
{
    reveal_strlit("get");
    reveal_strlit("set");
    reveal_strlit("publish");
    reveal_strlit("subscribe");
    reveal_strlit("unsubscribe");
    reveal_strlit("ping");
    assert(ascii_lowercase("get"@) =~= "get"@);
    assert(ascii_lowercase("set"@) =~= "set"@);
    assert(ascii_lowercase("publish"@) =~= "publish"@);
    assert(ascii_lowercase("subscribe"@) =~= "subscribe"@);
    assert(ascii_lowercase("unsubscribe"@) =~= "unsubscribe"@);
    assert(ascii_lowercase("ping"@) =~= "ping"@);
    assert("set"@[0] != "get"@[0]);
    assert("publish"@.len() != "get"@.len());
    assert("publish"@.len() != "set"@.len());
    assert("subscribe"@.len() != "get"@.len());
    assert("subscribe"@.len() != "set"@.len());
    assert("subscribe"@.len() != "publish"@.len());
    assert("unsubscribe"@.len() != "get"@.len());
    assert("unsubscribe"@.len() != "set"@.len());
    assert("unsubscribe"@.len() != "publish"@.len());
    assert("unsubscribe"@.len() != "subscribe"@.len());
    assert("ping"@.len() != "get"@.len());
    assert("ping"@.len() != "set"@.len());
    assert("ping"@.len() != "publish"@.len());
    assert("ping"@.len() != "subscribe"@.len());
    assert("ping"@.len() != "unsubscribe"@.len());
}

/// The option that the client sends for a time to live reads as `PX`, and
/// not as `EX`.
pub proof fn lemma_px()
    ensures
        option_name("px"@) == "PX"@,
        "PX"@ != "EX"@,
{
    reveal_strlit("px");
    reveal_strlit("PX");
    reveal_strlit("EX");
    assert(ascii_uppercase("px"@) =~= "PX"@);
    assert("PX"@[0] != "EX"@[0]);
}

/// Channel names that were put into bulk strings are read back unchanged.
pub proof fn lemma_channels(channels: Seq<Seq<char>>)
    ensures
        channels_of(bulk_texts(channels)) == Ok::<Seq<Seq<char>>, ParseErrorKind>(channels),
    decreases channels.len(),
{
    let tokens = bulk_texts(channels);
    if channels.len() == 0 {
        assert(channels =~= Seq::<Seq<char>>::empty());
    } else {
        lemma_bulk_text(channels[0]);
        assert(tokens.drop_first() =~= bulk_texts(channels.drop_first()));
        lemma_channels(channels.drop_first());
        assert(seq![channels[0]] + channels.drop_first() =~= channels);
    }
}

proof fn lemma_get(key: Seq<char>)
    ensures
        command_of((CommandView::Get { key }).frame_spec()) == Ok::<CommandView, ParseErrorKind>(
            CommandView::Get { key },
        ),
{
    let tokens = seq![bulk_text("get"@), bulk_text(key)];
    lemma_bulk_text("get"@);
    lemma_bulk_text(key);
    lemma_names();
    let rest = after_take(tokens);
    assert(rest =~= seq![bulk_text(key)]);
    assert(after_take(rest) =~= Seq::<FrameView>::empty());
}

proof fn lemma_publish(channel: Seq<char>, message: Seq<u8>)
    ensures
        command_of((CommandView::Publish { channel, message }).frame_spec()) == Ok::<
            CommandView,
            ParseErrorKind,
        >(CommandView::Publish { channel, message }),
{
    let tokens = seq![bulk_text("publish"@), bulk_text(channel), FrameView::Bulk(message)];
    lemma_bulk_text("publish"@);
    lemma_bulk_text(channel);
    lemma_names();
    let rest = after_take(tokens);
    assert(rest =~= seq![bulk_text(channel), FrameView::Bulk(message)]);
    assert(after_take(rest) =~= seq![FrameView::Bulk(message)]);
    assert(after_take(after_take(rest)) =~= Seq::<FrameView>::empty());
}

proof fn lemma_ping(msg: Option<Seq<char>>)
    ensures
        command_of((CommandView::Ping { msg }).frame_spec()) == Ok::<CommandView, ParseErrorKind>(
            CommandView::Ping { msg },
        ),
{
    lemma_bulk_text("ping"@);
    lemma_names();
    match msg {
        Some(text) => {
            let tokens = seq![bulk_text("ping"@)] + seq![bulk_text(text)];
            lemma_bulk_text(text);
            let rest = after_take(tokens);
            assert(rest =~= seq![bulk_text(text)]);
            assert(rest.drop_first() =~= Seq::<FrameView>::empty());
        },
        None => {
            let tokens = seq![bulk_text("ping"@)] + Seq::<FrameView>::empty();
            let rest = after_take(tokens);
            assert(rest =~= Seq::<FrameView>::empty());
        },
    }
}

proof fn lemma_subscribe(channels: Seq<Seq<char>>)
    requires
        channels.len() > 0,
    ensures
        command_of((CommandView::Subscribe { channels }).frame_spec()) == Ok::<
            CommandView,
            ParseErrorKind,
        >(CommandView::Subscribe { channels }),
{
    let tokens = seq![bulk_text("subscribe"@)] + bulk_texts(channels);
    lemma_bulk_text("subscribe"@);
    lemma_names();
    let rest = after_take(tokens);
    assert(rest =~= bulk_texts(channels));
    lemma_channels(channels);
}

proof fn lemma_unsubscribe(channels: Seq<Seq<char>>)
    ensures
        command_of((CommandView::Unsubscribe { channels }).frame_spec()) == Ok::<
            CommandView,
            ParseErrorKind,
        >(CommandView::Unsubscribe { channels }),
{
    let tokens = seq![bulk_text("unsubscribe"@)] + bulk_texts(channels);
    lemma_bulk_text("unsubscribe"@);
    lemma_names();
    let rest = after_take(tokens);
    assert(rest =~= bulk_texts(channels));
    lemma_channels(channels);
}

proof fn lemma_set(key: Seq<char>, value: Seq<u8>, expire: Option<nat>)
    requires
        (CommandView::SetKey { key, value, expire }).well_formed(),
    ensures
        command_of((CommandView::SetKey { key, value, expire }).frame_spec()) == Ok::<
            CommandView,
            ParseErrorKind,
        >(CommandView::SetKey { key, value, expire }),
{
    lemma_bulk_text("set"@);
    lemma_bulk_text(key);
    lemma_names();
    let head = seq![bulk_text("set"@), bulk_text(key), FrameView::Bulk(value)];
    match expire {
        Some(ttl) => {
            let millis = wire_millis(ttl);
            let tokens = head + seq![bulk_text("px"@), FrameView::Integer(millis)];
            lemma_bulk_text("px"@);
            lemma_px();
            let t1 = after_take(tokens);
            assert(t1 =~= seq![
                bulk_text(key),
                FrameView::Bulk(value),
                bulk_text("px"@),
                FrameView::Integer(millis),
            ]);
            let t2 = after_take(t1);
            assert(t2 =~= seq![FrameView::Bulk(value), bulk_text("px"@), FrameView::Integer(millis)]);
            let t3 = after_take(t2);
            assert(t3 =~= seq![bulk_text("px"@), FrameView::Integer(millis)]);
            let t4 = after_take(t3);
            assert(t4 =~= seq![FrameView::Integer(millis)]);
            assert(after_take(t4) =~= Seq::<FrameView>::empty());
            assert(millis == ttl);
            assert(SetKey::expire_spec(t3) == Ok::<(Option<nat>, Seq<FrameView>), ParseErrorKind>(
                (Some(ttl), after_take(t4)),
            ));
        },
        None => {
            let tokens = head + Seq::<FrameView>::empty();
            let t1 = after_take(tokens);
            assert(t1 =~= seq![bulk_text(key), FrameView::Bulk(value)]);
            let t2 = after_take(t1);
            assert(t2 =~= seq![FrameView::Bulk(value)]);
            let t3 = after_take(t2);
            assert(t3 =~= Seq::<FrameView>::empty());
        },
    }
}

proof fn lemma_unknown(name: Seq<char>)
    requires
        command_name(name) == name,
        !known(name),
    ensures
        command_of((CommandView::Unknown { name }).frame_spec()) == Ok::<
            CommandView,
            ParseErrorKind,
        >(CommandView::Unknown { name }),
{
    lemma_bulk_text(name);
}

/// Round trip: the frame that asks for a well-formed command is read back
/// as that command.
pub proof fn lemma_command_round_trip(command: CommandView)
    requires
        command.well_formed(),
    ensures
        command_of(command.frame_spec()) == Ok::<CommandView, ParseErrorKind>(command),
{
    match command {
        CommandView::Get { key } => lemma_get(key),
        CommandView::SetKey { key, value, expire } => lemma_set(key, value, expire),
        CommandView::Publish { channel, message } => lemma_publish(channel, message),
        CommandView::Subscribe { channels } => lemma_subscribe(channels),
        CommandView::Unsubscribe { channels } => lemma_unsubscribe(channels),
        CommandView::Ping { msg } => lemma_ping(msg),
        CommandView::Unknown { name } => lemma_unknown(name),
    }
}

} // verus!
