//! The commands that the server understands.

use crate::cmd::get::Get;
use crate::cmd::ping::Ping;
use crate::cmd::publish::Publish;
use crate::cmd::set::SetKey;
use crate::cmd::subscribe::Subscribe;
use crate::cmd::unknown::Unknown;
use crate::cmd::unsubscribe::Unsubscribe;
use crate::connection::frame::{Frame, FrameView};
use crate::connection::parse::{after_take, take_string, Parse};
use crate::error::{fails_with, MiniRedisParseError, ParseErrorKind};
use crate::text::str_eq;
use crate::trusted::buf::contents;
use crate::trusted::text::{ascii_lowercase, ascii_uppercase, lowercase, uppercase};
use bytes::Bytes;
use vstd::prelude::*;
use vstd::string::StringSliceAdditionalSpecFns;
use vstd::utf8::{encode_utf8, is_ascii_chars};

pub mod get;
pub mod ping;
pub mod publish;
pub mod round_trip;
pub mod set;
pub mod subscribe;
pub mod unknown;
pub mod unsubscribe;

verus! {

/// Enumeration of supported Redis commands.
///
/// Methods called on `Command` are delegated to the command implementation.
#[derive(Debug)]
pub enum Command {
    Get(Get),
    SetKey(SetKey),
    Publish(Publish),
    Subscribe(Subscribe),
    Unsubscribe(Unsubscribe),
    Ping(Ping),
    Unknown(Unknown),
}

/// What a command asks for, as mathematical values. A time to live is
/// counted in milliseconds.
pub enum CommandView {
    Get { key: Seq<char> },
    SetKey { key: Seq<char>, value: Seq<u8>, expire: Option<nat> },
    Publish { channel: Seq<char>, message: Seq<u8> },
    Subscribe { channels: Seq<Seq<char>> },
    Unsubscribe { channels: Seq<Seq<char>> },
    Ping { msg: Option<Seq<char>> },
    Unknown { name: Seq<char> },
}

impl View for Command {
    type V = CommandView;

    open spec fn view(&self) -> CommandView {
        match self {
            Command::Get(cmd) => cmd@,
            Command::SetKey(cmd) => cmd@,
            Command::Publish(cmd) => cmd@,
            Command::Subscribe(cmd) => cmd@,
            Command::Unsubscribe(cmd) => cmd@,
            Command::Ping(cmd) => cmd@,
            Command::Unknown(cmd) => cmd@,
        }
    }
}

/// The bulk string that carries `text`.
pub open spec fn bulk_text(text: Seq<char>) -> FrameView {
    FrameView::Bulk(encode_utf8(text))
}

/// The bytes of `text`, ready to go into a frame.
pub fn bulk_of(text: &str) -> (data: Bytes)
    ensures
        contents(data) == encode_utf8(text@),
{
    Bytes::copy_from_slice(text.as_bytes())
}

/// The texts that strings hold, in order.
pub open spec fn texts(strings: Seq<String>) -> Seq<Seq<char>> {
    Seq::new(strings.len(), |i: int| strings[i]@)
}

/// The name under which a command is looked up: the first token in lower
/// case.
pub open spec fn command_name(raw: Seq<char>) -> Seq<char> {
    if is_ascii_chars(raw) {
        ascii_lowercase(raw)
    } else {
        lowercase(raw)
    }
}

/// The name under which an option of a command is looked up: the token in
/// upper case.
pub open spec fn option_name(raw: Seq<char>) -> Seq<char> {
    if is_ascii_chars(raw) {
        ascii_uppercase(raw)
    } else {
        uppercase(raw)
    }
}

/// The name of a command as it is looked up.
pub fn lowercase_name(raw: &str) -> (name: String)
    ensures
        name@ == command_name(raw@),
{
    raw.to_lowercase()
}

/// The name of an option as it is looked up.
pub fn uppercase_name(raw: &str) -> (name: String)
    ensures
        name@ == option_name(raw@),
{
    raw.to_uppercase()
}

/// A command that parsed is accepted only if no token is left over.
pub open spec fn finished(parsed: Result<(CommandView, Seq<FrameView>), ParseErrorKind>) -> Result<
    CommandView,
    ParseErrorKind,
> {
    match parsed {
        Err(kind) => Err(kind),
        Ok((command, rest)) => if rest.len() == 0 {
            Ok(command)
        } else {
            Err(ParseErrorKind::Parse)
        },
    }
}

/// The command that goes by `name`, read from the tokens after the name. A
/// name that is not known gives `Unknown`, whatever follows it.
pub open spec fn dispatch(name: Seq<char>, tokens: Seq<FrameView>) -> Result<
    CommandView,
    ParseErrorKind,
> {
    if name == "get"@ {
        finished(Get::parse_spec(tokens))
    } else if name == "set"@ {
        finished(SetKey::parse_spec(tokens))
    } else if name == "publish"@ {
        finished(Publish::parse_spec(tokens))
    } else if name == "subscribe"@ {
        finished(Subscribe::parse_spec(tokens))
    } else if name == "unsubscribe"@ {
        finished(Unsubscribe::parse_spec(tokens))
    } else if name == "ping"@ {
        finished(Ping::parse_spec(tokens))
    } else {
        Ok(CommandView::Unknown { name })
    }
}

/// The command that a frame asks for: an array whose first token names the
/// command, in any case of letters.
pub open spec fn command_of(frame: FrameView) -> Result<CommandView, ParseErrorKind> {
    match frame {
        FrameView::Array(tokens) => match take_string(tokens) {
            Err(kind) => Err(kind),
            Ok(raw) => dispatch(command_name(raw), after_take(tokens)),
        },
        _ => Err(ParseErrorKind::Parse),
    }
}

impl Command {
    /// The view of a command is of the kind of the command.
    pub proof fn lemma_kind(&self)
        ensures
            self is Get <==> self@ is Get,
            self is SetKey <==> self@ is SetKey,
            self is Publish <==> self@ is Publish,
            self is Subscribe <==> self@ is Subscribe,
            self is Unsubscribe <==> self@ is Unsubscribe,
            self is Ping <==> self@ is Ping,
            self is Unknown <==> self@ is Unknown,
    {
        match self {
            Command::Get(cmd) => cmd.lemma_kind(),
            Command::SetKey(cmd) => cmd.lemma_kind(),
            Command::Publish(cmd) => cmd.lemma_kind(),
            Command::Subscribe(cmd) => cmd.lemma_kind(),
            Command::Unsubscribe(cmd) => cmd.lemma_kind(),
            Command::Ping(cmd) => cmd.lemma_kind(),
            Command::Unknown(cmd) => cmd.lemma_kind(),
        }
    }

    /// Parse a command from a received frame.
    ///
    /// The `Frame` must represent a Redis command supported by `mini-redis` and
    /// be the array variant.
    ///
    /// # Returns
    ///
    /// On success, the command value is returned, otherwise, `Err` is returned.
    pub fn from_frame(frame: Frame) -> (r: Result<Command, MiniRedisParseError>)
        ensures
            match command_of(frame@) {
                Ok(command) => r is Ok && r->Ok_0@ == command,
                Err(kind) => fails_with(r, kind),
            },
    {
        // The frame  value is decorated with `Parse`. `Parse` provides a
        // "cursor" like API which makes parsing the command easier.
        //
        // The frame value must be an array variant. Any other frame variants
        // result in an error being returned.
        let mut parse = Parse::new(frame)?;

        // All redis commands begin with the command name as a string. The name
        // is read and converted to lower cases in order to do case sensitive
        // matching.
        let raw = parse.next_string()?;
        let command_name = lowercase_name(raw.as_str());

        Command::parse_frames(command_name.as_str(), &mut parse)
    }

    /// Reads the command that goes by `name`, which is in lower case, from the
    /// tokens that follow the name.
    pub fn parse_frames(name: &str, parse: &mut Parse) -> (r: Result<Command, MiniRedisParseError>)
        ensures
            match dispatch(name@, old(parse)@) {
                Ok(command) => r is Ok && r->Ok_0@ == command,
                Err(kind) => fails_with(r, kind),
            },
    {
        // Match the command name, delegating the rest of the parsing to the
        // specific command.
        let command = if str_eq(name, "get") {
            Command::Get(Get::parse_frames(parse)?)
        } else if str_eq(name, "set") {
            Command::SetKey(SetKey::parse_frames(parse)?)
        } else if str_eq(name, "publish") {
            Command::Publish(Publish::parse_frames(parse)?)
        } else if str_eq(name, "subscribe") {
            Command::Subscribe(Subscribe::parse_frames(parse)?)
        } else if str_eq(name, "unsubscribe") {
            Command::Unsubscribe(Unsubscribe::parse_frames(parse)?)
        } else if str_eq(name, "ping") {
            Command::Ping(Ping::parse_frames(parse)?)
        } else {
            // The command is not recognized and an Unknown command is
            // returned.
            //
            // `return` is called here to skip the `finish()` call below. As
            // the command is not recognized, there is most likely
            // unconsumed fields remaining in the `Parse` instance.
            return Ok(Command::Unknown(Unknown::new(name)));
        };

        // Check if there is any remaining unconsumed fields in the `Parse`
        // value. If fields remain, this indicates an unexpected frame format
        // and an error is returned.
        parse.finish()?;

        // The command has been successfully parsed
        Ok(command)
    }

    /// The name under which the command is logged.
    pub open spec fn name_spec(command: CommandView) -> Seq<char> {
        match command {
            CommandView::Get { .. } => "get"@,
            CommandView::SetKey { .. } => "set"@,
            CommandView::Publish { .. } => "pub"@,
            CommandView::Subscribe { .. } => "subscribe"@,
            CommandView::Unsubscribe { .. } => "unsubscribe"@,
            CommandView::Ping { .. } => "ping"@,
            CommandView::Unknown { name } => name,
        }
    }

    /// Returns the command name
    pub fn get_name(&self) -> (name: &str)
        ensures
            name@ == Command::name_spec(self@),
    {
        proof {
            self.lemma_kind();
        }
        match self {
            Command::Get(_) => "get",
            Command::SetKey(_) => "set",
            Command::Publish(_) => "pub",
            Command::Subscribe(_) => "subscribe",
            Command::Unsubscribe(_) => "unsubscribe",
            Command::Ping(_) => "ping",
            Command::Unknown(cmd) => cmd.get_name(),
        }
    }

    /// Converts the command into the frame that asks for it.
    pub fn into_frame(self) -> (frame: Frame)
        ensures
            frame@ == self@.frame_spec(),
    {
        match self {
            Command::Get(cmd) => cmd.into_frame(),
            Command::SetKey(cmd) => cmd.into_frame(),
            Command::Publish(cmd) => cmd.into_frame(),
            Command::Subscribe(cmd) => cmd.into_frame(),
            Command::Unsubscribe(cmd) => cmd.into_frame(),
            Command::Ping(cmd) => cmd.into_frame(),
            Command::Unknown(cmd) => cmd.into_frame(),
        }
    }
}

/// The bulk strings that carry `channels`, in order.
pub open spec fn bulk_texts(channels: Seq<Seq<char>>) -> Seq<FrameView> {
    Seq::new(channels.len(), |i: int| bulk_text(channels[i]))
}

/// The milliseconds of a time to live as they go on the wire: their low 64
/// bits.
pub open spec fn wire_millis(expire: nat) -> u64 {
    (expire % 0x1_0000_0000_0000_0000) as u64
}

impl CommandView {
    /// The frame that asks for this command.
    pub open spec fn frame_spec(self) -> FrameView {
        match self {
            CommandView::Get { key } => FrameView::Array(seq![bulk_text("get"@), bulk_text(key)]),
            CommandView::SetKey { key, value, expire } => FrameView::Array(
                seq![bulk_text("set"@), bulk_text(key), FrameView::Bulk(value)] + (match expire {
                    Some(millis) => seq![bulk_text("px"@), FrameView::Integer(wire_millis(millis))],
                    None => Seq::empty(),
                }),
            ),
            CommandView::Publish { channel, message } => FrameView::Array(
                seq![bulk_text("publish"@), bulk_text(channel), FrameView::Bulk(message)],
            ),
            CommandView::Subscribe { channels } => FrameView::Array(
                seq![bulk_text("subscribe"@)] + bulk_texts(channels),
            ),
            CommandView::Unsubscribe { channels } => FrameView::Array(
                seq![bulk_text("unsubscribe"@)] + bulk_texts(channels),
            ),
            CommandView::Ping { msg } => FrameView::Array(
                seq![bulk_text("ping"@)] + (match msg {
                    Some(text) => seq![bulk_text(text)],
                    None => Seq::empty(),
                }),
            ),
            CommandView::Unknown { name } => FrameView::Array(seq![bulk_text(name)]),
        }
    }
}

} // verus!
