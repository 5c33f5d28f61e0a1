use vstd::prelude::*;

verus! {

/// Error encountered while parsing a frame.
///
/// Only `EndOfStream` errors are handled at runtime. All other errors result in
/// the connection being terminated.
#[derive(Debug)]
pub enum MiniRedisParseError {
    /// Invalid message encoding; the string says what was wrong.
    Parse(String),
    /// Attempting to extract a value failed due to the frame being fully
    /// consumed.
    EndOfStream,
    /// Not enough data is available to parse a message.
    Incomplete,
    /// The frame starts with a type byte that is not part of the protocol.
    Unimplemented,
    /// An array frame was expected.
    ParseArrayFrame,
    /// A length does not fit the machine's address space.
    ParseInt(std::num::TryFromIntError),
    /// A text frame does not hold UTF-8.
    ParseUtf8(std::string::FromUtf8Error),
}

#[derive(Debug)]
pub enum MiniRedisConnectionError {
    /// Connection reset by peer.
    Disconnect,
    ParseFrame(MiniRedisParseError),
    IoError(std::io::Error),
    /// A command could not be carried out; the string is the peer's answer.
    CommandExecute(String),
    /// A frame of an unexpected shape was received.
    InvalidFrameType,
    /// An argument handed to the client API is not acceptable.
    InvalidArgument(String),
}

#[derive(Debug)]
pub enum MiniRedisServerError {
    IoError(std::io::Error),
    Connect(MiniRedisConnectionError),
    Parse(MiniRedisParseError),
}

#[derive(Debug)]
pub enum MiniRedisClientError {
    Connect(MiniRedisConnectionError),
    Parse(MiniRedisParseError),
}

/// The kind of a parse error, without its payload.
pub enum ParseErrorKind {
    Parse,
    EndOfStream,
    Incomplete,
    Unimplemented,
    ParseArrayFrame,
    ParseInt,
    ParseUtf8,
}

/// `r` is an error of the given kind.
pub open spec fn fails_with<T>(r: Result<T, MiniRedisParseError>, kind: ParseErrorKind) -> bool {
    r is Err && r->Err_0.kind() == kind
}

impl MiniRedisParseError {
    /// Which variant this error is.
    pub open spec fn kind(self) -> ParseErrorKind {
        match self {
            MiniRedisParseError::Parse(_) => ParseErrorKind::Parse,
            MiniRedisParseError::EndOfStream => ParseErrorKind::EndOfStream,
            MiniRedisParseError::Incomplete => ParseErrorKind::Incomplete,
            MiniRedisParseError::Unimplemented => ParseErrorKind::Unimplemented,
            MiniRedisParseError::ParseArrayFrame => ParseErrorKind::ParseArrayFrame,
            MiniRedisParseError::ParseInt(_) => ParseErrorKind::ParseInt,
            MiniRedisParseError::ParseUtf8(_) => ParseErrorKind::ParseUtf8,
        }
    }
}


impl MiniRedisParseError {
    /// What the error says of itself, where that does not come from an
    /// error of std that it carries.
    pub open spec fn message(self) -> Option<Seq<char>> {
        match self {
            MiniRedisParseError::Parse(_) => Some("invalid message encoding, parse failed"@),
            MiniRedisParseError::EndOfStream => Some("protocol error; unexpected end of stream"@),
            MiniRedisParseError::Incomplete => Some(
                "not enough data is available to parse a message"@,
            ),
            MiniRedisParseError::Unimplemented => Some("unimplemented command"@),
            MiniRedisParseError::ParseArrayFrame => Some("not an array frame"@),
            MiniRedisParseError::ParseInt(_) => None,
            MiniRedisParseError::ParseUtf8(_) => None,
        }
    }

    /// The error in words. An error of std that is carried speaks for
    /// itself.
    pub fn to_string(&self) -> (text: String)
        ensures
            self.message() matches Some(message) ==> text@ == message,
    {
        match self {
            MiniRedisParseError::Parse(_) => "invalid message encoding, parse failed".to_string(),
            MiniRedisParseError::EndOfStream => "protocol error; unexpected end of stream".to_string(),
            MiniRedisParseError::Incomplete => "not enough data is available to parse a message".to_string(),
            MiniRedisParseError::Unimplemented => "unimplemented command".to_string(),
            MiniRedisParseError::ParseArrayFrame => "not an array frame".to_string(),
            MiniRedisParseError::ParseInt(e) => e.to_string(),
            MiniRedisParseError::ParseUtf8(e) => e.to_string(),
        }
    }
}

impl MiniRedisConnectionError {
    /// What the error says of itself, where that does not come from an
    /// error that it carries.
    pub open spec fn message(self) -> Option<Seq<char>> {
        match self {
            MiniRedisConnectionError::Disconnect => Some("connection reset by peer"@),
            MiniRedisConnectionError::ParseFrame(e) => e.message(),
            MiniRedisConnectionError::IoError(_) => None,
            MiniRedisConnectionError::CommandExecute(_) => Some("command execute error"@),
            MiniRedisConnectionError::InvalidFrameType => Some("invalid frame type"@),
            MiniRedisConnectionError::InvalidArgument(_) => Some("invalid argument"@),
        }
    }

    /// The error in words. An error that is carried speaks for itself.
    pub fn to_string(&self) -> (text: String)
        ensures
            self.message() matches Some(message) ==> text@ == message,
    {
        match self {
            MiniRedisConnectionError::Disconnect => "connection reset by peer".to_string(),
            MiniRedisConnectionError::ParseFrame(e) => e.to_string(),
            MiniRedisConnectionError::IoError(e) => e.to_string(),
            MiniRedisConnectionError::CommandExecute(_) => "command execute error".to_string(),
            MiniRedisConnectionError::InvalidFrameType => "invalid frame type".to_string(),
            MiniRedisConnectionError::InvalidArgument(_) => "invalid argument".to_string(),
        }
    }

    /// The error says that a frame could not be parsed, for the given reason.
    pub open spec fn is_parse(self, kind: ParseErrorKind) -> bool {
        self matches MiniRedisConnectionError::ParseFrame(e) && e.kind() == kind
    }

    /// The error says that a command could not be carried out, with the
    /// given text.
    pub open spec fn is_command_execute(self, text: Seq<char>) -> bool {
        self matches MiniRedisConnectionError::CommandExecute(message) && message@ == text
    }

    /// The error says that an argument is not acceptable, with the given
    /// text.
    pub open spec fn is_invalid_argument(self, text: Seq<char>) -> bool {
        self matches MiniRedisConnectionError::InvalidArgument(message) && message@ == text
    }
}

impl MiniRedisServerError {
    /// What the error says of itself, where that does not come from an
    /// error of std that it carries.
    pub open spec fn message(self) -> Option<Seq<char>> {
        match self {
            MiniRedisServerError::IoError(_) => None,
            MiniRedisServerError::Connect(e) => e.message(),
            MiniRedisServerError::Parse(e) => e.message(),
        }
    }

    /// The error in words: those of the error that is carried.
    pub fn to_string(&self) -> (text: String)
        ensures
            self.message() matches Some(message) ==> text@ == message,
    {
        match self {
            MiniRedisServerError::IoError(e) => e.to_string(),
            MiniRedisServerError::Connect(e) => e.to_string(),
            MiniRedisServerError::Parse(e) => e.to_string(),
        }
    }
}

impl MiniRedisClientError {
    /// What the error says of itself, where that does not come from an
    /// error of std that it carries.
    pub open spec fn message(self) -> Option<Seq<char>> {
        match self {
            MiniRedisClientError::Connect(e) => e.message(),
            MiniRedisClientError::Parse(e) => e.message(),
        }
    }

    /// The error in words: those of the error that is carried.
    pub fn to_string(&self) -> (text: String)
        ensures
            self.message() matches Some(message) ==> text@ == message,
    {
        match self {
            MiniRedisClientError::Connect(e) => e.to_string(),
            MiniRedisClientError::Parse(e) => e.to_string(),
        }
    }
}

impl From<std::num::TryFromIntError> for MiniRedisParseError {
    fn from(e: std::num::TryFromIntError) -> (error: Self) {
        MiniRedisParseError::ParseInt(e)
    }
}

impl vstd::std_specs::convert::FromSpecImpl<std::num::TryFromIntError> for MiniRedisParseError {
    open spec fn obeys_from_spec() -> bool {
        true
    }

    open spec fn from_spec(e: std::num::TryFromIntError) -> Self {
        MiniRedisParseError::ParseInt(e)
    }
}

impl From<std::string::FromUtf8Error> for MiniRedisParseError {
    fn from(e: std::string::FromUtf8Error) -> (error: Self) {
        MiniRedisParseError::ParseUtf8(e)
    }
}

impl vstd::std_specs::convert::FromSpecImpl<std::string::FromUtf8Error> for MiniRedisParseError {
    open spec fn obeys_from_spec() -> bool {
        true
    }

    open spec fn from_spec(e: std::string::FromUtf8Error) -> Self {
        MiniRedisParseError::ParseUtf8(e)
    }
}

impl From<MiniRedisParseError> for MiniRedisConnectionError {
    fn from(e: MiniRedisParseError) -> (error: Self) {
        MiniRedisConnectionError::ParseFrame(e)
    }
}

impl vstd::std_specs::convert::FromSpecImpl<MiniRedisParseError> for MiniRedisConnectionError {
    open spec fn obeys_from_spec() -> bool {
        true
    }

    open spec fn from_spec(e: MiniRedisParseError) -> Self {
        MiniRedisConnectionError::ParseFrame(e)
    }
}

impl From<std::io::Error> for MiniRedisConnectionError {
    fn from(e: std::io::Error) -> (error: Self) {
        MiniRedisConnectionError::IoError(e)
    }
}

impl vstd::std_specs::convert::FromSpecImpl<std::io::Error> for MiniRedisConnectionError {
    open spec fn obeys_from_spec() -> bool {
        true
    }

    open spec fn from_spec(e: std::io::Error) -> Self {
        MiniRedisConnectionError::IoError(e)
    }
}

impl From<std::io::Error> for MiniRedisServerError {
    fn from(e: std::io::Error) -> (error: Self) {
        MiniRedisServerError::IoError(e)
    }
}

impl vstd::std_specs::convert::FromSpecImpl<std::io::Error> for MiniRedisServerError {
    open spec fn obeys_from_spec() -> bool {
        true
    }

    open spec fn from_spec(e: std::io::Error) -> Self {
        MiniRedisServerError::IoError(e)
    }
}

impl From<MiniRedisConnectionError> for MiniRedisServerError {
    fn from(e: MiniRedisConnectionError) -> (error: Self) {
        MiniRedisServerError::Connect(e)
    }
}

impl vstd::std_specs::convert::FromSpecImpl<MiniRedisConnectionError> for MiniRedisServerError {
    open spec fn obeys_from_spec() -> bool {
        true
    }

    open spec fn from_spec(e: MiniRedisConnectionError) -> Self {
        MiniRedisServerError::Connect(e)
    }
}

impl From<MiniRedisParseError> for MiniRedisServerError {
    fn from(e: MiniRedisParseError) -> (error: Self) {
        MiniRedisServerError::Parse(e)
    }
}

impl vstd::std_specs::convert::FromSpecImpl<MiniRedisParseError> for MiniRedisServerError {
    open spec fn obeys_from_spec() -> bool {
        true
    }

    open spec fn from_spec(e: MiniRedisParseError) -> Self {
        MiniRedisServerError::Parse(e)
    }
}

impl From<MiniRedisConnectionError> for MiniRedisClientError {
    fn from(e: MiniRedisConnectionError) -> (error: Self) {
        MiniRedisClientError::Connect(e)
    }
}

impl vstd::std_specs::convert::FromSpecImpl<MiniRedisConnectionError> for MiniRedisClientError {
    open spec fn obeys_from_spec() -> bool {
        true
    }

    open spec fn from_spec(e: MiniRedisConnectionError) -> Self {
        MiniRedisClientError::Connect(e)
    }
}

impl From<MiniRedisParseError> for MiniRedisClientError {
    fn from(e: MiniRedisParseError) -> (error: Self) {
        MiniRedisClientError::Parse(e)
    }
}

impl vstd::std_specs::convert::FromSpecImpl<MiniRedisParseError> for MiniRedisClientError {
    open spec fn obeys_from_spec() -> bool {
        true
    }

    open spec fn from_spec(e: MiniRedisParseError) -> Self {
        MiniRedisClientError::Parse(e)
    }
}

} // verus!
