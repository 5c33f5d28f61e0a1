use mini_redis::consts::{CHANNEL_CAPACITY, DEFAULT_PORT, MAX_CONNECTIONS};
use mini_redis::error::{
    MiniRedisClientError, MiniRedisConnectionError, MiniRedisParseError, MiniRedisServerError,
};
use mini_redis::server::listener::{Backoff, MAX_BACKOFF};
use mini_redis::server::shutdown::Shutdown;
use mini_redis::server::{wind_down, Step, Stop, GRACE_SECS};
use mini_redis::text::{bytes_eq, decimal_string, str_eq};

#[test]
fn constants() {
    assert_eq!(DEFAULT_PORT, 6379);
    assert_eq!(MAX_CONNECTIONS, 1024);
    assert_eq!(CHANNEL_CAPACITY, 1024);
    assert_eq!(MAX_BACKOFF, 64);
    assert_eq!(GRACE_SECS, 2);
}

#[test]
fn backoff_pauses_one_four_sixteen_sixty_four_seconds() {
    let mut backoff = Backoff::new();
    assert_eq!(backoff.failed(), Some(1));
    assert_eq!(backoff.failed(), Some(4));
    assert_eq!(backoff.failed(), Some(16));
    assert_eq!(backoff.failed(), Some(64));
    // the failure after the pause of 64 seconds is final
    assert_eq!(backoff.failed(), None);
    assert_eq!(backoff.failed(), None);
}

#[test]
fn backoff_starts_over_after_a_success() {
    let mut backoff = Backoff::new();
    assert_eq!(backoff.failed(), Some(1));
    assert_eq!(backoff.failed(), Some(4));
    backoff.succeeded();
    assert_eq!(backoff.failed(), Some(1));
    for _ in 0..4 {
        backoff.failed();
    }
    assert_eq!(backoff.failed(), None);
    backoff.succeeded();
    assert_eq!(backoff.failed(), Some(1));
    assert_eq!(backoff.failed(), Some(4));
}

#[test]
fn wind_down_after_the_signal() {
    assert_eq!(
        wind_down(Stop::Signal),
        [
            Step::Pause(2),
            Step::NotifyShutdown,
            Step::ReleaseCompletion,
            Step::AwaitDrain
        ]
    );
}

#[test]
fn wind_down_after_accepting_failed() {
    assert_eq!(
        wind_down(Stop::AcceptFailed),
        [Step::NotifyShutdown, Step::ReleaseCompletion, Step::AwaitDrain]
    );
}

#[test]
fn shutdown_is_seen_once_received() {
    let mut shutdown = Shutdown::new();
    assert!(!shutdown.is_shutdown());
    shutdown.recv();
    assert!(shutdown.is_shutdown());
    shutdown.recv();
    assert!(shutdown.is_shutdown());
}

#[test]
fn errors_convert() {
    let parse = MiniRedisParseError::Incomplete;
    assert!(matches!(
        MiniRedisConnectionError::from(parse),
        MiniRedisConnectionError::ParseFrame(MiniRedisParseError::Incomplete)
    ));
    assert!(matches!(
        MiniRedisServerError::from(MiniRedisConnectionError::Disconnect),
        MiniRedisServerError::Connect(MiniRedisConnectionError::Disconnect)
    ));
    assert!(matches!(
        MiniRedisServerError::from(MiniRedisParseError::EndOfStream),
        MiniRedisServerError::Parse(MiniRedisParseError::EndOfStream)
    ));
    assert!(matches!(
        MiniRedisClientError::from(MiniRedisConnectionError::InvalidFrameType),
        MiniRedisClientError::Connect(MiniRedisConnectionError::InvalidFrameType)
    ));
    assert!(matches!(
        MiniRedisClientError::from(MiniRedisParseError::Unimplemented),
        MiniRedisClientError::Parse(MiniRedisParseError::Unimplemented)
    ));
    let io = std::io::Error::new(std::io::ErrorKind::Other, "down");
    assert!(matches!(MiniRedisConnectionError::from(io), MiniRedisConnectionError::IoError(_)));
    let io = std::io::Error::new(std::io::ErrorKind::Other, "down");
    assert!(matches!(MiniRedisServerError::from(io), MiniRedisServerError::IoError(_)));
    let utf8 = String::from_utf8(vec![0xff]).unwrap_err();
    assert!(matches!(MiniRedisParseError::from(utf8), MiniRedisParseError::ParseUtf8(_)));
    let int = u8::try_from(300u32).unwrap_err();
    assert!(matches!(MiniRedisParseError::from(int), MiniRedisParseError::ParseInt(_)));
}

#[test]
fn text_helpers() {
    assert!(bytes_eq(b"abc", b"abc"));
    assert!(bytes_eq(b"", b""));
    assert!(!bytes_eq(b"abc", b"abd"));
    assert!(!bytes_eq(b"abc", b"ab"));
    assert!(!bytes_eq(b"", b"a"));
    assert!(str_eq("grüße", "grüße"));
    assert!(!str_eq("grüße", "grusse"));
    assert_eq!(decimal_string(0), "0");
    assert_eq!(decimal_string(9), "9");
    assert_eq!(decimal_string(10), "10");
    assert_eq!(decimal_string(4096), "4096");
    assert_eq!(decimal_string(u64::MAX), "18446744073709551615");
}

#[test]
fn errors_in_words() {
    assert_eq!(
        MiniRedisParseError::Parse("details".to_string()).to_string(),
        "invalid message encoding, parse failed"
    );
    assert_eq!(
        MiniRedisParseError::EndOfStream.to_string(),
        "protocol error; unexpected end of stream"
    );
    assert_eq!(
        MiniRedisParseError::Incomplete.to_string(),
        "not enough data is available to parse a message"
    );
    assert_eq!(MiniRedisParseError::Unimplemented.to_string(), "unimplemented command");
    assert_eq!(MiniRedisParseError::ParseArrayFrame.to_string(), "not an array frame");
    let utf8 = String::from_utf8(vec![0xff]).unwrap_err();
    let words = utf8.to_string();
    assert_eq!(MiniRedisParseError::ParseUtf8(utf8).to_string(), words);
    let int = u8::try_from(300u32).unwrap_err();
    assert_eq!(MiniRedisParseError::ParseInt(int).to_string(), int.to_string());

    assert_eq!(MiniRedisConnectionError::Disconnect.to_string(), "connection reset by peer");
    assert_eq!(
        MiniRedisConnectionError::CommandExecute("oops".to_string()).to_string(),
        "command execute error"
    );
    assert_eq!(
        MiniRedisConnectionError::ParseFrame(MiniRedisParseError::EndOfStream).to_string(),
        "protocol error; unexpected end of stream"
    );
    let io = std::io::Error::new(std::io::ErrorKind::Other, "down");
    assert_eq!(MiniRedisConnectionError::IoError(io).to_string(), "down");
    assert_eq!(MiniRedisConnectionError::InvalidFrameType.to_string(), "invalid frame type");
    assert_eq!(
        MiniRedisConnectionError::InvalidArgument("x".to_string()).to_string(),
        "invalid argument"
    );

    assert_eq!(
        MiniRedisServerError::Connect(MiniRedisConnectionError::Disconnect).to_string(),
        "connection reset by peer"
    );
    assert_eq!(
        MiniRedisServerError::Parse(MiniRedisParseError::Incomplete).to_string(),
        "not enough data is available to parse a message"
    );
    let io = std::io::Error::new(std::io::ErrorKind::Other, "refused");
    assert_eq!(MiniRedisServerError::IoError(io).to_string(), "refused");
    assert_eq!(
        MiniRedisClientError::Connect(MiniRedisConnectionError::Disconnect).to_string(),
        "connection reset by peer"
    );
    assert_eq!(
        MiniRedisClientError::Parse(MiniRedisParseError::Unimplemented).to_string(),
        "unimplemented command"
    );
}
