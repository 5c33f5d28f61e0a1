use bytes::Bytes;
use mini_redis::cmd::get::Get;
use mini_redis::cmd::ping::Ping;
use mini_redis::cmd::publish::Publish;
use mini_redis::cmd::set::{deadline, instant_after, millis_on_wire, SetKey};
use mini_redis::cmd::subscribe::Subscribe;
use mini_redis::cmd::unknown::Unknown;
use mini_redis::cmd::unsubscribe::Unsubscribe;
use mini_redis::cmd::{lowercase_name, uppercase_name, Command};
use mini_redis::connection::frame::Frame;
use mini_redis::connection::parse::Parse;
use mini_redis::error::MiniRedisParseError;

fn bulk(text: &str) -> Frame {
    Frame::Bulk(Bytes::copy_from_slice(text.as_bytes()))
}

fn request(words: &[&str]) -> Frame {
    Frame::Array(words.iter().map(|word| bulk(word)).collect())
}

fn encoded(frame: &Frame) -> Vec<u8> {
    let mut out = Vec::new();
    frame.encode(&mut out);
    out
}

#[test]
fn from_frame_get() {
    match Command::from_frame(request(&["GET", "hello"])).unwrap() {
        Command::Get(get) => assert_eq!(get.key(), "hello"),
        other => panic!("expected GET, got {:?}", other),
    }
}

#[test]
fn from_frame_reads_the_name_in_any_case() {
    assert!(matches!(
        Command::from_frame(request(&["get", "k"])).unwrap(),
        Command::Get(_)
    ));
    assert!(matches!(
        Command::from_frame(request(&["GeT", "k"])).unwrap(),
        Command::Get(_)
    ));
    assert!(matches!(
        Command::from_frame(request(&["PING"])).unwrap(),
        Command::Ping(_)
    ));
    assert!(matches!(
        Command::from_frame(request(&["Publish", "c", "m"])).unwrap(),
        Command::Publish(_)
    ));
    assert!(matches!(
        Command::from_frame(request(&["sUBSCRIBe", "c"])).unwrap(),
        Command::Subscribe(_)
    ));
    assert!(matches!(
        Command::from_frame(request(&["UNSUBSCRIBE"])).unwrap(),
        Command::Unsubscribe(_)
    ));
    assert!(matches!(
        Command::from_frame(request(&["SET", "k", "v"])).unwrap(),
        Command::SetKey(_)
    ));
}

#[test]
fn from_frame_takes_simple_strings_too() {
    let frame = Frame::Array(vec![
        Frame::Simple("GET".to_string()),
        Frame::Simple("k".to_string()),
    ]);
    match Command::from_frame(frame).unwrap() {
        Command::Get(get) => assert_eq!(get.key(), "k"),
        other => panic!("expected GET, got {:?}", other),
    }
}

#[test]
fn from_frame_get_needs_exactly_one_key() {
    assert!(matches!(
        Command::from_frame(request(&["GET"])),
        Err(MiniRedisParseError::EndOfStream)
    ));
    assert!(matches!(
        Command::from_frame(request(&["GET", "a", "b"])),
        Err(MiniRedisParseError::Parse(_))
    ));
    assert!(matches!(
        Command::from_frame(Frame::Array(vec![bulk("GET"), Frame::Integer(1)])),
        Err(MiniRedisParseError::Parse(_))
    ));
}

#[test]
fn from_frame_rejects_what_is_no_array() {
    assert!(matches!(
        Command::from_frame(bulk("GET")),
        Err(MiniRedisParseError::Parse(_))
    ));
    assert!(matches!(
        Command::from_frame(Frame::Null),
        Err(MiniRedisParseError::Parse(_))
    ));
    assert!(matches!(
        Command::from_frame(Frame::Simple("PING".to_string())),
        Err(MiniRedisParseError::Parse(_))
    ));
}

#[test]
fn from_frame_rejects_an_empty_array() {
    assert!(matches!(
        Command::from_frame(Frame::array()),
        Err(MiniRedisParseError::EndOfStream)
    ));
}

#[test]
fn from_frame_rejects_a_name_that_is_no_text() {
    assert!(matches!(
        Command::from_frame(Frame::Array(vec![Frame::Integer(1)])),
        Err(MiniRedisParseError::Parse(_))
    ));
    assert!(matches!(
        Command::from_frame(Frame::Array(vec![Frame::Bulk(Bytes::from(vec![0xffu8]))])),
        Err(MiniRedisParseError::Parse(_))
    ));
}

#[test]
fn from_frame_set() {
    match Command::from_frame(request(&["SET", "hello", "world"])).unwrap() {
        Command::SetKey(set) => {
            assert_eq!(set.key(), "hello");
            assert_eq!(&set.value()[..], b"world");
            assert_eq!(set.expire(), None);
        }
        other => panic!("expected SET, got {:?}", other),
    }
}

#[test]
fn from_frame_set_with_milliseconds() {
    match Command::from_frame(request(&["SET", "foo", "bar", "PX", "500"])).unwrap() {
        Command::SetKey(set) => {
            assert_eq!(set.key(), "foo");
            assert_eq!(&set.value()[..], b"bar");
            assert_eq!(set.expire(), Some(500));
        }
        other => panic!("expected SET, got {:?}", other),
    }
}

#[test]
fn from_frame_set_with_seconds() {
    match Command::from_frame(request(&["SET", "foo", "bar", "EX", "3"])).unwrap() {
        Command::SetKey(set) => assert_eq!(set.expire(), Some(3_000)),
        other => panic!("expected SET, got {:?}", other),
    }
    match Command::from_frame(request(&["set", "foo", "bar", "ex", "18446744073709551615"]))
        .unwrap()
    {
        Command::SetKey(set) => assert_eq!(set.expire(), Some(u64::MAX as u128 * 1_000)),
        other => panic!("expected SET, got {:?}", other),
    }
}

#[test]
fn from_frame_set_reads_the_option_in_any_case() {
    for option in ["px", "Px", "pX", "PX"] {
        match Command::from_frame(request(&["SET", "k", "v", option, "7"])).unwrap() {
            Command::SetKey(set) => assert_eq!(set.expire(), Some(7)),
            other => panic!("expected SET, got {:?}", other),
        }
    }
}

#[test]
fn from_frame_set_takes_an_integer_frame_for_the_time() {
    let frame = Frame::Array(vec![
        bulk("set"),
        bulk("k"),
        bulk("v"),
        bulk("px"),
        Frame::Integer(250),
    ]);
    match Command::from_frame(frame).unwrap() {
        Command::SetKey(set) => assert_eq!(set.expire(), Some(250)),
        other => panic!("expected SET, got {:?}", other),
    }
}

#[test]
fn from_frame_set_unknown_option() {
    match Command::from_frame(request(&["SET", "k", "v", "NX"])) {
        Err(MiniRedisParseError::Parse(message)) => {
            assert_eq!(
                message,
                "currently `SET` only supports the expiration option"
            );
        }
        other => panic!("expected a parse error, got {:?}", other),
    }
    assert!(matches!(
        Command::from_frame(request(&["SET", "k", "v", "KEEPTTL", "1"])),
        Err(MiniRedisParseError::Parse(_))
    ));
}

#[test]
fn from_frame_set_malformed() {
    assert!(matches!(
        Command::from_frame(request(&["SET"])),
        Err(MiniRedisParseError::EndOfStream)
    ));
    assert!(matches!(
        Command::from_frame(request(&["SET", "k"])),
        Err(MiniRedisParseError::EndOfStream)
    ));
    assert!(matches!(
        Command::from_frame(request(&["SET", "k", "v", "PX"])),
        Err(MiniRedisParseError::EndOfStream)
    ));
    assert!(matches!(
        Command::from_frame(request(&["SET", "k", "v", "PX", "soon"])),
        Err(MiniRedisParseError::Parse(_))
    ));
    assert!(matches!(
        Command::from_frame(request(&["SET", "k", "v", "PX", "-1"])),
        Err(MiniRedisParseError::Parse(_))
    ));
    assert!(matches!(
        Command::from_frame(request(&["SET", "k", "v", "PX", "+1"])),
        Err(MiniRedisParseError::Parse(_))
    ));
    assert!(matches!(
        Command::from_frame(request(&["SET", "k", "v", "EX", "1s"])),
        Err(MiniRedisParseError::Parse(_))
    ));
    assert!(matches!(
        Command::from_frame(request(&["SET", "k", "v", "PX", "1", "extra"])),
        Err(MiniRedisParseError::Parse(_))
    ));
    assert!(matches!(
        Command::from_frame(Frame::Array(vec![bulk("SET"), bulk("k"), bulk("v"), Frame::Null])),
        Err(MiniRedisParseError::Parse(_))
    ));
}

#[test]
fn from_frame_set_takes_any_bytes_as_value() {
    let frame = Frame::Array(vec![
        bulk("SET"),
        bulk("k"),
        Frame::Bulk(Bytes::from(vec![0u8, 255, 13, 10])),
    ]);
    match Command::from_frame(frame).unwrap() {
        Command::SetKey(set) => assert_eq!(&set.value()[..], &[0u8, 255, 13, 10]),
        other => panic!("expected SET, got {:?}", other),
    }
}

#[test]
fn from_frame_publish() {
    match Command::from_frame(request(&["PUBLISH", "foo", "bar"])).unwrap() {
        Command::Publish(publish) => {
            assert_eq!(
                encoded(&publish.into_frame()),
                b"*3\r\n$7\r\npublish\r\n$3\r\nfoo\r\n$3\r\nbar\r\n"
            );
        }
        other => panic!("expected PUBLISH, got {:?}", other),
    }
    assert!(matches!(
        Command::from_frame(request(&["PUBLISH", "foo"])),
        Err(MiniRedisParseError::EndOfStream)
    ));
    assert!(matches!(
        Command::from_frame(request(&["PUBLISH", "foo", "bar", "baz"])),
        Err(MiniRedisParseError::Parse(_))
    ));
}

#[test]
fn from_frame_subscribe() {
    match Command::from_frame(request(&["SUBSCRIBE", "a", "b", "c"])).unwrap() {
        Command::Subscribe(subscribe) => {
            assert_eq!(subscribe.channels(), &vec!["a".to_string(), "b".to_string(), "c".to_string()]);
        }
        other => panic!("expected SUBSCRIBE, got {:?}", other),
    }
}

#[test]
fn from_frame_subscribe_needs_a_channel() {
    assert!(matches!(
        Command::from_frame(request(&["SUBSCRIBE"])),
        Err(MiniRedisParseError::EndOfStream)
    ));
    assert!(matches!(
        Command::from_frame(Frame::Array(vec![bulk("SUBSCRIBE"), bulk("a"), Frame::Integer(1)])),
        Err(MiniRedisParseError::Parse(_))
    ));
}

#[test]
fn from_frame_unsubscribe() {
    match Command::from_frame(request(&["UNSUBSCRIBE"])).unwrap() {
        Command::Unsubscribe(unsubscribe) => assert!(unsubscribe.into_channels().is_empty()),
        other => panic!("expected UNSUBSCRIBE, got {:?}", other),
    }
    match Command::from_frame(request(&["UNSUBSCRIBE", "a", "b"])).unwrap() {
        Command::Unsubscribe(unsubscribe) => {
            assert_eq!(unsubscribe.into_channels(), vec!["a".to_string(), "b".to_string()]);
        }
        other => panic!("expected UNSUBSCRIBE, got {:?}", other),
    }
    assert!(matches!(
        Command::from_frame(Frame::Array(vec![bulk("UNSUBSCRIBE"), Frame::Null])),
        Err(MiniRedisParseError::Parse(_))
    ));
}

#[test]
fn from_frame_ping() {
    match Command::from_frame(request(&["PING"])).unwrap() {
        Command::Ping(ping) => assert_eq!(encoded(&ping.apply()), b"+PONG\r\n"),
        other => panic!("expected PING, got {:?}", other),
    }
    match Command::from_frame(request(&["PING", "hello"])).unwrap() {
        Command::Ping(ping) => assert_eq!(encoded(&ping.apply()), b"$5\r\nhello\r\n"),
        other => panic!("expected PING, got {:?}", other),
    }
    assert!(matches!(
        Command::from_frame(request(&["PING", "a", "b"])),
        Err(MiniRedisParseError::Parse(_))
    ));
    assert!(matches!(
        Command::from_frame(Frame::Array(vec![bulk("PING"), Frame::Integer(1)])),
        Err(MiniRedisParseError::Parse(_))
    ));
}

#[test]
fn from_frame_unknown() {
    match Command::from_frame(request(&["FLUSHALL"])).unwrap() {
        Command::Unknown(unknown) => {
            assert_eq!(unknown.get_name(), "flushall");
            assert_eq!(
                encoded(&unknown.apply()),
                b"-err unknown command 'flushall'\r\n"
            );
        }
        other => panic!("expected an unknown command, got {:?}", other),
    }
}

#[test]
fn from_frame_unknown_ignores_what_follows() {
    let frame = Frame::Array(vec![bulk("DEL"), bulk("a"), Frame::Integer(3), Frame::Null]);
    match Command::from_frame(frame).unwrap() {
        Command::Unknown(unknown) => assert_eq!(unknown.get_name(), "del"),
        other => panic!("expected an unknown command, got {:?}", other),
    }
}

#[test]
fn from_frame_unknown_name_beyond_ascii() {
    match Command::from_frame(request(&["ÄRGER"])).unwrap() {
        Command::Unknown(unknown) => assert_eq!(unknown.get_name(), "ärger"),
        other => panic!("expected an unknown command, got {:?}", other),
    }
    match Command::from_frame(request(&[""])).unwrap() {
        Command::Unknown(unknown) => assert_eq!(unknown.get_name(), ""),
        other => panic!("expected an unknown command, got {:?}", other),
    }
    match Command::from_frame(request(&["gets"])).unwrap() {
        Command::Unknown(unknown) => assert_eq!(unknown.get_name(), "gets"),
        other => panic!("expected an unknown command, got {:?}", other),
    }
}

#[test]
fn names_in_lower_and_upper_case() {
    assert_eq!(lowercase_name("GET"), "get");
    assert_eq!(lowercase_name("get"), "get");
    assert_eq!(lowercase_name("FlushAll-2"), "flushall-2");
    assert_eq!(lowercase_name("ÄÖ"), "äö");
    assert_eq!(uppercase_name("px"), "PX");
    assert_eq!(uppercase_name("Ex"), "EX");
    assert_eq!(uppercase_name("a1_z"), "A1_Z");
    assert_eq!(uppercase_name("ß"), "SS");
}

#[test]
fn get_name() {
    assert_eq!(Command::from_frame(request(&["GET", "k"])).unwrap().get_name(), "get");
    assert_eq!(Command::from_frame(request(&["SET", "k", "v"])).unwrap().get_name(), "set");
    assert_eq!(
        Command::from_frame(request(&["PUBLISH", "c", "m"])).unwrap().get_name(),
        "pub"
    );
    assert_eq!(
        Command::from_frame(request(&["SUBSCRIBE", "c"])).unwrap().get_name(),
        "subscribe"
    );
    assert_eq!(
        Command::from_frame(request(&["UNSUBSCRIBE", "c"])).unwrap().get_name(),
        "unsubscribe"
    );
    assert_eq!(Command::from_frame(request(&["PING"])).unwrap().get_name(), "ping");
    assert_eq!(Command::from_frame(request(&["QUIT"])).unwrap().get_name(), "quit");
}

#[test]
fn into_frame_get() {
    assert_eq!(
        encoded(&Get::new("hello").into_frame()),
        b"*2\r\n$3\r\nget\r\n$5\r\nhello\r\n"
    );
}

#[test]
fn into_frame_set() {
    assert_eq!(
        encoded(&SetKey::new("hello", Bytes::from("world"), None).into_frame()),
        b"*3\r\n$3\r\nset\r\n$5\r\nhello\r\n$5\r\nworld\r\n"
    );
    assert_eq!(
        encoded(
            &SetKey::new("foo", Bytes::from("bar"), Some(500)).into_frame()
        ),
        b"*5\r\n$3\r\nset\r\n$3\r\nfoo\r\n$3\r\nbar\r\n$2\r\npx\r\n:500\r\n"
    );
    assert_eq!(
        encoded(&SetKey::new("foo", Bytes::from("bar"), Some(2_000)).into_frame()),
        b"*5\r\n$3\r\nset\r\n$3\r\nfoo\r\n$3\r\nbar\r\n$2\r\npx\r\n:2000\r\n"
    );
}

#[test]
fn into_frame_set_sends_the_low_bits_of_a_time_that_is_too_long() {
    // more milliseconds than 64 bits hold are cut to their low 64 bits
    let huge = u64::MAX as u128 * 1_000;
    let millis = (huge % (1u128 << 64)) as u64;
    let expected = format!("*5\r\n$3\r\nset\r\n$1\r\nk\r\n$1\r\nv\r\n$2\r\npx\r\n:{}\r\n", millis);
    assert_eq!(
        encoded(&SetKey::new("k", Bytes::from("v"), Some(huge)).into_frame()),
        expected.as_bytes()
    );
}

#[test]
fn into_frame_publish_subscribe_unsubscribe_ping() {
    assert_eq!(
        encoded(&Publish::new("foo", Bytes::from("bar")).into_frame()),
        b"*3\r\n$7\r\npublish\r\n$3\r\nfoo\r\n$3\r\nbar\r\n"
    );
    assert_eq!(
        encoded(&Subscribe::new(vec!["foo".to_string(), "b".to_string()]).into_frame()),
        b"*3\r\n$9\r\nsubscribe\r\n$3\r\nfoo\r\n$1\r\nb\r\n"
    );
    assert_eq!(
        encoded(&Unsubscribe::new(vec![]).into_frame()),
        b"*1\r\n$11\r\nunsubscribe\r\n"
    );
    assert_eq!(
        encoded(&Unsubscribe::new(vec!["foo".to_string()]).into_frame()),
        b"*2\r\n$11\r\nunsubscribe\r\n$3\r\nfoo\r\n"
    );
    assert_eq!(encoded(&Ping::new(None).into_frame()), b"*1\r\n$4\r\nping\r\n");
    assert_eq!(
        encoded(&Ping::new(Some("hello".to_string())).into_frame()),
        b"*2\r\n$4\r\nping\r\n$5\r\nhello\r\n"
    );
    assert_eq!(
        encoded(&Unknown::new("flushall").into_frame()),
        b"*1\r\n$8\r\nflushall\r\n"
    );
}

fn round_trip(command: Command) {
    let shown = format!("{:?}", command);
    let back = Command::from_frame(command.into_frame()).unwrap();
    assert_eq!(format!("{:?}", back), shown);
}

#[test]
fn round_trip_of_every_command() {
    round_trip(Command::Get(Get::new("hello")));
    round_trip(Command::Get(Get::new("")));
    round_trip(Command::Get(Get::new("grüße\r\n")));
    round_trip(Command::SetKey(SetKey::new("k", Bytes::from("v"), None)));
    round_trip(Command::SetKey(SetKey::new(
        "k",
        Bytes::from(vec![0u8, 255]),
        Some(500),
    )));
    round_trip(Command::SetKey(SetKey::new(
        "k",
        Bytes::new(),
        Some(3_000),
    )));
    round_trip(Command::SetKey(SetKey::new(
        "k",
        Bytes::from("v"),
        Some(u64::MAX as u128),
    )));
    round_trip(Command::SetKey(SetKey::new(
        "k",
        Bytes::from("v"),
        Some(0),
    )));
    round_trip(Command::Publish(Publish::new("chan", Bytes::from("msg"))));
    round_trip(Command::Subscribe(Subscribe::new(vec!["a".to_string()])));
    round_trip(Command::Subscribe(Subscribe::new(vec![
        "a".to_string(),
        "b".to_string(),
        "a".to_string(),
    ])));
    round_trip(Command::Unsubscribe(Unsubscribe::new(vec![])));
    round_trip(Command::Unsubscribe(Unsubscribe::new(vec!["x".to_string(), "y".to_string()])));
    round_trip(Command::Ping(Ping::new(None)));
    round_trip(Command::Ping(Ping::new(Some("hello".to_string()))));
    round_trip(Command::Unknown(Unknown::new("flushall")));
}

#[test]
fn commands_that_are_not_well_formed_do_not_come_back() {
    // a subscription to no channel
    assert!(matches!(
        Command::from_frame(Subscribe::new(vec![]).into_frame()),
        Err(MiniRedisParseError::EndOfStream)
    ));
    // a time to live of more milliseconds than 64 bits hold
    let set = SetKey::new("k", Bytes::from("v"), Some((1u128 << 64) + 5));
    match Command::from_frame(set.into_frame()).unwrap() {
        Command::SetKey(back) => assert_eq!(back.expire(), Some(5)),
        other => panic!("expected SET, got {:?}", other),
    }
    // an unknown command whose name is known, or not in lower case
    assert!(matches!(
        Command::from_frame(Unknown::new("ping").into_frame()).unwrap(),
        Command::Ping(_)
    ));
    match Command::from_frame(Unknown::new("FLUSHALL").into_frame()).unwrap() {
        Command::Unknown(back) => assert_eq!(back.get_name(), "flushall"),
        other => panic!("expected an unknown command, got {:?}", other),
    }
}

#[test]
fn deadline_adds_the_time_to_live() {
    assert_eq!(deadline(0, 500), 500_000_000);
    assert_eq!(deadline(7, 1), 1_000_007);
    assert_eq!(deadline(1_000, 2_000), 2_000_001_000);
    assert_eq!(deadline(5, 0), 5);
    assert_eq!(deadline(u64::MAX, 0), u64::MAX);
    assert_eq!(deadline(551_615, 18_446_744_073_709), u64::MAX);
    assert_eq!(deadline(0, 18_446_744_073_709), 18_446_744_073_709_000_000);
}

#[test]
fn deadline_beyond_the_last_instant_is_the_last_instant() {
    assert_eq!(deadline(551_616, 18_446_744_073_709), u64::MAX);
    assert_eq!(deadline(0, 18_446_744_073_710), u64::MAX);
    assert_eq!(deadline(u64::MAX, 1), u64::MAX);
    assert_eq!(deadline(0, u64::MAX as u128), u64::MAX);
    assert_eq!(deadline(0, (u64::MAX as u128) + 1), u64::MAX);
    assert_eq!(deadline(0, u128::MAX), u64::MAX);
    assert_eq!(deadline(12, u64::MAX as u128 * 1_000), u64::MAX);
}

#[test]
fn instant_after_a_span() {
    assert_eq!(instant_after(0, 0), 0);
    assert_eq!(instant_after(5, 7), 12);
    assert_eq!(instant_after(0, u64::MAX as u128), u64::MAX);
    assert_eq!(instant_after(u64::MAX, 0), u64::MAX);
    assert_eq!(instant_after(1, u64::MAX as u128), u64::MAX);
    assert_eq!(instant_after(u64::MAX, 1), u64::MAX);
    assert_eq!(instant_after(0, 1u128 << 64), u64::MAX);
    assert_eq!(instant_after(0, u128::MAX), u64::MAX);
}

#[test]
fn publish_answers_with_the_number_of_subscribers() {
    assert_eq!(encoded(&Publish::response(0)), b":0\r\n");
    assert_eq!(encoded(&Publish::response(1)), b":1\r\n");
    assert_eq!(encoded(&Publish::response(1024)), b":1024\r\n");
}

fn tokens(words: &[&str]) -> Parse {
    Parse::new(request(words)).unwrap()
}

#[test]
fn parse_frames_goes_by_the_name_in_lower_case() {
    assert!(matches!(
        Command::parse_frames("get", &mut tokens(&["k"])).unwrap(),
        Command::Get(_)
    ));
    assert!(matches!(
        Command::parse_frames("set", &mut tokens(&["k", "v"])).unwrap(),
        Command::SetKey(_)
    ));
    assert!(matches!(
        Command::parse_frames("publish", &mut tokens(&["c", "m"])).unwrap(),
        Command::Publish(_)
    ));
    assert!(matches!(
        Command::parse_frames("subscribe", &mut tokens(&["c"])).unwrap(),
        Command::Subscribe(_)
    ));
    assert!(matches!(
        Command::parse_frames("unsubscribe", &mut tokens(&[])).unwrap(),
        Command::Unsubscribe(_)
    ));
    assert!(matches!(
        Command::parse_frames("ping", &mut tokens(&[])).unwrap(),
        Command::Ping(_)
    ));
    // the name is taken as it is
    match Command::parse_frames("GET", &mut tokens(&["k"])).unwrap() {
        Command::Unknown(unknown) => assert_eq!(unknown.get_name(), "GET"),
        other => panic!("expected an unknown command, got {:?}", other),
    }
    assert!(matches!(
        Command::parse_frames("get", &mut tokens(&[])),
        Err(MiniRedisParseError::EndOfStream)
    ));
    assert!(matches!(
        Command::parse_frames("get", &mut tokens(&["a", "b"])),
        Err(MiniRedisParseError::Parse(_))
    ));
}

#[test]
fn parse_option_goes_by_the_option_in_upper_case() {
    assert_eq!(SetKey::parse_option("EX", &mut tokens(&["3"])).unwrap(), 3_000);
    assert_eq!(SetKey::parse_option("PX", &mut tokens(&["3"])).unwrap(), 3);
    assert_eq!(
        SetKey::parse_option("EX", &mut tokens(&["18446744073709551615"])).unwrap(),
        18_446_744_073_709_551_615_000
    );
    assert!(matches!(
        SetKey::parse_option("px", &mut tokens(&["3"])),
        Err(MiniRedisParseError::Parse(_))
    ));
    assert!(matches!(
        SetKey::parse_option("NX", &mut tokens(&["3"])),
        Err(MiniRedisParseError::Parse(_))
    ));
    assert!(matches!(
        SetKey::parse_option("EX", &mut tokens(&[])),
        Err(MiniRedisParseError::EndOfStream)
    ));
    assert!(matches!(
        SetKey::parse_option("PX", &mut tokens(&["x"])),
        Err(MiniRedisParseError::Parse(_))
    ));
    let mut parse = tokens(&["5", "left"]);
    assert_eq!(SetKey::parse_option("PX", &mut parse).unwrap(), 5);
    assert_eq!(parse.next_string().unwrap(), "left");
}

#[test]
fn millis_on_the_wire() {
    assert_eq!(millis_on_wire(0), 0);
    assert_eq!(millis_on_wire(500), 500);
    assert_eq!(millis_on_wire(u64::MAX as u128), u64::MAX);
    assert_eq!(millis_on_wire(1u128 << 64), 0);
    assert_eq!(millis_on_wire((1u128 << 64) + 7), 7);
    assert_eq!(millis_on_wire(u128::MAX), u64::MAX);
}
