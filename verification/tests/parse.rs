use bytes::Bytes;
use mini_redis::connection::frame::Frame;
use mini_redis::connection::parse::Parse;
use mini_redis::error::MiniRedisParseError;

fn bulk(text: &'static str) -> Frame {
    Frame::Bulk(Bytes::from(text))
}

#[test]
fn parse_new_takes_arrays_only() {
    assert!(Parse::new(Frame::array()).is_ok());
    assert!(Parse::new(Frame::Array(vec![Frame::Null])).is_ok());
    match Parse::new(Frame::Null) {
        Err(MiniRedisParseError::Parse(message)) => {
            assert_eq!(message, "protocol error; expected array, got Null");
        }
        other => panic!("expected a parse error, got {:?}", other),
    }
    assert!(matches!(
        Parse::new(Frame::Simple("x".to_string())),
        Err(MiniRedisParseError::Parse(_))
    ));
    assert!(matches!(
        Parse::new(Frame::Integer(1)),
        Err(MiniRedisParseError::Parse(_))
    ));
    assert!(matches!(Parse::new(bulk("x")), Err(MiniRedisParseError::Parse(_))));
    assert!(matches!(
        Parse::new(Frame::Error("x".to_string())),
        Err(MiniRedisParseError::Parse(_))
    ));
}

#[test]
fn tokens_come_in_order() {
    let mut parse = Parse::new(Frame::Array(vec![
        bulk("first"),
        Frame::Simple("second".to_string()),
        bulk("third"),
    ]))
    .unwrap();
    assert_eq!(parse.next_string().unwrap(), "first");
    assert_eq!(parse.next_string().unwrap(), "second");
    assert_eq!(parse.next_string().unwrap(), "third");
    assert!(matches!(parse.next_string(), Err(MiniRedisParseError::EndOfStream)));
    assert!(matches!(parse.next_string(), Err(MiniRedisParseError::EndOfStream)));
}

#[test]
fn next_string_of_other_frames() {
    let mut parse = Parse::new(Frame::Array(vec![
        Frame::Integer(1),
        Frame::Null,
        Frame::Error("e".to_string()),
        Frame::array(),
        Frame::Bulk(Bytes::from(vec![0xffu8])),
        bulk("ok"),
    ]))
    .unwrap();
    match parse.next_string() {
        Err(MiniRedisParseError::Parse(message)) => {
            assert_eq!(
                message,
                "protocol error; expected simple frame or bulk frame, got Integer(1)"
            );
        }
        other => panic!("expected a parse error, got {:?}", other),
    }
    assert!(matches!(parse.next_string(), Err(MiniRedisParseError::Parse(_))));
    assert!(matches!(parse.next_string(), Err(MiniRedisParseError::Parse(_))));
    assert!(matches!(parse.next_string(), Err(MiniRedisParseError::Parse(_))));
    match parse.next_string() {
        Err(MiniRedisParseError::Parse(message)) => {
            assert_eq!(message, "protocol error; invalid string");
        }
        other => panic!("expected a parse error, got {:?}", other),
    }
    // a token that was refused is gone all the same
    assert_eq!(parse.next_string().unwrap(), "ok");
}

#[test]
fn next_bytes() {
    let mut parse = Parse::new(Frame::Array(vec![
        Frame::Bulk(Bytes::from(vec![0xffu8, 0])),
        Frame::Simple("grüße".to_string()),
        Frame::Integer(1),
    ]))
    .unwrap();
    assert_eq!(&parse.next_bytes().unwrap()[..], &[0xffu8, 0]);
    assert_eq!(&parse.next_bytes().unwrap()[..], "grüße".as_bytes());
    assert!(matches!(parse.next_bytes(), Err(MiniRedisParseError::Parse(_))));
    assert!(matches!(parse.next_bytes(), Err(MiniRedisParseError::EndOfStream)));
}

#[test]
fn next_int() {
    let mut parse = Parse::new(Frame::Array(vec![
        Frame::Integer(7),
        bulk("500"),
        Frame::Simple("18446744073709551615".to_string()),
        bulk("18446744073709551616"),
        bulk("abc"),
        bulk("-5"),
        bulk("12 apples"),
        bulk("+12"),
        Frame::Simple("-0".to_string()),
        bulk("0012"),
        Frame::Null,
        Frame::Simple("".to_string()),
    ]))
    .unwrap();
    assert_eq!(parse.next_int().unwrap(), 7);
    assert_eq!(parse.next_int().unwrap(), 500);
    assert_eq!(parse.next_int().unwrap(), u64::MAX);
    match parse.next_int() {
        Err(MiniRedisParseError::Parse(message)) => {
            assert_eq!(message, "protocol error; invalid number");
        }
        other => panic!("expected a parse error, got {:?}", other),
    }
    assert!(matches!(parse.next_int(), Err(MiniRedisParseError::Parse(_))));
    assert!(matches!(parse.next_int(), Err(MiniRedisParseError::Parse(_))));
    // digits with something after them, or a sign before them, are no number
    assert!(matches!(parse.next_int(), Err(MiniRedisParseError::Parse(_))));
    assert!(matches!(parse.next_int(), Err(MiniRedisParseError::Parse(_))));
    assert!(matches!(parse.next_int(), Err(MiniRedisParseError::Parse(_))));
    assert_eq!(parse.next_int().unwrap(), 12);
    match parse.next_int() {
        Err(MiniRedisParseError::Parse(message)) => {
            assert_eq!(message, "protocol error; expected int frame but got Null");
        }
        other => panic!("expected a parse error, got {:?}", other),
    }
    assert!(matches!(parse.next_int(), Err(MiniRedisParseError::Parse(_))));
    assert!(matches!(parse.next_int(), Err(MiniRedisParseError::EndOfStream)));
}

#[test]
fn finish() {
    let mut parse = Parse::new(Frame::array()).unwrap();
    assert!(parse.finish().is_ok());
    assert!(parse.finish().is_ok());

    let mut parse = Parse::new(Frame::Array(vec![bulk("a"), bulk("b")])).unwrap();
    match parse.finish() {
        Err(MiniRedisParseError::Parse(message)) => {
            assert_eq!(
                message,
                "protocol error; expected end of frame, but there was more"
            );
        }
        other => panic!("expected a parse error, got {:?}", other),
    }
    // the check took a token
    assert_eq!(parse.next_string().unwrap(), "b");
    assert!(parse.finish().is_ok());
}
