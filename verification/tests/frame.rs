use bytes::Bytes;
use mini_redis::connection::cursor::{get_line, get_u8, peek_u8, skip, Cursor};
use mini_redis::connection::frame::{get_decimal, Frame};
use mini_redis::error::MiniRedisParseError;

fn parse(bytes: &[u8]) -> Result<Frame, MiniRedisParseError> {
    let mut src = Cursor::new(bytes);
    Frame::parse(&mut src)
}

fn check(bytes: &[u8]) -> Result<usize, MiniRedisParseError> {
    let mut src = Cursor::new(bytes);
    Frame::check(&mut src)?;
    Ok(src.position())
}

fn encoded(frame: &Frame) -> Vec<u8> {
    let mut out = Vec::new();
    frame.encode(&mut out);
    out
}

fn bulk(text: &'static str) -> Frame {
    Frame::Bulk(Bytes::from(text))
}

#[test]
fn parse_simple_string() {
    let mut src = Cursor::new(b"+OK\r\n");
    let frame = Frame::parse(&mut src).unwrap();
    assert!(matches!(&frame, Frame::Simple(text) if text == "OK"));
    assert!(frame.eq_str("OK"));
    assert_eq!(src.position(), 5);
}

#[test]
fn parse_error_string() {
    let frame = parse(b"-err unknown command 'flushall'\r\n").unwrap();
    assert!(matches!(&frame, Frame::Error(text) if text == "err unknown command 'flushall'"));
}

#[test]
fn parse_integer() {
    assert!(matches!(parse(b":0\r\n").unwrap(), Frame::Integer(0)));
    assert!(matches!(parse(b":1024\r\n").unwrap(), Frame::Integer(1024)));
    assert!(matches!(
        parse(b":18446744073709551615\r\n").unwrap(),
        Frame::Integer(u64::MAX)
    ));
}

#[test]
fn parse_integer_rejects_what_is_no_number() {
    assert!(matches!(parse(b":\r\n"), Err(MiniRedisParseError::Parse(_))));
    assert!(matches!(parse(b":abc\r\n"), Err(MiniRedisParseError::Parse(_))));
    assert!(matches!(parse(b": 1\r\n"), Err(MiniRedisParseError::Parse(_))));
}

#[test]
fn parse_integer_rejects_negatives() {
    assert!(matches!(parse(b":-1\r\n"), Err(MiniRedisParseError::Parse(_))));
    assert!(matches!(parse(b":-42\r\n"), Err(MiniRedisParseError::Parse(_))));
    assert!(matches!(parse(b":-01\r\n"), Err(MiniRedisParseError::Parse(_))));
}

#[test]
fn parse_integer_rejects_overflow() {
    assert!(matches!(
        parse(b":18446744073709551616\r\n"),
        Err(MiniRedisParseError::Parse(_))
    ));
    assert!(matches!(
        parse(b":99999999999999999999999999\r\n"),
        Err(MiniRedisParseError::Parse(_))
    ));
}

#[test]
fn parse_integer_rejects_malformed_decimals() {
    for line in [
        &b":12abc\r\n"[..],
        b":+5\r\n",
        b":-0\r\n",
        b":-000\r\n",
        b":+\r\n",
        b":-\r\n",
        b":-x\r\n",
        b":-5\r\n",
        b":1 \r\n",
        b":1.5\r\n",
        b":0x10\r\n",
        b":1\r\r\n",
    ] {
        assert!(
            matches!(parse(line), Err(MiniRedisParseError::Parse(_))),
            "{:?} is no decimal",
            line
        );
        assert!(
            matches!(check(line), Err(MiniRedisParseError::Parse(_))),
            "{:?} is no decimal",
            line
        );
    }
}

#[test]
fn parse_integer_takes_leading_zeros() {
    assert!(matches!(parse(b":0042\r\n").unwrap(), Frame::Integer(42)));
    assert!(matches!(parse(b":00\r\n").unwrap(), Frame::Integer(0)));
    assert!(matches!(
        parse(b":00000000000000000000000000001\r\n").unwrap(),
        Frame::Integer(1)
    ));
    assert!(matches!(
        parse(b":00018446744073709551615\r\n").unwrap(),
        Frame::Integer(u64::MAX)
    ));
}

#[test]
fn parse_rejects_malformed_lengths() {
    assert!(matches!(parse(b"$+5\r\nhello\r\n"), Err(MiniRedisParseError::Parse(_))));
    assert!(matches!(parse(b"$5x\r\nhello\r\n"), Err(MiniRedisParseError::Parse(_))));
    assert!(matches!(parse(b"$\r\n\r\n"), Err(MiniRedisParseError::Parse(_))));
    assert!(matches!(parse(b"*+1\r\n:1\r\n"), Err(MiniRedisParseError::Parse(_))));
    assert!(matches!(parse(b"*-0\r\n"), Err(MiniRedisParseError::Parse(_))));
    assert!(matches!(parse(b"*1 \r\n:1\r\n"), Err(MiniRedisParseError::Parse(_))));
    assert!(matches!(check(b"$+5\r\nhello\r\n"), Err(MiniRedisParseError::Parse(_))));
    assert!(matches!(check(b"*-0\r\n"), Err(MiniRedisParseError::Parse(_))));
    assert!(matches!(check(b"*2x\r\n"), Err(MiniRedisParseError::Parse(_))));
}

#[test]
fn parse_bulk_string() {
    let frame = parse(b"$5\r\nhello\r\n").unwrap();
    assert!(matches!(&frame, Frame::Bulk(data) if &data[..] == b"hello"));
    let frame = parse(b"$0\r\n\r\n").unwrap();
    assert!(matches!(&frame, Frame::Bulk(data) if data.is_empty()));
}

#[test]
fn parse_bulk_string_may_hold_line_breaks() {
    let frame = parse(b"$4\r\na\r\nb\r\n").unwrap();
    assert!(matches!(&frame, Frame::Bulk(data) if &data[..] == b"a\r\nb"));
}

#[test]
fn parse_bulk_string_without_its_line_break_is_an_error() {
    assert!(matches!(
        parse(b"$5\r\nhelloXY"),
        Err(MiniRedisParseError::Parse(_))
    ));
    assert!(matches!(
        parse(b"$5\r\nhello\rX"),
        Err(MiniRedisParseError::Parse(_))
    ));
}

#[test]
fn parse_bulk_string_that_has_not_arrived_is_incomplete() {
    assert!(matches!(parse(b"$5\r\nhel"), Err(MiniRedisParseError::Incomplete)));
    assert!(matches!(parse(b"$5\r\nhello"), Err(MiniRedisParseError::Incomplete)));
    assert!(matches!(parse(b"$5\r\nhello\r"), Err(MiniRedisParseError::Incomplete)));
    assert!(matches!(parse(b"$5\r"), Err(MiniRedisParseError::Incomplete)));
    assert!(matches!(parse(b"$"), Err(MiniRedisParseError::Incomplete)));
    assert!(matches!(
        parse(b"$18446744073709551615\r\nabc"),
        Err(MiniRedisParseError::Incomplete)
    ));
}

#[test]
fn parse_null() {
    assert!(matches!(parse(b"$-1\r\n").unwrap(), Frame::Null));
}

#[test]
fn parse_null_rejects_other_negative_lengths() {
    assert!(matches!(parse(b"$-2\r\n"), Err(MiniRedisParseError::Parse(_))));
    assert!(matches!(parse(b"$-10\r\n"), Err(MiniRedisParseError::Parse(_))));
    assert!(matches!(parse(b"$-\r\n"), Err(MiniRedisParseError::Parse(_))));
    assert!(matches!(parse(b"$-1"), Err(MiniRedisParseError::Incomplete)));
}

#[test]
fn parse_array() {
    let frame = parse(b"*2\r\n$3\r\nGET\r\n$5\r\nhello\r\n").unwrap();
    match frame {
        Frame::Array(items) => {
            assert_eq!(items.len(), 2);
            assert!(items[0].eq_str("GET"));
            assert!(items[1].eq_str("hello"));
        }
        other => panic!("expected an array, got {:?}", other),
    }
}

#[test]
fn parse_empty_array() {
    assert!(matches!(parse(b"*0\r\n").unwrap(), Frame::Array(items) if items.is_empty()));
}

#[test]
fn parse_nested_array() {
    let frame = parse(b"*2\r\n*2\r\n:1\r\n+a\r\n*0\r\n").unwrap();
    match frame {
        Frame::Array(items) => {
            assert_eq!(items.len(), 2);
            match &items[0] {
                Frame::Array(inner) => {
                    assert_eq!(inner.len(), 2);
                    assert!(matches!(inner[0], Frame::Integer(1)));
                    assert!(inner[1].eq_str("a"));
                }
                other => panic!("expected an array, got {:?}", other),
            }
            assert!(matches!(&items[1], Frame::Array(inner) if inner.is_empty()));
        }
        other => panic!("expected an array, got {:?}", other),
    }
}

#[test]
fn parse_array_that_has_not_arrived_is_incomplete() {
    assert!(matches!(
        parse(b"*2\r\n$3\r\nGET\r\n"),
        Err(MiniRedisParseError::Incomplete)
    ));
    assert!(matches!(parse(b"*1\r\n"), Err(MiniRedisParseError::Incomplete)));
    assert!(matches!(
        parse(b"*18446744073709551615\r\n"),
        Err(MiniRedisParseError::Incomplete)
    ));
}

#[test]
fn parse_reports_the_first_thing_that_is_wrong_in_an_array() {
    assert!(matches!(
        parse(b"*2\r\n:x\r\n$3\r\nab"),
        Err(MiniRedisParseError::Parse(_))
    ));
    assert!(matches!(
        parse(b"*2\r\n+\xff\r\n:1\r\n"),
        Err(MiniRedisParseError::ParseUtf8(_))
    ));
}

#[test]
fn parse_empty_input_is_incomplete() {
    assert!(matches!(parse(b""), Err(MiniRedisParseError::Incomplete)));
    assert!(matches!(parse(b"+OK"), Err(MiniRedisParseError::Incomplete)));
    assert!(matches!(parse(b"+OK\r"), Err(MiniRedisParseError::Incomplete)));
    assert!(matches!(parse(b"+"), Err(MiniRedisParseError::Incomplete)));
}

#[test]
fn parse_unknown_type_byte() {
    assert!(matches!(parse(b"!oops\r\n"), Err(MiniRedisParseError::Unimplemented)));
    assert!(matches!(parse(b"GET\r\n"), Err(MiniRedisParseError::Unimplemented)));
}

#[test]
fn parse_rejects_text_that_is_not_utf8() {
    assert!(matches!(parse(b"+\xff\xfe\r\n"), Err(MiniRedisParseError::ParseUtf8(_))));
    assert!(matches!(parse(b"-\xc3\r\n"), Err(MiniRedisParseError::ParseUtf8(_))));
}

#[test]
fn parse_text_beyond_ascii() {
    let frame = parse("+grüße\r\n".as_bytes()).unwrap();
    assert!(matches!(&frame, Frame::Simple(text) if text == "grüße"));
}

#[test]
fn parse_simple_string_ends_at_the_first_line_break() {
    let mut src = Cursor::new(b"+a\r\nb\r\n");
    let frame = Frame::parse(&mut src).unwrap();
    assert!(frame.eq_str("a"));
    assert_eq!(src.position(), 4);
}

#[test]
fn parse_simple_string_may_hold_a_lone_carriage_return() {
    let frame = parse(b"+a\rb\r\r\n").unwrap();
    assert!(frame.eq_str("a\rb\r"));
}

#[test]
fn parse_reads_frames_one_after_the_other() {
    let mut src = Cursor::new(b"+OK\r\n:7\r\n$-1\r\n");
    assert!(matches!(Frame::parse(&mut src).unwrap(), Frame::Simple(_)));
    assert_eq!(src.position(), 5);
    assert!(matches!(Frame::parse(&mut src).unwrap(), Frame::Integer(7)));
    assert_eq!(src.position(), 9);
    assert!(matches!(Frame::parse(&mut src).unwrap(), Frame::Null));
    assert_eq!(src.position(), 14);
    assert!(matches!(Frame::parse(&mut src), Err(MiniRedisParseError::Incomplete)));
}

#[test]
fn check_finds_the_end_of_a_frame() {
    assert_eq!(check(b"+OK\r\n").unwrap(), 5);
    assert_eq!(check(b"-ERR\r\nrest").unwrap(), 6);
    assert_eq!(check(b":12\r\n").unwrap(), 5);
    assert_eq!(check(b"$5\r\nhello\r\n+x").unwrap(), 11);
    assert_eq!(check(b"$-1\r\n").unwrap(), 5);
    assert_eq!(check(b"*2\r\n$3\r\nGET\r\n$5\r\nhello\r\n").unwrap(), 24);
    assert_eq!(check(b"*0\r\n").unwrap(), 4);
}

#[test]
fn check_incomplete() {
    assert!(matches!(check(b""), Err(MiniRedisParseError::Incomplete)));
    assert!(matches!(check(b"+OK"), Err(MiniRedisParseError::Incomplete)));
    assert!(matches!(check(b"$5\r\nhell"), Err(MiniRedisParseError::Incomplete)));
    assert!(matches!(check(b"$-1\r"), Err(MiniRedisParseError::Incomplete)));
    assert!(matches!(check(b"*2\r\n+a\r\n"), Err(MiniRedisParseError::Incomplete)));
    assert!(matches!(
        check(b"$18446744073709551615\r\nab"),
        Err(MiniRedisParseError::Incomplete)
    ));
}

#[test]
fn check_does_not_read_what_it_skips() {
    // text is not decoded, a payload is not looked at, and neither is what
    // follows the minus sign of a null frame
    assert_eq!(check(b"+\xff\r\n").unwrap(), 4);
    assert_eq!(check(b"$5\r\nhelloXY").unwrap(), 11);
    assert_eq!(check(b"$-xyz").unwrap(), 5);
}

#[test]
fn check_invalid_type_byte() {
    match check(b"!oops\r\n") {
        Err(MiniRedisParseError::Parse(message)) => {
            assert_eq!(message, "protocol error; invalid frame type byte `33`");
        }
        other => panic!("expected a parse error, got {:?}", other),
    }
}

#[test]
fn check_invalid_decimal() {
    assert!(matches!(check(b":x\r\n"), Err(MiniRedisParseError::Parse(_))));
    assert!(matches!(check(b"*x\r\n"), Err(MiniRedisParseError::Parse(_))));
    assert!(matches!(check(b"$x\r\n"), Err(MiniRedisParseError::Parse(_))));
}

#[test]
fn encode_simple() {
    assert_eq!(encoded(&Frame::Simple("OK".to_string())), b"+OK\r\n");
    assert_eq!(encoded(&Frame::Simple(String::new())), b"+\r\n");
}

#[test]
fn encode_error() {
    assert_eq!(encoded(&Frame::Error("oops".to_string())), b"-oops\r\n");
}

#[test]
fn encode_integer() {
    assert_eq!(encoded(&Frame::Integer(0)), b":0\r\n");
    assert_eq!(encoded(&Frame::Integer(7)), b":7\r\n");
    assert_eq!(encoded(&Frame::Integer(10)), b":10\r\n");
    assert_eq!(encoded(&Frame::Integer(1024)), b":1024\r\n");
    assert_eq!(
        encoded(&Frame::Integer(u64::MAX)),
        b":18446744073709551615\r\n"
    );
}

#[test]
fn encode_bulk_string() {
    let frame = Frame::Bulk(Bytes::from("hello"));
    let mut out = Vec::new();
    frame.encode(&mut out);
    assert_eq!(out, b"$5\r\nhello\r\n".to_vec());
    assert_eq!(encoded(&Frame::Bulk(Bytes::new())), b"$0\r\n\r\n");
}

#[test]
fn encode_null() {
    assert_eq!(encoded(&Frame::Null), b"$-1\r\n");
}

#[test]
fn encode_array() {
    let frame = Frame::Array(vec![bulk("subscribe"), bulk("foo"), Frame::Integer(1)]);
    assert_eq!(
        encoded(&frame),
        b"*3\r\n$9\r\nsubscribe\r\n$3\r\nfoo\r\n:1\r\n"
    );
    assert_eq!(encoded(&Frame::array()), b"*0\r\n");
}

#[test]
fn encode_nested_array() {
    let frame = Frame::Array(vec![
        Frame::Array(vec![Frame::Integer(1), Frame::Null]),
        Frame::Simple("x".to_string()),
    ]);
    assert_eq!(encoded(&frame), b"*2\r\n*2\r\n:1\r\n$-1\r\n+x\r\n");
}

#[test]
fn encode_appends() {
    let mut out = b"abc".to_vec();
    Frame::Integer(5).encode(&mut out);
    Frame::Null.encode(&mut out);
    assert_eq!(out, b"abc:5\r\n$-1\r\n");
}

fn round_trip(frame: Frame) {
    let bytes = encoded(&frame);
    let mut src = Cursor::new(&bytes);
    Frame::check(&mut src).unwrap();
    assert_eq!(src.position(), bytes.len());
    src.set_position(0);
    let back = Frame::parse(&mut src).unwrap();
    assert_eq!(src.position(), bytes.len());
    assert_eq!(encoded(&back), bytes);
    assert_eq!(format!("{:?}", back), format!("{:?}", frame));
}

#[test]
fn round_trip_of_every_kind_of_frame() {
    round_trip(Frame::Simple("OK".to_string()));
    round_trip(Frame::Simple("".to_string()));
    round_trip(Frame::Simple("grüße, 世界".to_string()));
    round_trip(Frame::Error("err unknown command 'x'".to_string()));
    round_trip(Frame::Integer(0));
    round_trip(Frame::Integer(1));
    round_trip(Frame::Integer(9));
    round_trip(Frame::Integer(10));
    round_trip(Frame::Integer(u64::MAX));
    round_trip(Frame::Bulk(Bytes::from("hello")));
    round_trip(Frame::Bulk(Bytes::from(vec![0u8, 13, 10, 255, 45, 49])));
    round_trip(Frame::Bulk(Bytes::new()));
    round_trip(Frame::Null);
    round_trip(Frame::Array(vec![]));
    round_trip(Frame::Array(vec![
        bulk("set"),
        bulk("k"),
        Frame::Bulk(Bytes::from(vec![1u8, 2, 3])),
        bulk("px"),
        Frame::Integer(500),
    ]));
    round_trip(Frame::Array(vec![
        Frame::Array(vec![Frame::Null, Frame::Array(vec![])]),
        Frame::Error("e".to_string()),
        Frame::Simple("s".to_string()),
    ]));
}

#[test]
fn text_with_a_line_break_does_not_come_back() {
    let frame = Frame::Simple("a\r\nb".to_string());
    let bytes = encoded(&frame);
    let back = parse(&bytes).unwrap();
    assert!(back.eq_str("a"));
}

#[test]
fn array_starts_empty() {
    assert!(matches!(Frame::array(), Frame::Array(items) if items.is_empty()));
}

#[test]
fn push_bulk_and_push_int() {
    let mut frame = Frame::array();
    frame.push_bulk(Bytes::from("get")).unwrap();
    frame.push_int(7).unwrap();
    assert_eq!(encoded(&frame), b"*2\r\n$3\r\nget\r\n:7\r\n");
}

#[test]
fn push_onto_what_is_no_array() {
    let mut frame = Frame::Null;
    assert!(matches!(
        frame.push_bulk(Bytes::from("x")),
        Err(MiniRedisParseError::ParseArrayFrame)
    ));
    assert!(matches!(frame, Frame::Null));
    let mut frame = Frame::Integer(3);
    assert!(matches!(
        frame.push_int(1),
        Err(MiniRedisParseError::ParseArrayFrame)
    ));
    assert!(matches!(frame, Frame::Integer(3)));
}

#[test]
fn frame_equals_text() {
    assert!(Frame::Simple("OK".to_string()) == "OK");
    assert!(Frame::Bulk(Bytes::from("OK")) == "OK");
    assert!(Frame::Simple("OK".to_string()) != "ok");
    assert!(Frame::Bulk(Bytes::from("OK")) != "OKK");
    assert!(Frame::Simple(String::new()) == "");
    assert!(Frame::Error("OK".to_string()) != "OK");
    assert!(Frame::Null != "");
    assert!(Frame::Integer(1) != "1");
    assert!(Frame::Array(vec![bulk("OK")]) != "OK");
    assert!(Frame::Bulk(Bytes::from("grüße")) == "grüße");
    assert!(Frame::Bulk(Bytes::from(vec![0xffu8])) != "\u{ff}");
}

#[test]
fn frame_to_string() {
    assert_eq!(Frame::Simple("PONG".to_string()).to_string(), "PONG");
    assert_eq!(Frame::Error("oops".to_string()).to_string(), "error: oops");
    assert_eq!(Frame::Integer(0).to_string(), "0");
    assert_eq!(Frame::Integer(1234567890).to_string(), "1234567890");
    assert_eq!(Frame::Integer(u64::MAX).to_string(), "18446744073709551615");
    assert_eq!(bulk("hello").to_string(), "hello");
    assert_eq!(Frame::Null.to_string(), "(nil)");
}

#[test]
fn frame_to_string_of_bytes_that_are_no_text() {
    let frame = Frame::Bulk(Bytes::from(vec![0xffu8, b'a', b'\n']));
    assert_eq!(frame.to_string(), "b\"\\xffa\\n\"");
}

#[test]
fn frame_to_string_of_an_array_leaves_its_first_part_out() {
    let frame = Frame::Array(vec![bulk("message"), bulk("foo"), bulk("bar")]);
    assert_eq!(frame.to_string(), " foo bar");
    assert_eq!(Frame::Array(vec![bulk("only")]).to_string(), "");
    assert_eq!(Frame::array().to_string(), "");
    let nested = Frame::Array(vec![
        Frame::Null,
        Frame::Array(vec![Frame::Integer(1), Frame::Integer(2)]),
        Frame::Integer(3),
    ]);
    assert_eq!(nested.to_string(), "  2 3");
}

#[test]
fn frame_clone() {
    let frame = Frame::Array(vec![
        bulk("a"),
        Frame::Integer(2),
        Frame::Array(vec![Frame::Null, Frame::Simple("s".to_string())]),
        Frame::Error("e".to_string()),
    ]);
    let copy = frame.clone();
    assert_eq!(encoded(&copy), encoded(&frame));
}

#[test]
fn cursor_reads() {
    let mut src = Cursor::new(b"ab\r\ncd");
    assert_eq!(src.position(), 0);
    assert_eq!(src.remaining(), 6);
    assert!(src.has_remaining());
    assert_eq!(src.chunk(), b"ab\r\ncd");
    assert_eq!(src.get_ref(), b"ab\r\ncd");
    assert_eq!(peek_u8(&mut src).unwrap(), b'a');
    assert_eq!(src.position(), 0);
    assert_eq!(get_u8(&mut src).unwrap(), b'a');
    assert_eq!(src.position(), 1);
    assert_eq!(get_line(&mut src).unwrap(), b"b");
    assert_eq!(src.position(), 4);
    assert!(matches!(get_line(&mut src), Err(MiniRedisParseError::Incomplete)));
    assert_eq!(src.position(), 4);
    skip(&mut src, 2).unwrap();
    assert_eq!(src.position(), 6);
    assert_eq!(src.remaining(), 0);
    assert!(!src.has_remaining());
    assert!(src.chunk().is_empty());
    assert!(matches!(skip(&mut src, 1), Err(MiniRedisParseError::Incomplete)));
    assert!(matches!(get_u8(&mut src), Err(MiniRedisParseError::Incomplete)));
    assert!(matches!(peek_u8(&mut src), Err(MiniRedisParseError::Incomplete)));
    skip(&mut src, 0).unwrap();
}

#[test]
fn cursor_past_the_end_has_nothing_left() {
    let mut src = Cursor::new(b"abc");
    src.set_position(10);
    assert_eq!(src.position(), 10);
    assert_eq!(src.remaining(), 0);
    assert!(src.chunk().is_empty());
    assert!(matches!(get_u8(&mut src), Err(MiniRedisParseError::Incomplete)));
    assert!(matches!(get_line(&mut src), Err(MiniRedisParseError::Incomplete)));
    assert!(matches!(Frame::parse(&mut src), Err(MiniRedisParseError::Incomplete)));
    assert!(matches!(Frame::check(&mut src), Err(MiniRedisParseError::Incomplete)));
}

#[test]
fn cursor_advance() {
    let mut src = Cursor::new(b"abcdef");
    src.advance(2);
    assert_eq!(src.position(), 2);
    assert_eq!(src.chunk(), b"cdef");
    src.advance(4);
    assert_eq!(src.remaining(), 0);
}

#[test]
fn get_line_on_an_empty_buffer() {
    let mut src = Cursor::new(b"");
    assert!(matches!(get_line(&mut src), Err(MiniRedisParseError::Incomplete)));
    let mut src = Cursor::new(b"\r");
    assert!(matches!(get_line(&mut src), Err(MiniRedisParseError::Incomplete)));
    let mut src = Cursor::new(b"\r\n");
    assert_eq!(get_line(&mut src).unwrap(), b"");
    assert_eq!(src.position(), 2);
}

#[test]
fn get_line_takes_the_first_break() {
    let mut src = Cursor::new(b"a\nb\rc\r\nd\r\n");
    assert_eq!(get_line(&mut src).unwrap(), b"a\nb\rc");
    assert_eq!(get_line(&mut src).unwrap(), b"d");
}

#[test]
fn get_decimal_reads_a_line() {
    let mut src = Cursor::new(b"123\r\n045\r\nx\r\n6");
    assert_eq!(get_decimal(&mut src).unwrap(), 123);
    assert_eq!(src.position(), 5);
    assert_eq!(get_decimal(&mut src).unwrap(), 45);
    match get_decimal(&mut src) {
        Err(MiniRedisParseError::Parse(message)) => {
            assert_eq!(message, "protocol error; invalid frame format to get decimal");
        }
        other => panic!("expected a parse error, got {:?}", other),
    }
    assert!(matches!(get_decimal(&mut src), Err(MiniRedisParseError::Incomplete)));
}
