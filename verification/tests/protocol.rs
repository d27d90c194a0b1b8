use phpstan_diagnostics_lsp::protocol::{frame_message, read_header_line, HeaderStep};

#[test]
fn frames_a_message_with_its_length() {
    assert_eq!(
        frame_message(br#"{"a":1}"#),
        b"Content-Length: 7\r\n\r\n{\"a\":1}".to_vec()
    );
    assert_eq!(frame_message(b""), b"Content-Length: 0\r\n\r\n".to_vec());
}

#[test]
fn reads_back_the_header_it_writes() {
    let framed = frame_message(b"hello");
    let text = String::from_utf8(framed).unwrap();
    let mut lines = text.split_inclusive('\n');
    let first = lines.next().unwrap();
    let step = read_header_line(first, None);
    assert_eq!(step, HeaderStep::Continue(Some(5)));
    let second = lines.next().unwrap();
    assert_eq!(read_header_line(second, Some(5)), HeaderStep::EndOfHeaders);
    assert_eq!(lines.next(), Some("hello"));
}

#[test]
fn reads_header_lines() {
    assert_eq!(
        read_header_line("Content-Length: 42\r\n", None),
        HeaderStep::Continue(Some(42))
    );
    assert_eq!(
        read_header_line("Content-Length:+7\n", None),
        HeaderStep::Continue(Some(7))
    );
    assert_eq!(
        read_header_line("Content-Type: application/json\r\n", Some(3)),
        HeaderStep::Continue(Some(3))
    );
    assert_eq!(
        read_header_line("Content-Length: many\r\n", Some(3)),
        HeaderStep::Continue(None)
    );
    assert_eq!(
        read_header_line("Content-Length: 99999999999999999999999\r\n", None),
        HeaderStep::Continue(None)
    );
    assert_eq!(
        read_header_line("content-length: 5\r\n", None),
        HeaderStep::Continue(None)
    );
    assert_eq!(read_header_line("\n", None), HeaderStep::EndOfHeaders);
    assert_eq!(read_header_line("\r\n\r\n", None), HeaderStep::EndOfHeaders);
}

use phpstan_diagnostics_lsp::json::{encode_body, parse_body, JsonValue};
use phpstan_diagnostics_lsp::protocol::{encode_message, MessageReader, ReadStep};

fn read_back(bytes: &[u8]) -> Option<JsonValue> {
    let text = std::str::from_utf8(bytes).unwrap();
    let mut reader = MessageReader::new();
    let mut offset = 0;
    for line in text.split_inclusive('\n') {
        offset += line.len();
        match reader.on_line(line) {
            ReadStep::NextLine => {}
            ReadStep::ReadBody(length) => {
                return Some(parse_body(&bytes[offset..offset + length]).unwrap());
            }
            ReadStep::NoMessage => return None,
        }
    }
    None
}

#[test]
fn round_trips_lsp_message() {
    let message = parse_body(br#"{"jsonrpc": "2.0", "id": 1, "method": "initialize"}"#).unwrap();
    let encoded = encode_message(&message);
    let decoded = read_back(&encoded).unwrap();
    assert_eq!(format!("{:?}", decoded), format!("{:?}", message));
}

#[test]
fn parses_and_writes_json_bodies() {
    let value = parse_body(br#"{"b": [1, 2.5, "x"], "a": null}"#).unwrap();
    let JsonValue::Object(members) = &value else {
        panic!("expected an object");
    };
    assert_eq!(members.len(), 2);
    assert_eq!(members[0].0, "a");
    assert!(matches!(members[0].1, JsonValue::Null));
    assert_eq!(encode_body(&value), br#"{"a":null,"b":[1,2.5,"x"]}"#.to_vec());
    assert!(parse_body(b"{").is_err());
    assert_eq!(
        encode_message(&JsonValue::Bool(true)),
        b"Content-Length: 4\r\n\r\ntrue".to_vec()
    );
}

#[test]
fn header_without_length_gives_no_message() {
    let mut reader = MessageReader::new();
    assert_eq!(reader.on_line("Content-Type: x\r\n"), ReadStep::NextLine);
    assert_eq!(reader.on_line("\r\n"), ReadStep::NoMessage);
    let mut reader = MessageReader::new();
    assert_eq!(reader.on_line("Content-Length: 3\r\n"), ReadStep::NextLine);
    assert_eq!(reader.content_length, Some(3));
    assert_eq!(reader.on_line("\r\n"), ReadStep::ReadBody(3));
}
