use codex_lsp::codec::{json_to_string, parse_json};
use codex_lsp::json::Json;
use codex_lsp::protocol::{
    encode_message, find_header_end, frame_body, inspect_frame, parse_content_length,
    read_header_line, FrameStatus, HeaderLine, MessageReader, ProtocolError, ReadStep,
    MAX_HEADER_BYTES, MAX_MESSAGE_BYTES,
};
use codex_lsp::text::NumberError;

fn document(text: &str) -> Json {
    parse_json(text.as_bytes()).expect("a document")
}

fn message(step: Result<ReadStep, ProtocolError>) -> String {
    match step {
        Ok(ReadStep::Message(message)) => json_to_string(&message),
        other => panic!("no message: {other:?}"),
    }
}

fn header_line(text: &str) -> HeaderLine {
    let chars: Vec<char> = text.chars().collect();
    read_header_line(&chars)
}

#[test]
fn encode_message_adds_content_length() {
    let value = Json::object().with("jsonrpc", Json::text("2.0"));
    let bytes = encode_message(&value).expect("encode");
    let text = String::from_utf8(bytes).expect("utf8");
    assert!(text.starts_with("Content-Length:"));
    assert!(text.contains(r#"{"jsonrpc":"2.0"}"#));
}

#[test]
fn reader_round_trips_one_message() {
    let value = Json::object()
        .with("jsonrpc", Json::text("2.0"))
        .with("id", Json::integer(1));
    let bytes = encode_message(&value).expect("encode");
    let mut reader = MessageReader::new(());
    assert!(matches!(reader.advance(), Ok(ReadStep::Read)));
    assert_eq!(message(reader.receive(&bytes)), json_to_string(&value));
    assert!(matches!(reader.receive(&[]), Ok(ReadStep::Closed)));
}

#[test]
fn cancelled_read_retains_partial_frame() {
    let value = Json::object()
        .with("jsonrpc", Json::text("2.0"))
        .with("id", Json::integer(1));
    let bytes = encode_message(&value).unwrap();
    let split = bytes.len() - 3;
    let mut reader = MessageReader::new(());
    assert!(matches!(reader.receive(&bytes[..split]), Ok(ReadStep::Read)));
    assert!(matches!(reader.advance(), Ok(ReadStep::Read)));
    assert_eq!(message(reader.receive(&bytes[split..])), json_to_string(&value));
}

#[test]
fn reader_rejects_oversized_message() {
    let frame = format!("Content-Length: {}\r\n\r\n", MAX_MESSAGE_BYTES + 1);
    let mut reader = MessageReader::new(());
    assert!(reader.receive(frame.as_bytes()).is_err());
}

#[test]
fn reader_returns_none_on_empty() {
    let mut reader = MessageReader::new(());
    assert!(matches!(reader.receive(&[]), Ok(ReadStep::Closed)));
}

#[test]
fn encoded_message_is_header_and_compact_body() {
    let value = document(" { \"b\" : [ 1 , null ] , \"a\" : \"\\u00e9\" } ");
    let bytes = encode_message(&value).unwrap();
    let body = "{\"a\":\"\u{e9}\",\"b\":[1,null]}";
    assert_eq!(bytes, format!("Content-Length: {}\r\n\r\n{body}", body.len()).into_bytes());
}

#[test]
fn reader_takes_messages_in_order_however_the_bytes_are_cut() {
    let values = [
        document(r#"{"id":1,"result":null}"#),
        document(r#"[true,"\r\n\r\n",{"Content-Length":5}]"#),
        document("-7"),
    ];
    let mut bytes: Vec<u8> = Vec::new();
    for value in &values {
        bytes.extend(encode_message(value).unwrap());
    }
    for size in [1, 2, 3, 7, 20, bytes.len()] {
        let mut reader = MessageReader::new(());
        let mut found: Vec<String> = Vec::new();
        for chunk in bytes.chunks(size) {
            let mut step = reader.receive(chunk);
            while let Ok(ReadStep::Message(message)) = step {
                found.push(json_to_string(&message));
                step = reader.advance();
            }
            assert!(matches!(step, Ok(ReadStep::Read)));
        }
        let expected: Vec<String> = values.iter().map(json_to_string).collect();
        assert_eq!(found, expected);
        assert!(matches!(reader.receive(&[]), Ok(ReadStep::Closed)));
    }
}

#[test]
fn what_follows_a_frame_is_left_for_the_next() {
    let mut bytes = encode_message(&Json::Null).unwrap();
    bytes.extend_from_slice(b"Content-Length: 4\r\n\r\ntr");
    let mut reader = MessageReader::new(());
    assert_eq!(message(reader.receive(&bytes)), "null");
    assert!(matches!(reader.advance(), Ok(ReadStep::Read)));
    assert_eq!(message(reader.receive(b"ue")), "true");
}

#[test]
fn input_that_ends_inside_a_frame_is_an_error() {
    let mut reader = MessageReader::new(());
    assert!(matches!(reader.receive(b"Content-Length: 4\r\n\r\ntr"), Ok(ReadStep::Read)));
    assert!(matches!(reader.receive(&[]), Err(ProtocolError::UnexpectedEof)));
    let mut header = MessageReader::new(());
    assert!(matches!(header.receive(b"C"), Ok(ReadStep::Read)));
    assert!(matches!(header.receive(&[]), Err(ProtocolError::UnexpectedEof)));
}

#[test]
fn body_that_is_no_json_is_an_error_and_stays_in_the_buffer() {
    let mut reader = MessageReader::new(());
    assert!(matches!(
        reader.receive(b"Content-Length: 3\r\n\r\n{]}"),
        Err(ProtocolError::InvalidJson(_))
    ));
    match reader.advance() {
        Err(error) => {
            assert_eq!(error.message(), "parsing LSP message");
            assert_eq!(error.cause(), Some("key must be a string at line 1 column 2"));
        }
        other => panic!("no error: {other:?}"),
    }
}

#[test]
fn body_must_fill_its_length() {
    let mut reader = MessageReader::new(());
    assert!(matches!(
        reader.receive(b"Content-Length: 5\r\n\r\nnullx"),
        Err(ProtocolError::InvalidJson(_))
    ));
    let mut padded = MessageReader::new(());
    assert_eq!(message(padded.receive(b"Content-Length: 5\r\n\r\nnull ")), "null");
}

#[test]
fn reader_keeps_its_source_at_hand() {
    let mut reader = MessageReader::new(vec![1, 2, 3]);
    reader.reader_mut().push(4);
    assert_eq!(*reader.reader_mut(), vec![1, 2, 3, 4]);
}

#[test]
fn taking_a_frame_depends_on_its_body() {
    let mut reader = MessageReader::new(());
    assert!(matches!(reader.receive(b"Content-"), Ok(ReadStep::Read)));
    match reader.take_frame(3, Err("reason".to_string())) {
        Err(error) => assert_eq!(error, ProtocolError::InvalidJson("reason".to_string())),
        other => panic!("no error: {other:?}"),
    }
    assert_eq!(message(reader.take_frame(8, Ok(Json::Null))), "null");
    assert!(matches!(reader.receive(&[]), Ok(ReadStep::Closed)));
}

#[test]
fn header_end_is_behind_the_first_blank_line() {
    assert_eq!(find_header_end(b""), None);
    assert_eq!(find_header_end(b"\r\n\r"), None);
    assert_eq!(find_header_end(b"\r\n\r\n"), Some(4));
    assert_eq!(find_header_end(b"a\r\n\r\r\n\r\nb\r\n\r\n"), Some(8));
    assert_eq!(find_header_end(b"a\n\nb"), None);
}

#[test]
fn content_length_of_header_blocks() {
    assert_eq!(parse_content_length(b"Content-Length: 17\r\n\r\n"), Ok(17));
    assert_eq!(parse_content_length(b"content-LENGTH:\t0017  \r\n\r\n"), Ok(17));
    assert_eq!(parse_content_length(b"Content-Length: +17\r\n\r\n"), Ok(17));
    assert_eq!(parse_content_length(b"Content-Length:17"), Ok(17));
    assert_eq!(
        parse_content_length(
            b"Content-Type: application/vscode-jsonrpc; charset=utf-8\r\nContent-Length: 2\r\n\r\n"
        ),
        Ok(2)
    );
    assert_eq!(parse_content_length("X: \u{e9}\nContent-Length:\u{a0}3\n".as_bytes()), Ok(3));
}

#[test]
fn content_length_errors() {
    for header in [&b"Content-Length: \xff\r\n\r\n"[..], &b"X: 1\r\n\xe2\x82"[..]] {
        let cause = std::str::from_utf8(header).unwrap_err().to_string();
        assert_eq!(parse_content_length(header), Err(ProtocolError::NonUtf8Header(cause)));
    }
    assert_eq!(
        parse_content_length(b"Content-Length 17\r\n\r\n"),
        Err(ProtocolError::MalformedHeaderLine)
    );
    assert_eq!(
        parse_content_length(b"Content-Length: 1\r\nContent-Length: 1\r\n\r\n"),
        Err(ProtocolError::DuplicateContentLength)
    );
    assert_eq!(
        parse_content_length(b"X: 1\r\n\r\n"),
        Err(ProtocolError::MissingContentLength)
    );
    assert_eq!(parse_content_length(b"\r\n"), Err(ProtocolError::MissingContentLength));
    for (value, cause) in [
        ("", NumberError::Empty),
        ("-1", NumberError::InvalidDigit),
        ("+", NumberError::InvalidDigit),
        ("++1", NumberError::InvalidDigit),
        ("1 2", NumberError::InvalidDigit),
        ("0x10", NumberError::InvalidDigit),
        ("99999999999999999999999", NumberError::TooLarge),
    ] {
        let header = format!("Content-Length: {value}\r\n\r\n");
        assert_eq!(
            parse_content_length(header.as_bytes()),
            Err(ProtocolError::InvalidContentLength(cause))
        );
    }
}

#[test]
fn first_wrong_header_line_decides_the_error() {
    assert_eq!(
        parse_content_length(b"Content-Length: x\r\nno colon\r\n"),
        Err(ProtocolError::InvalidContentLength(NumberError::InvalidDigit))
    );
    assert_eq!(
        parse_content_length(b"no colon\r\nContent-Length: x\r\n"),
        Err(ProtocolError::MalformedHeaderLine)
    );
    assert_eq!(
        parse_content_length(b"Content-Length: 1\r\nContent-Length: x\r\n"),
        Err(ProtocolError::DuplicateContentLength)
    );
}

#[test]
fn header_lines() {
    assert_eq!(header_line(""), HeaderLine::Blank);
    assert_eq!(header_line("\r"), HeaderLine::Malformed);
    assert_eq!(header_line("Content-Length"), HeaderLine::Malformed);
    assert_eq!(header_line("Content-Length: 5"), HeaderLine::Length(Ok(5)));
    assert_eq!(header_line("CONTENT-length:5:6"), HeaderLine::Length(Err(NumberError::InvalidDigit)));
    assert_eq!(header_line(" Content-Length: 5"), HeaderLine::Other);
    assert_eq!(header_line("Content-Length : 5"), HeaderLine::Other);
    assert_eq!(header_line(":"), HeaderLine::Other);
}

#[test]
fn frames_are_inspected() {
    assert_eq!(inspect_frame(b""), FrameStatus::Incomplete);
    assert_eq!(inspect_frame(b"Content-Length: 2\r\n\r\n{"), FrameStatus::Incomplete);
    assert_eq!(
        inspect_frame(b"Content-Length: 2\r\n\r\n{}Content"),
        FrameStatus::Complete { start: 21, end: 23 }
    );
    assert_eq!(
        inspect_frame(b"X: 1\r\n\r\n"),
        FrameStatus::Invalid(ProtocolError::MissingContentLength)
    );
}

#[test]
fn bytes_that_follow_change_nothing() {
    for start in ["Content-Length: 2\r\n\r\n{}", "oops\r\n\r\n"] {
        let status = inspect_frame(start.as_bytes());
        for more in ["", "x", "\r\n\r\n", "Content-Length: 9\r\n\r\n"] {
            assert_eq!(inspect_frame(format!("{start}{more}").as_bytes()), status);
        }
    }
}

#[test]
fn header_block_is_bounded() {
    let too_large = FrameStatus::Invalid(ProtocolError::HeaderTooLarge);
    let open = "a".repeat(MAX_HEADER_BYTES);
    assert_eq!(inspect_frame(open.as_bytes()), FrameStatus::Incomplete);
    assert_eq!(inspect_frame(format!("{open}a").as_bytes()), too_large);

    let rest = "Content-Length: 0\r\n\r\n";
    let padding = "x".repeat(MAX_HEADER_BYTES - rest.len() - 4);
    let fits = format!("X:{padding}\r\n{rest}");
    assert_eq!(fits.len(), MAX_HEADER_BYTES);
    assert_eq!(
        inspect_frame(fits.as_bytes()),
        FrameStatus::Complete { start: MAX_HEADER_BYTES, end: MAX_HEADER_BYTES }
    );
    assert_eq!(inspect_frame(format!("X{fits}").as_bytes()), too_large);
}

#[test]
fn message_size_is_bounded() {
    let fits = format!("Content-Length: {MAX_MESSAGE_BYTES}\r\n\r\n");
    assert_eq!(inspect_frame(fits.as_bytes()), FrameStatus::Incomplete);
    let over = format!("Content-Length: {}\r\n\r\n", MAX_MESSAGE_BYTES + 1);
    assert_eq!(
        inspect_frame(over.as_bytes()),
        FrameStatus::Invalid(ProtocolError::MessageTooLarge)
    );
    let body = vec![b'1'; MAX_MESSAGE_BYTES];
    assert_eq!(frame_body(&body).unwrap().len(), MAX_MESSAGE_BYTES + 28);
    let long = Json::String("x".repeat(MAX_MESSAGE_BYTES - 1));
    assert_eq!(encode_message(&long), Err(ProtocolError::MessageTooLarge));
    let longest = Json::String("x".repeat(MAX_MESSAGE_BYTES - 2));
    assert!(encode_message(&longest).is_ok());
}

#[test]
fn protocol_errors_have_texts_and_causes() {
    let cause = "cause".to_string();
    let texts = [
        (ProtocolError::HeaderTooLarge, "LSP header exceeds 8192 bytes", None),
        (ProtocolError::NonUtf8Header(cause.clone()), "non-UTF-8 LSP header", Some("cause")),
        (ProtocolError::MalformedHeaderLine, "malformed LSP header line", None),
        (ProtocolError::DuplicateContentLength, "duplicate Content-Length header", None),
        (
            ProtocolError::InvalidContentLength(NumberError::Empty),
            "invalid Content-Length",
            Some("cannot parse integer from empty string"),
        ),
        (
            ProtocolError::InvalidContentLength(NumberError::InvalidDigit),
            "invalid Content-Length",
            Some("invalid digit found in string"),
        ),
        (
            ProtocolError::InvalidContentLength(NumberError::TooLarge),
            "invalid Content-Length",
            Some("number too large to fit in target type"),
        ),
        (ProtocolError::MissingContentLength, "missing Content-Length header", None),
        (ProtocolError::MessageTooLarge, "LSP message exceeds 16777216 bytes", None),
        (ProtocolError::InvalidJson(cause), "parsing LSP message", Some("cause")),
        (ProtocolError::UnexpectedEof, "unexpected EOF in LSP frame", None),
    ];
    for (error, text, cause) in texts {
        assert_eq!(error.message(), text);
        assert_eq!(error.cause(), cause);
    }
}
