use chat_security::error::{ChatError, FormatError};
use chat_security::message::{message, Message};
use chat_security::text::char_is_whitespace;

fn msg(sender: &str, to: &str, contents: &str, timestamp: u64) -> Message {
    Message {
        sender_id: sender.to_string(),
        to_id: to.to_string(),
        contents: contents.to_string(),
        timestamp,
    }
}

fn format_error<T: std::fmt::Debug>(r: Result<T, ChatError>) -> FormatError {
    match r {
        Err(ChatError::Format(e)) => e,
        other => panic!("expected a format error, got {:?}", other),
    }
}

/// The same rules written with the standard library's own line splitting,
/// trimming and number parsing.
fn parse_with_std(text: &str) -> Result<Message, FormatError> {
    let lines: Vec<&str> = text.lines().collect();
    if lines.len() < 2 {
        return Err(FormatError::MissingLines);
    }
    let parts: Vec<&str> = lines[0].split("->").collect();
    if parts.len() != 2 {
        return Err(FormatError::Header);
    }
    let timestamp = match lines[1].trim().parse::<u64>() {
        Ok(timestamp) => timestamp,
        Err(_) => return Err(FormatError::Timestamp),
    };
    Ok(Message {
        sender_id: parts[0].trim().to_string(),
        to_id: parts[1].trim().to_string(),
        contents: lines[2..].join("\n").trim().to_string(),
        timestamp,
    })
}

fn agrees_with_std(text: &str) {
    let expected = parse_with_std(text);
    match Message::from_string(text.to_string()) {
        Ok(m) => assert_eq!(Ok(m), expected, "text {:?}", text),
        Err(ChatError::Format(e)) => assert_eq!(Err(e), expected, "text {:?}", text),
        Err(other) => panic!("text {:?} gave {:?}", text, other),
    }
}

#[test]
fn test_message_formatting() {
    let msg = Message {
        sender_id: "alice".to_string(),
        to_id: "bob".to_string(),
        contents: "Hello!".to_string(),
        timestamp: 1234567890,
    };

    let formatted = msg.to_string();
    let parsed = Message::from_string(formatted).unwrap();

    assert_eq!(parsed.sender_id, "alice");
    assert_eq!(parsed.to_id, "bob");
    assert_eq!(parsed.contents, "Hello!");
    assert_eq!(parsed.timestamp, 1234567890);
}

#[test]
fn text_form_has_three_lines() {
    let text = msg("alice", "bob", "Hello!", 1234567890).to_string();
    assert_eq!(text, "alice -> bob\n1234567890\nHello!");
}

#[test]
fn text_form_of_empty_fields() {
    assert_eq!(msg("", "", "", 0).to_string(), " -> \n0\n");
}

#[test]
fn timestamps_are_written_in_decimal() {
    for t in [0u64, 1, 9, 10, 11, 99, 100, 1234567890, u64::MAX - 1, u64::MAX] {
        let text = msg("a", "b", "c", t).to_string();
        assert_eq!(text, format!("a -> b\n{}\nc", t));
    }
    assert_eq!(msg("a", "b", "c", u64::MAX).to_string(), "a -> b\n18446744073709551615\nc");
}

#[test]
fn canonical_messages_round_trip() {
    let samples = [
        msg("alice", "bob", "Hello!", 1234567890),
        msg("", "", "", 0),
        msg("a b", "c\td", "one\ntwo\n\nfour", 7),
        msg("a-", ">b", "x -> y", u64::MAX),
        msg("\u{00e9}t\u{00e9}", "\u{4f60}\u{597d}", "\u{1f980} crab\rcarriage", 42),
        msg("alice", "bob", "/quit", 0),
    ];
    for m in samples {
        assert_eq!(Message::from_string(m.to_string()), Ok(m.clone()));
    }
}

#[test]
fn names_and_contents_are_trimmed() {
    let text = "  alice \t->\u{3000}bob \n 12 \n\n  hi there \n\n";
    let parsed = Message::from_string(text.to_string());
    assert_eq!(parsed, Ok(msg("alice", "bob", "hi there", 12)));
}

#[test]
fn untrimmed_message_does_not_round_trip() {
    let m = msg(" alice", "bob", "Hello! ", 5);
    assert_eq!(Message::from_string(m.to_string()), Ok(msg("alice", "bob", "Hello!", 5)));
}

#[test]
fn carriage_returns_before_line_feeds_are_dropped() {
    let parsed = Message::from_string("a -> b\r\n1\r\nx\r\ny\r\r\nz\rw\r\n".to_string());
    assert_eq!(parsed, Ok(msg("a", "b", "x\ny\r\nz\rw", 1)));
    let m = msg("a", "b", "x\r\ny", 1);
    assert_eq!(Message::from_string(m.to_string()), Ok(msg("a", "b", "x\ny", 1)));
}

#[test]
fn contents_may_be_missing() {
    assert_eq!(Message::from_string("a -> b\n3".to_string()), Ok(msg("a", "b", "", 3)));
    assert_eq!(Message::from_string("a -> b\n3\n".to_string()), Ok(msg("a", "b", "", 3)));
}

#[test]
fn fewer_than_two_lines_are_refused() {
    for text in ["", "a -> b", "a -> b\n", "\n", "a -> b\r\n", "no arrow"] {
        assert_eq!(
            format_error(Message::from_string(text.to_string())),
            FormatError::MissingLines,
            "text {:?}",
            text
        );
    }
}

#[test]
fn header_needs_exactly_one_arrow() {
    let texts = ["alice bob\n1\nx", "a -> b -> c\n1\nx", "a->b->\n1\nx", "\n1\nx", "a - > b\n1\nx"];
    for text in texts {
        assert_eq!(
            format_error(Message::from_string(text.to_string())),
            FormatError::Header,
            "text {:?}",
            text
        );
    }
    let m = msg("a->b", "c", "x", 1);
    assert_eq!(format_error(Message::from_string(m.to_string())), FormatError::Header);
    assert_eq!(Message::from_string("-->\n1\n".to_string()), Ok(msg("-", "", "", 1)));
}

#[test]
fn header_is_checked_before_timestamp() {
    assert_eq!(
        format_error(Message::from_string("no arrow\nnot a number\nx".to_string())),
        FormatError::Header
    );
}

#[test]
fn timestamp_must_be_an_unsigned_number() {
    let stamps = [
        "",
        " ",
        "abc",
        "-1",
        "+",
        "++1",
        "1 2",
        "12a",
        "1.5",
        "0x10",
        "18446744073709551616",
        "99999999999999999999999",
        "\u{0661}",
    ];
    for stamp in stamps {
        let text = format!("a -> b\n{}\nx", stamp);
        assert_eq!(
            format_error(Message::from_string(text)),
            FormatError::Timestamp,
            "stamp {:?}",
            stamp
        );
    }
}

#[test]
fn timestamp_may_carry_a_plus_and_zeros() {
    assert_eq!(Message::from_string("a -> b\n+42\nx".to_string()), Ok(msg("a", "b", "x", 42)));
    assert_eq!(Message::from_string("a -> b\n00042\nx".to_string()), Ok(msg("a", "b", "x", 42)));
    assert_eq!(
        Message::from_string("a -> b\n18446744073709551615\nx".to_string()),
        Ok(msg("a", "b", "x", u64::MAX))
    );
    assert_eq!(
        Message::from_string("a -> b\n+000018446744073709551615\nx".to_string()),
        Ok(msg("a", "b", "x", u64::MAX))
    );
}

#[test]
fn newline_in_a_name_breaks_the_header() {
    let m = msg("ali\nce", "bob", "Hello!", 5);
    assert_eq!(format_error(Message::from_string(m.to_string())), FormatError::Header);
}

#[test]
fn parsing_agrees_with_the_standard_library_on_short_texts() {
    let alphabet = ['a', '-', '>', '\n', '\r', ' ', '1', '+'];
    let mut texts: Vec<String> = vec![String::new()];
    let mut start = 0;
    for _ in 0..5 {
        let end = texts.len();
        for i in start..end {
            for c in alphabet {
                let mut t = texts[i].clone();
                t.push(c);
                texts.push(t);
            }
        }
        start = end;
    }
    assert_eq!(texts.len(), 1 + 8 + 64 + 512 + 4096 + 32768);
    for t in &texts {
        agrees_with_std(t);
    }
}

#[test]
fn parsing_agrees_with_the_standard_library_on_composed_texts() {
    let headers = [
        "a -> b",
        "a->b",
        " a  ->  b ",
        "->",
        "a -> b -> c",
        "ab",
        "",
        "a -> b\r",
        "-->",
        "->>",
        "\u{a0}x\u{2003}->\u{85}y\u{3000}",
        "a\r -> b",
    ];
    let stamps = [
        "0",
        "7",
        "+7",
        " 12 ",
        "12\r",
        "",
        "x",
        "-3",
        "18446744073709551615",
        "18446744073709551616",
        "007",
        "+",
        "1\t",
    ];
    let bodies = [
        "",
        "x",
        " x ",
        "x\ny",
        "x\r\ny",
        "x\r\r\ny",
        "\r\nx",
        "x\r\n",
        "x\n\n",
        "\n\nx\n\n",
        "x\r",
        "\r",
        "\r\n\r\n",
        "a -> b\n1\nc",
        "\u{2028}x\u{2029}",
    ];
    let breaks = ["\n", "\r\n"];
    for h in headers {
        for s in stamps {
            for b in bodies {
                for first in breaks {
                    for second in breaks {
                        agrees_with_std(&format!("{}{}{}{}{}", h, first, s, second, b));
                    }
                }
                agrees_with_std(&format!("{}\n{}", h, s));
            }
        }
        agrees_with_std(h);
    }
}

#[test]
fn whitespace_is_what_the_standard_library_calls_whitespace() {
    for code in 0..=0x10FFFFu32 {
        if let Some(c) = char::from_u32(code) {
            assert_eq!(char_is_whitespace(c), c.is_whitespace(), "character {:?}", c);
        }
    }
}

#[test]
fn displayable_joins_sender_and_contents() {
    assert_eq!(msg("alice", "bob", "Hello!", 1).displayable(), "alice: Hello!");
    assert_eq!(msg("", "bob", "", 1).displayable(), ": ");
}

#[test]
fn zero_timestamp_is_the_termination_notice() {
    assert!(msg("a", "b", "bye", 0).is_termination());
    assert!(!msg("a", "b", "bye", 1).is_termination());
}

#[test]
fn message_is_addressed_to_the_default_recipient() {
    let m = message("Hello!", "alice", 1234567890);
    assert_eq!(m, msg("alice", "Reciever", "Hello!", 1234567890));
}
