use sonicast::frame::{parse_greeting, prefixed, Error, FrameDecoder, Step};

#[test]
fn greeting_carries_protocol_version() {
    let proto = parse_greeting("OK MPD 0.23.5").unwrap();
    assert_eq!(proto.version, "0.23.5");
}

#[test]
fn greeting_with_wrong_tag_fails() {
    assert!(matches!(
        parse_greeting("HELLO 1.0"),
        Err(Error::ProtocolError { .. })
    ));
}

#[test]
fn prefixed_strips_only_a_leading_prefix() {
    assert_eq!(prefixed("ACK ", "ACK boom"), Some("boom"));
    assert_eq!(prefixed("ACK ", "OK"), None);
    assert_eq!(prefixed("ACK ", "xACK boom"), None);
}

#[test]
fn data_lines_collect_until_ok() {
    let mut dec = FrameDecoder::new();
    assert!(matches!(dec.feed_line("state: play"), Ok(Step::More)));
    assert!(matches!(dec.feed_line("volume: 50"), Ok(Step::More)));
    let frame = match dec.feed_line("OK") {
        Ok(Step::Frame(Ok(ok))) => ok,
        other => panic!("expected a completed frame, got {:?}", other),
    };
    assert_eq!(frame.attributes.get_one("state"), Some("play"));
    assert_eq!(frame.attributes.get_one("volume"), Some("50"));
    assert!(frame.binary.is_none());
}

#[test]
fn value_loses_at_most_one_leading_space() {
    let mut dec = FrameDecoder::new();
    dec.feed_line("a:  two spaces").unwrap();
    dec.feed_line("b:no space").unwrap();
    let frame = match dec.feed_line("OK") {
        Ok(Step::Frame(Ok(ok))) => ok,
        other => panic!("expected a completed frame, got {:?}", other),
    };
    assert_eq!(frame.attributes.get_one("a"), Some(" two spaces"));
    assert_eq!(frame.attributes.get_one("b"), Some("no space"));
}

#[test]
fn error_line_decodes_to_error_frame_with_verbatim_diagnostic() {
    // the error tag is stripped, the rest of the line is kept verbatim
    let mut dec = FrameDecoder::new();
    let err = match dec.feed_line("ACK [2@3]{play} message text") {
        Ok(Step::Frame(Err(e))) => e,
        other => panic!("expected an error frame, got {:?}", other),
    };
    assert_eq!(err.line, "[2@3]{play} message text");
}

#[test]
fn binary_segment_attaches_payload_to_ok_frame() {
    // `binary: 4`, exactly 4 bytes, one trailing newline byte
    let mut dec = FrameDecoder::new();
    let n = match dec.feed_line("binary: 4") {
        Ok(Step::Binary(n)) => n,
        other => panic!("expected a binary announcement, got {:?}", other),
    };
    assert_eq!(n, 4);
    dec.feed_binary(vec![9, 8, 7, 6], b'\n').unwrap();
    let frame = match dec.feed_line("OK") {
        Ok(Step::Frame(Ok(ok))) => ok,
        other => panic!("expected a completed frame, got {:?}", other),
    };
    assert_eq!(frame.binary, Some(vec![9, 8, 7, 6]));
}

#[test]
fn short_binary_segment_is_a_fatal_protocol_error() {
    // only 3 bytes arrive before the newline where 4 were announced
    let mut dec = FrameDecoder::new();
    assert!(matches!(dec.feed_line("binary: 4"), Ok(Step::Binary(4))));
    assert!(matches!(
        dec.feed_binary(vec![9, 8, 7], b'\n'),
        Err(Error::ProtocolError { .. })
    ));
}

#[test]
fn binary_without_trailing_newline_is_a_fatal_protocol_error() {
    let mut dec = FrameDecoder::new();
    assert!(matches!(dec.feed_line("binary: 2"), Ok(Step::Binary(2))));
    assert!(matches!(
        dec.feed_binary(vec![1, 2], b'x'),
        Err(Error::ProtocolError { .. })
    ));
}

#[test]
fn unparseable_binary_length_is_a_fatal_protocol_error() {
    let mut dec = FrameDecoder::new();
    assert!(matches!(
        dec.feed_line("binary: lots"),
        Err(Error::ProtocolError { .. })
    ));
}

#[test]
fn unrecognised_line_is_a_fatal_protocol_error() {
    let mut dec = FrameDecoder::new();
    assert!(matches!(
        dec.feed_line("what is this"),
        Err(Error::ProtocolError { .. })
    ));
}

#[test]
fn status_frame_decodes_end_to_end() {
    let mut dec = FrameDecoder::new();
    for line in [
        "volume: 50",
        "state: pause",
        "playlist: 3",
        "repeat: 1",
        "random: 0",
        "single: 0",
        "elapsed: 7.250",
    ] {
        assert!(matches!(dec.feed_line(line), Ok(Step::More)));
    }
    let frame = match dec.feed_line("OK") {
        Ok(Step::Frame(Ok(ok))) => ok,
        other => panic!("expected a completed frame, got {:?}", other),
    };
    let status = sonicast::types::Status::from_attributes(&frame.attributes).unwrap();
    assert_eq!(status.state, sonicast::types::PlaybackState::Pause);
    assert_eq!(status.volume, Some(50));
    assert_eq!(status.playlist_version, 3);
    assert_eq!(status.elapsed, Some(sonicast::types::Seconds::from_millis(7_250)));
    assert!(status.repeat && !status.random);
}

#[test]
fn decoder_is_fresh_after_each_frame() {
    let mut dec = FrameDecoder::new();
    dec.feed_line("a: 1").unwrap();
    let first = match dec.feed_line("OK") {
        Ok(Step::Frame(Ok(ok))) => ok,
        other => panic!("expected a completed frame, got {:?}", other),
    };
    assert_eq!(first.attributes.iter().len(), 1);
    let second = match dec.feed_line("OK") {
        Ok(Step::Frame(Ok(ok))) => ok,
        other => panic!("expected a completed frame, got {:?}", other),
    };
    assert_eq!(second.attributes.iter().len(), 0);
    assert!(second.binary.is_none());
}
