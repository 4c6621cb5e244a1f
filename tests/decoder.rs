use imap_fetcher::decoder::{announced_message, literal_length, DecodeEvent, DecoderState, ResponseDecoder};

fn fetch_stream(id: u32, body: &[u8]) -> Vec<u8> {
    let mut v = format!("* {} FETCH (BODY[] {{{}}}\r\n", id, body.len()).into_bytes();
    v.extend_from_slice(body);
    v.extend_from_slice(b")\r\n");
    v
}

fn sample_body() -> Vec<u8> {
    (0..120u32).map(|i| ((i * 37 + 11) % 256) as u8).collect()
}

fn collect_in_chunks(input: &[u8], chunk: usize) -> Vec<DecodeEvent> {
    let mut d = ResponseDecoder::new();
    let mut out = Vec::new();
    for piece in input.chunks(chunk) {
        out.extend(d.feed(piece));
    }
    out
}

#[test]
fn literal_round_trip() {
    let body = sample_body();
    let mut input = fetch_stream(7, &body);
    input.extend_from_slice(b"A003 OK FETCH completed\r\n");
    for chunk in [input.len(), 1, 2, 7, 64] {
        let events = collect_in_chunks(&input, chunk);
        assert_eq!(events.len(), 2);
        match &events[0] {
            DecodeEvent::Message { id, body: got } => {
                assert_eq!(*id, 7);
                assert_eq!(got, &body);
            }
            other => panic!("unexpected event {:?}", other),
        }
        assert!(matches!(events[1], DecodeEvent::Completed { saved: 1 }));
    }
}

#[test]
fn literal_bytes_that_look_like_syntax_are_kept() {
    let body = b"line one\r\nA003 OK fake\r\n) trailing (\r\n".to_vec();
    let mut input = fetch_stream(3, &body);
    input.extend_from_slice(b"A003 OK done\r\n");
    let events = collect_in_chunks(&input, 5);
    assert_eq!(events.len(), 2);
    assert!(matches!(&events[0], DecodeEvent::Message { id: 3, body: b } if *b == body));
    assert!(matches!(events[1], DecodeEvent::Completed { saved: 1 }));
}

#[test]
fn zero_length_literal_is_saved_empty() {
    let mut input = fetch_stream(4, b"");
    input.extend_from_slice(b"A003 OK done\r\n");
    let events = collect_in_chunks(&input, 3);
    assert_eq!(events.len(), 2);
    assert!(matches!(&events[0], DecodeEvent::Message { id: 4, body } if body.is_empty()));
    assert!(matches!(events[1], DecodeEvent::Completed { saved: 1 }));
}

#[test]
fn several_messages_in_one_answer() {
    let mut input = fetch_stream(1, b"first");
    input.extend(fetch_stream(2, b"second!"));
    input.extend_from_slice(b"A003 OK done\r\n");
    let events = collect_in_chunks(&input, 4);
    assert_eq!(events.len(), 3);
    assert!(matches!(&events[0], DecodeEvent::Message { id: 1, body } if body == b"first"));
    assert!(matches!(&events[1], DecodeEvent::Message { id: 2, body } if body == b"second!"));
    assert!(matches!(events[2], DecodeEvent::Completed { saved: 2 }));
}

#[test]
fn tagged_failure_is_reported() {
    let events = collect_in_chunks(b"* 1 EXISTS\r\nA003 NO fetch refused\r\n", 6);
    assert_eq!(events.len(), 1);
    match &events[0] {
        DecodeEvent::Failed { line } => assert_eq!(line, b"A003 NO fetch refused"),
        other => panic!("unexpected event {:?}", other),
    }
    let events = collect_in_chunks(b"A003 BAD syntax\r\n", 100);
    assert!(matches!(&events[0], DecodeEvent::Failed { .. }));
}

#[test]
fn tagged_line_without_verdict_is_ignored() {
    let events = collect_in_chunks(b"A003 still working\r\nA003 OK\r\n", 100);
    assert_eq!(events.len(), 1);
    assert!(matches!(events[0], DecodeEvent::Completed { saved: 0 }));
}

#[test]
fn malformed_announcement_is_skipped() {
    let mut d = ResponseDecoder::new();
    let events = d.feed(b"* x FETCH (BODY[] {5}\r\n");
    assert!(events.is_empty());
    assert_eq!(d.state(), DecoderState::ReadingLine);
    let events = d.feed(b"* 9 FETCH (BODY[] {abc}\r\n");
    assert!(events.is_empty());
    assert_eq!(d.state(), DecoderState::ReadingLine);
}

#[test]
fn announcement_enters_literal_state() {
    let mut d = ResponseDecoder::new();
    assert!(d.feed(b"* 12 FETCH (BODY[] {3}\r\n").is_empty());
    assert_eq!(d.state(), DecoderState::ReadingLiteral { remaining: 3 });
    assert!(d.feed(b"ab").is_empty());
    assert_eq!(d.state(), DecoderState::ReadingLiteral { remaining: 1 });
    let events = d.feed(b"c");
    assert!(matches!(&events[0], DecodeEvent::Message { id: 12, body } if body == b"abc"));
    assert_eq!(d.state(), DecoderState::SkippingToDelimiter);
    assert!(d.feed(b" x)").is_empty());
    assert_eq!(d.state(), DecoderState::ReadingLine);
    assert_eq!(d.saved(), 1);
}

#[test]
fn bytes_after_completion_are_left_alone() {
    let events = collect_in_chunks(b"A003 OK\r\nA003 NO\r\n", 100);
    assert_eq!(events.len(), 1);
    assert!(matches!(events[0], DecodeEvent::Completed { saved: 0 }));
}

#[test]
fn custom_tag_is_honoured() {
    let mut d = ResponseDecoder::with_tag(b"T7".to_vec());
    let events = d.feed(b"A003 OK\r\nT7 OK\r\n");
    assert_eq!(events.len(), 1);
    assert!(matches!(events[0], DecodeEvent::Completed { saved: 0 }));
}

#[test]
fn announcement_fields_are_read() {
    assert_eq!(announced_message(b"* 42 FETCH (BODY[] {9}"), Some(42));
    assert_eq!(announced_message(b"42 FETCH"), None);
    assert_eq!(literal_length(b"* 42 FETCH (BODY[] {9}"), Some(9));
    assert_eq!(literal_length(b"} {"), None);
    assert_eq!(literal_length(b"{4294967296}"), None);
}
