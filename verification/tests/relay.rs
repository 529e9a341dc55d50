use kubeterm::relay::{Phase, Publish, ReadOutcome, Relay};

fn run(relay: &mut Relay, reads: Vec<ReadOutcome>) -> Vec<Publish> {
    let mut events = Vec::new();
    for read in reads {
        match relay.on_read(read) {
            Publish::Nothing => {}
            event => events.push(event),
        }
    }
    events
}

#[test]
fn chunks_are_published_in_order_then_one_end() {
    let mut relay = Relay::new();
    let events = run(
        &mut relay,
        vec![
            ReadOutcome::Chunk(b"hello ".to_vec()),
            ReadOutcome::Chunk(b"\x1b[31mred\x1b[0m".to_vec()),
            ReadOutcome::Chunk(b"$ ".to_vec()),
            ReadOutcome::Chunk(Vec::new()),
        ],
    );
    assert_eq!(
        events,
        vec![
            Publish::Output("hello ".to_string()),
            Publish::Output("\u{1b}[31mred\u{1b}[0m".to_string()),
            Publish::Output("$ ".to_string()),
            Publish::Ended,
        ]
    );
    assert!(relay.has_ended());
}

#[test]
fn repeated_zero_length_reads_end_once() {
    let mut relay = Relay::new();
    let events = run(
        &mut relay,
        vec![
            ReadOutcome::Chunk(b"a".to_vec()),
            ReadOutcome::Chunk(Vec::new()),
            ReadOutcome::Chunk(Vec::new()),
            ReadOutcome::Chunk(Vec::new()),
            ReadOutcome::Failed,
            ReadOutcome::Chunk(b"late".to_vec()),
        ],
    );
    assert_eq!(events, vec![Publish::Output("a".to_string()), Publish::Ended]);
    let ended = events.iter().filter(|e| matches!(e, Publish::Ended)).count();
    assert_eq!(ended, 1);
}

#[test]
fn read_error_ends_the_stream() {
    let mut relay = Relay::new();
    assert_eq!(relay.on_read(ReadOutcome::Failed), Publish::Ended);
    assert!(relay.has_ended());
    assert_eq!(relay.on_read(ReadOutcome::Chunk(b"x".to_vec())), Publish::Nothing);
    assert_eq!(relay.on_read(ReadOutcome::Failed), Publish::Nothing);
}

#[test]
fn empty_stream_publishes_only_the_end() {
    let mut relay = Relay::new();
    assert!(!relay.has_ended());
    assert_eq!(relay.on_read(ReadOutcome::Chunk(Vec::new())), Publish::Ended);
    assert_eq!(relay.on_read(ReadOutcome::Chunk(Vec::new())), Publish::Nothing);
}

#[test]
fn invalid_bytes_are_passed_on_lossily() {
    let mut relay = Relay::new();
    let bytes = vec![b'o', b'k', 0xFF, 0xFE, b'!', 0xE2, 0x82];
    let expected = String::from_utf8_lossy(&bytes).to_string();
    assert_eq!(expected, "ok\u{FFFD}\u{FFFD}!\u{FFFD}");
    assert_eq!(relay.on_read(ReadOutcome::Chunk(bytes)), Publish::Output(expected));
    assert!(!relay.has_ended());
}

#[test]
fn multi_byte_text_is_decoded() {
    let mut relay = Relay::new();
    let text = "naïve ✓ 日本";
    assert_eq!(
        relay.on_read(ReadOutcome::Chunk(text.as_bytes().to_vec())),
        Publish::Output(text.to_string())
    );
}

#[test]
fn failed_publish_ends_the_relay_once() {
    let mut relay = Relay::new();
    assert_eq!(relay.on_read(ReadOutcome::Chunk(b"x".to_vec())), Publish::Output("x".to_string()));
    assert_eq!(relay.on_publish_failed(), Publish::Ended);
    assert!(relay.has_ended());
    assert_eq!(relay.on_publish_failed(), Publish::Nothing);
    assert_eq!(relay.on_read(ReadOutcome::Chunk(Vec::new())), Publish::Nothing);
}

#[test]
fn stop_then_end_of_stream_notifies_once() {
    let mut relay = Relay::new();
    assert_eq!(relay.phase(), Phase::Running);
    assert_eq!(relay.on_stop(), Publish::Ended);
    assert_eq!(relay.phase(), Phase::Ending);
    assert_eq!(relay.on_read(ReadOutcome::Chunk(Vec::new())), Publish::Nothing);
    assert_eq!(relay.on_stop(), Publish::Nothing);
    relay.on_release();
    assert_eq!(relay.phase(), Phase::Closed);
    assert_eq!(relay.on_read(ReadOutcome::Failed), Publish::Nothing);
}

#[test]
fn release_of_a_running_session_changes_nothing() {
    let mut relay = Relay::new();
    relay.on_release();
    assert_eq!(relay.phase(), Phase::Running);
    assert_eq!(relay.on_read(ReadOutcome::Chunk(Vec::new())), Publish::Ended);
    assert_eq!(relay.phase(), Phase::Ending);
    relay.on_release();
    relay.on_release();
    assert_eq!(relay.phase(), Phase::Closed);
}
