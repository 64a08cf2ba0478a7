use pty_sessions::reader::{reader_step, ReadOutcome, ReaderState, DEVICE_GONE, READ_BUFFER_SIZE};
use pty_sessions::PtyEvent;

fn data(bytes: &[u8]) -> ReadOutcome {
    ReadOutcome::Data { bytes: bytes.to_vec() }
}

fn failed(os_code: Option<i32>, message: &str) -> ReadOutcome {
    ReadOutcome::Failed { os_code, message: message.to_string() }
}

/// Runs a reader over a script of reads and returns what it reports.
fn run(script: Vec<ReadOutcome>) -> Vec<PtyEvent> {
    let mut state = ReaderState::Reading;
    let mut events = Vec::new();
    for outcome in script {
        let (next, event) = reader_step(state, outcome);
        state = next;
        events.extend(event);
    }
    events
}

#[test]
fn bytes_are_reported_as_they_were_read() {
    let (state, event) = reader_step(ReaderState::Reading, data(b"hello"));
    assert_eq!(state, ReaderState::Reading);
    match event {
        Some(PtyEvent::Output { data }) => assert_eq!(data, b"hello"),
        other => panic!("Expected Output, got {other:?}"),
    }
}

#[test]
fn empty_read_is_the_end_of_the_stream() {
    let (state, event) = reader_step(ReaderState::Reading, data(b""));
    assert_eq!(state, ReaderState::Finished);
    assert!(matches!(event, Some(PtyEvent::Exit { code: None })));
}

#[test]
fn closed_terminal_is_an_exit() {
    assert_eq!(DEVICE_GONE, 5);
    let (state, event) =
        reader_step(ReaderState::Reading, failed(Some(5), "Input/output error (os error 5)"));
    assert_eq!(state, ReaderState::Finished);
    assert!(matches!(event, Some(PtyEvent::Exit { code: None })));
}

#[test]
fn any_other_failure_is_an_error() {
    for code in [None, Some(0), Some(4), Some(6), Some(-5), Some(11)] {
        let (state, event) = reader_step(ReaderState::Reading, failed(code, "read failed"));
        assert_eq!(state, ReaderState::Finished);
        match event {
            Some(PtyEvent::Error { message }) => assert_eq!(message, "read failed"),
            other => panic!("Expected Error for {code:?}, got {other:?}"),
        }
    }
}

#[test]
fn finished_reader_is_silent() {
    for outcome in [data(b"late"), data(b""), failed(Some(5), "x"), failed(None, "y")] {
        let (state, event) = reader_step(ReaderState::Finished, outcome);
        assert_eq!(state, ReaderState::Finished);
        assert!(event.is_none());
    }
}

#[test]
fn reads_are_not_coalesced_and_nothing_follows_the_exit() {
    let events = run(vec![data(b"ab"), data(b"cd"), data(b""), data(b"ef"), failed(None, "z")]);
    assert_eq!(events.len(), 3);
    assert!(matches!(&events[0], PtyEvent::Output { data } if data == b"ab"));
    assert!(matches!(&events[1], PtyEvent::Output { data } if data == b"cd"));
    assert!(matches!(&events[2], PtyEvent::Exit { code: None }));
}

#[test]
fn nothing_follows_an_error() {
    let events = run(vec![data(b"ab"), failed(Some(9), "bad descriptor"), data(b"cd"), data(b"")]);
    assert_eq!(events.len(), 2);
    assert!(matches!(&events[1], PtyEvent::Error { message } if message == "bad descriptor"));
}

#[test]
fn outcome_holds_only_what_was_read() {
    let mut buffer = [0u8; READ_BUFFER_SIZE];
    buffer[..5].copy_from_slice(b"hello");
    match ReadOutcome::data(&buffer, 3) {
        ReadOutcome::Data { bytes } => assert_eq!(bytes, b"hel"),
        other => panic!("Expected Data, got {other:?}"),
    }
    match ReadOutcome::data(&buffer, 0) {
        ReadOutcome::Data { bytes } => assert!(bytes.is_empty()),
        other => panic!("Expected Data, got {other:?}"),
    }
    match ReadOutcome::data(&buffer, READ_BUFFER_SIZE) {
        ReadOutcome::Data { bytes } => assert_eq!(bytes.len(), 4096),
        other => panic!("Expected Data, got {other:?}"),
    }
    match ReadOutcome::failed(Some(5), "gone".to_string()) {
        ReadOutcome::Failed { os_code, message } => {
            assert_eq!(os_code, Some(5));
            assert_eq!(message, "gone");
        }
        other => panic!("Expected Failed, got {other:?}"),
    }
}

#[test]
fn full_buffer_is_one_event() {
    assert_eq!(READ_BUFFER_SIZE, 4096);
    let chunk = vec![7u8; READ_BUFFER_SIZE];
    let events = run(vec![data(&chunk)]);
    assert!(matches!(&events[0], PtyEvent::Output { data } if data.len() == 4096));
}
