use rescribe::framing::{FrameReader, FrameStep, ReadOutcome};

fn complete(step: FrameStep) -> Vec<u8> {
    match step {
        FrameStep::Complete(frame) => frame,
        FrameStep::Ended(_) => panic!("stream ended"),
        FrameStep::Pending => panic!("frame still pending"),
    }
}

fn ended(step: FrameStep) -> Vec<u8> {
    match step {
        FrameStep::Ended(frame) => frame,
        FrameStep::Complete(_) => panic!("frame complete"),
        FrameStep::Pending => panic!("frame still pending"),
    }
}

fn is_pending(step: &FrameStep) -> bool {
    matches!(step, FrameStep::Pending)
}

#[test]
fn frame_is_read_back_without_terminator() {
    let mut reader = FrameReader::new();
    let first = reader.step(ReadOutcome::Read(b"{\"language\":\"ja\"}\r\n".to_vec()));
    assert!(is_pending(&first));
    let second = reader.step(ReadOutcome::Read(b"\r\n".to_vec()));
    assert_eq!(complete(second), b"{\"language\":\"ja\"}".to_vec());
}

#[test]
fn reader_is_empty_again_after_a_frame() {
    let mut reader = FrameReader::new();
    assert!(is_pending(&reader.step(ReadOutcome::Read(b"one\r\n".to_vec()))));
    assert_eq!(complete(reader.step(ReadOutcome::Read(b"\r\n".to_vec()))), b"one".to_vec());
    assert!(is_pending(&reader.step(ReadOutcome::Read(b"two\r\n".to_vec()))));
    assert_eq!(complete(reader.step(ReadOutcome::Read(b"\r\n".to_vec()))), b"two".to_vec());
}

#[test]
fn lines_without_terminator_stay_pending() {
    let mut reader = FrameReader::new();
    assert!(is_pending(&reader.step(ReadOutcome::Read(b"a\n".to_vec()))));
    assert!(is_pending(&reader.step(ReadOutcome::Read(b"b\r\n".to_vec()))));
    assert!(is_pending(&reader.step(ReadOutcome::Read(b"c\n".to_vec()))));
}

#[test]
fn end_of_stream_hands_back_what_was_gathered() {
    let mut reader = FrameReader::new();
    assert!(is_pending(&reader.step(ReadOutcome::Read(b"partial\r\n".to_vec()))));
    assert!(is_pending(&reader.step(ReadOutcome::Read(b"tail".to_vec()))));
    assert_eq!(ended(reader.step(ReadOutcome::Read(Vec::new()))), b"partial\r\ntail".to_vec());
}

#[test]
fn closed_socket_gives_an_empty_frame() {
    let mut reader = FrameReader::new();
    assert_eq!(ended(reader.step(ReadOutcome::Read(Vec::new()))), Vec::<u8>::new());
}

#[test]
fn failed_read_hands_back_all_bytes_untrimmed() {
    let mut reader = FrameReader::new();
    assert!(is_pending(&reader.step(ReadOutcome::Read(b"x\r\n".to_vec()))));
    assert_eq!(ended(reader.step(ReadOutcome::Failed(b"\r\n".to_vec()))), b"x\r\n\r\n".to_vec());
}

#[test]
fn terminator_alone_gives_empty_frame() {
    let mut reader = FrameReader::new();
    assert!(is_pending(&reader.step(ReadOutcome::Read(b"\r\n".to_vec()))));
    assert_eq!(complete(reader.step(ReadOutcome::Read(b"\r\n".to_vec()))), Vec::<u8>::new());
}

#[test]
fn terminator_found_inside_one_read() {
    let mut reader = FrameReader::new();
    assert_eq!(complete(reader.step(ReadOutcome::Read(b"ab\r\n\r\n".to_vec()))), b"ab".to_vec());
}

#[test]
fn message_with_newlines_is_read_back() {
    // Lines as a line-by-line reader delivers them from "{\n \"a\": 1\n}\r\n\r\nnext"
    let mut reader = FrameReader::new();
    assert!(is_pending(&reader.step(ReadOutcome::Read(b"{\n".to_vec()))));
    assert!(is_pending(&reader.step(ReadOutcome::Read(b" \"a\": 1\n".to_vec()))));
    assert!(is_pending(&reader.step(ReadOutcome::Read(b"}\r\n".to_vec()))));
    assert_eq!(complete(reader.step(ReadOutcome::Read(b"\r\n".to_vec()))), b"{\n \"a\": 1\n}".to_vec());
}

#[test]
fn message_ending_with_crlf_loses_it() {
    // "abc\r\n" followed by the terminator: the first terminator ends the frame early.
    let mut reader = FrameReader::new();
    assert!(is_pending(&reader.step(ReadOutcome::Read(b"abc\r\n".to_vec()))));
    assert_eq!(complete(reader.step(ReadOutcome::Read(b"\r\n".to_vec()))), b"abc".to_vec());
}
