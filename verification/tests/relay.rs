use rescribe::framing::{FrameReader, FrameStep, ReadOutcome};
use rescribe::relay::{on_frame, on_item, ItemStep, Packet};

#[test]
fn ended_stream_with_nothing_left_ends_the_feed() {
    assert_eq!(on_frame(Vec::new(), true), None);
}

#[test]
fn empty_frame_on_an_open_stream_goes_on() {
    assert_eq!(on_frame(Vec::new(), false), Some(Vec::new()));
}

#[test]
fn leftover_bytes_at_the_end_are_still_decoded() {
    assert_eq!(on_frame(b"{}".to_vec(), true), Some(b"{}".to_vec()));
}

#[test]
fn frame_is_passed_on() {
    assert_eq!(on_frame(b"{}".to_vec(), false), Some(b"{}".to_vec()));
}

#[test]
fn failed_item_is_skipped_with_its_error() {
    match on_item::<u8, &str>(Err("bad json")) {
        ItemStep::Skip(e) => assert_eq!(e, "bad json"),
        _ => panic!("expected a skip"),
    }
}

#[test]
fn good_item_is_delivered() {
    match on_item::<u8, &str>(Ok(7)) {
        ItemStep::Deliver(v) => assert_eq!(v, 7),
        _ => panic!("expected the item"),
    }
}

/// Runs the reader and the feed decision over line reads, as the TCP handler does,
/// and collects what is handed on for decoding until the feed ends.
fn feed(lines: &[&[u8]]) -> Vec<Vec<u8>> {
    let mut reader = FrameReader::new();
    let mut decoded = Vec::new();
    let mut reads = lines.iter();
    loop {
        let line = reads.next().map(|l| l.to_vec()).unwrap_or_default();
        let (frame, ended) = match reader.step(ReadOutcome::Read(line)) {
            FrameStep::Pending => continue,
            FrameStep::Complete(f) => (f, false),
            FrameStep::Ended(f) => (f, true),
        };
        match on_frame(frame, ended) {
            Some(f) => decoded.push(f),
            None => return decoded,
        }
    }
}

#[test]
fn bare_terminator_does_not_end_the_feed() {
    let json: &[u8] = br#"{"language":"ja","translated_text":"hi"}"#;
    let mut first_line = json.to_vec();
    first_line.extend_from_slice(b"\r\n");
    let decoded = feed(&[b"\r\n", b"\r\n", &first_line, b"\r\n"]);
    assert_eq!(decoded, vec![Vec::new(), json.to_vec()]);
}

#[test]
fn packet_holds_its_fields() {
    let p = Packet { language: "ja".to_string(), original_text: None, translated_text: "hi".to_string() };
    assert_eq!(p.clone().translated_text, "hi");
    assert_eq!(p.language, "ja");
}
