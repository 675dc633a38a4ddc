use freyja::sse::{separator, SseBuffer, MAX_FRAME_BYTES};

#[test]
fn splits_frames_across_pushes() {
    let mut buffer = SseBuffer::new();

    buffer.push(b"event: delta\ndata: ca");
    assert!(buffer.next_frame().is_none(), "frame is not complete yet");

    buffer.push("fé\n\ndata: second\n\n".as_bytes());

    let first = buffer.next_frame().expect("first frame");
    assert_eq!(first.event.as_deref(), Some("delta"));
    assert_eq!(first.data, "café");

    let second = buffer.next_frame().expect("second frame");
    assert_eq!(second.event, None);
    assert_eq!(second.data, "second");

    assert!(buffer.next_frame().is_none());
}

#[test]
fn handles_codepoint_split_across_chunks() {
    let mut buffer = SseBuffer::new();
    let text = "data: café\n\n".as_bytes();

    let split = text.len() - 4;
    buffer.push(&text[..split]);
    assert!(buffer.next_frame().is_none());

    buffer.push(&text[split..]);
    assert_eq!(buffer.next_frame().expect("frame").data, "café");
}

#[test]
fn joins_multiple_data_lines_and_skips_comments() {
    let mut buffer = SseBuffer::new();
    buffer.push(b": keepalive\ndata: one\ndata: two\n\n");

    assert_eq!(buffer.next_frame().expect("frame").data, "one\ntwo");
}

#[test]
fn finds_a_separator_straddling_a_chunk_boundary() {
    for (first, second) in [
        (&b"data: hi\n"[..], &b"\ndata: two\n\n"[..]),
        (&b"data: hi\r\n\r"[..], &b"\ndata: two\r\n\r\n"[..]),
        (&b"data: hi\r\n"[..], &b"\r\ndata: two\r\n\r\n"[..]),
        (&b"data: hi\r"[..], &b"\n\r\ndata: two\r\n\r\n"[..]),
    ] {
        let mut buffer = SseBuffer::new();
        buffer.push(first);
        assert!(buffer.next_frame().is_none());

        buffer.push(second);
        assert_eq!(buffer.next_frame().expect("first frame").data, "hi");
        assert_eq!(buffer.next_frame().expect("second frame").data, "two");
        assert!(buffer.next_frame().is_none());
    }
}

#[test]
fn reports_a_frame_that_never_ends() {
    let mut buffer = SseBuffer::new();
    assert!(!buffer.overflowed());

    buffer.push(&vec![b'x'; MAX_FRAME_BYTES]);
    assert!(!buffer.overflowed(), "the ceiling itself is still legal");

    buffer.push(b"x");
    assert!(buffer.overflowed());
}

#[test]
fn accepts_crlf_separators() {
    let mut buffer = SseBuffer::new();
    buffer.push(b"event: ping\r\ndata: hi\r\n\r\n");

    let frame = buffer.next_frame().expect("frame");
    assert_eq!(frame.event.as_deref(), Some("ping"));
    assert_eq!(frame.data, "hi");
}

#[test]
fn the_separator_is_the_first_blank_line_in_either_spelling() {
    // The offset where the frame's text ends, and where the next frame begins.
    assert_eq!(separator(b"data: a\n\nrest", 0), Some((7, 9)));
    assert_eq!(separator(b"data: a\r\n\r\nrest", 0), Some((7, 11)));
    assert_eq!(separator(b"data: a\r\rrest", 0), None);
    assert_eq!(separator(b"data: a\n", 0), None);
    // A scan may start past bytes already known to hold none.
    assert_eq!(separator(b"x\n\ny\n\n", 3), Some((4, 6)));
}
