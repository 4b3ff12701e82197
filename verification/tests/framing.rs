use console_relay::framing::{encode, find_line_end, finish_text, FrameStep, Framer, Framing, LINE_END};

#[test]
fn line_message_arrives_as_sent() {
    let mut framer = Framer::new(Framing::Line);
    let bytes = encode(Framing::Line, "mytool start x");
    assert_eq!(framer.push(&bytes), FrameStep::Complete(String::from("mytool start x")));
    assert!(framer.is_finished());
}

#[test]
fn line_message_arrives_once() {
    let mut framer = Framer::new(Framing::Line);
    assert_eq!(framer.push(b"one\n"), FrameStep::Complete(String::from("one")));
    assert_eq!(framer.push(b"two\n"), FrameStep::Ended);
    assert_eq!(framer.push(b""), FrameStep::Ended);
}

#[test]
fn line_message_survives_any_cut() {
    let text = "h\u{e9}llo w\u{f6}rld \u{1f600}";
    let bytes = encode(Framing::Line, text);
    for cut in 0..bytes.len() {
        let mut framer = Framer::new(Framing::Line);
        if cut > 0 {
            assert_eq!(framer.push(&bytes[..cut]), FrameStep::NeedMore);
            assert!(!framer.is_finished());
        }
        assert_eq!(framer.push(&bytes[cut..]), FrameStep::Complete(String::from(text)));
    }
}

#[test]
fn line_message_byte_by_byte() {
    let bytes = encode(Framing::Line, "status");
    let mut framer = Framer::new(Framing::Line);
    let last = bytes.len() - 1;
    for i in 0..last {
        assert_eq!(framer.push(&bytes[i..i + 1]), FrameStep::NeedMore);
    }
    assert_eq!(framer.push(&bytes[last..]), FrameStep::Complete(String::from("status")));
}

#[test]
fn empty_line_is_an_empty_message() {
    let mut framer = Framer::new(Framing::Line);
    assert_eq!(framer.push(b"\n"), FrameStep::Complete(String::new()));
}

#[test]
fn bytes_after_the_line_end_are_discarded() {
    let mut framer = Framer::new(Framing::Line);
    assert_eq!(framer.push(b"first\nsecond\n"), FrameStep::Complete(String::from("first")));
    assert_eq!(framer.push(b"third\n"), FrameStep::Ended);
}

#[test]
fn bad_bytes_after_the_line_end_do_not_matter() {
    let mut framer = Framer::new(Framing::Line);
    assert_eq!(framer.push(&[0x68, 0x0A, 0xFF]), FrameStep::Complete(String::from("h")));
}

#[test]
fn line_that_is_not_text_is_dropped() {
    let mut framer = Framer::new(Framing::Line);
    assert_eq!(framer.push(&[0xFF, 0xFE, 0x0A]), FrameStep::Invalid);
    assert!(framer.is_finished());
    assert_eq!(framer.push(b"ok\n"), FrameStep::Ended);
}

#[test]
fn truncated_character_before_line_end_is_dropped() {
    let mut framer = Framer::new(Framing::Line);
    assert_eq!(framer.push(&[0x61, 0xC3]), FrameStep::NeedMore);
    assert_eq!(framer.push(&[0x0A]), FrameStep::Invalid);
}

#[test]
fn not_text_without_line_end_waits_then_ends() {
    let mut framer = Framer::new(Framing::Line);
    assert_eq!(framer.push(&[0xFF, 0xFF]), FrameStep::NeedMore);
    assert_eq!(framer.push(&[0x80]), FrameStep::NeedMore);
    assert_eq!(framer.push(&[]), FrameStep::Ended);
}

#[test]
fn line_without_end_is_dropped_at_end_of_input() {
    let mut framer = Framer::new(Framing::Line);
    assert_eq!(framer.push(b"partial"), FrameStep::NeedMore);
    assert_eq!(framer.push(b""), FrameStep::Ended);
    assert!(framer.is_finished());
}

#[test]
fn empty_connection_is_dropped_under_line_framing() {
    let mut framer = Framer::new(Framing::Line);
    assert_eq!(framer.push(b""), FrameStep::Ended);
}

#[test]
fn whole_stream_waits_for_the_end() {
    let mut framer = Framer::new(Framing::WholeStream);
    assert_eq!(framer.push(b"line one\n"), FrameStep::NeedMore);
    assert_eq!(framer.push(b"line two"), FrameStep::NeedMore);
    assert_eq!(framer.push(b""), FrameStep::Complete(String::from("line one\nline two")));
    assert_eq!(framer.push(b"more"), FrameStep::Ended);
}

#[test]
fn whole_stream_of_nothing_is_an_empty_message() {
    let mut framer = Framer::new(Framing::WholeStream);
    assert_eq!(framer.push(b""), FrameStep::Complete(String::new()));
}

#[test]
fn whole_stream_that_is_not_text_is_dropped() {
    let mut framer = Framer::new(Framing::WholeStream);
    assert_eq!(framer.push(&[0x61, 0xFF]), FrameStep::NeedMore);
    assert_eq!(framer.push(&[]), FrameStep::Invalid);
}

#[test]
fn whole_stream_joins_a_character_cut_in_two() {
    let mut framer = Framer::new(Framing::WholeStream);
    assert_eq!(framer.push(&[0xC3]), FrameStep::NeedMore);
    assert_eq!(framer.push(&[0xA9]), FrameStep::NeedMore);
    assert_eq!(framer.push(&[]), FrameStep::Complete(String::from("\u{e9}")));
}

#[test]
fn encode_appends_the_line_end_under_line_framing_only() {
    assert_eq!(encode(Framing::Line, "ab"), vec![0x61, 0x62, 0x0A]);
    assert_eq!(encode(Framing::WholeStream, "ab"), vec![0x61, 0x62]);
    assert_eq!(encode(Framing::Line, ""), vec![LINE_END]);
    assert_eq!(encode(Framing::WholeStream, ""), Vec::<u8>::new());
    assert_eq!(encode(Framing::Line, "\u{e9}"), vec![0xC3, 0xA9, 0x0A]);
}

#[test]
fn find_line_end_gives_the_first() {
    assert_eq!(find_line_end(b"ab\ncd\n"), Some(2));
    assert_eq!(find_line_end(b"\n"), Some(0));
    assert_eq!(find_line_end(b"abc"), None);
    assert_eq!(find_line_end(b""), None);
}

#[test]
fn finish_text_decodes_or_rejects() {
    assert_eq!(finish_text(vec![0x68, 0x69]), FrameStep::Complete(String::from("hi")));
    assert_eq!(finish_text(vec![0xF0, 0x9F, 0x98, 0x80]), FrameStep::Complete(String::from("\u{1f600}")));
    assert_eq!(finish_text(Vec::new()), FrameStep::Complete(String::new()));
    assert_eq!(finish_text(vec![0xC0, 0x80]), FrameStep::Invalid);
    assert_eq!(finish_text(vec![0xED, 0xA0, 0x80]), FrameStep::Invalid);
    assert_eq!(finish_text(vec![0x80]), FrameStep::Invalid);
}
