//! Framing of one connection's byte stream into a message.
//!
//! A framer accumulates the bytes read from one connection and says after
//! each read whether the message is complete. What it says depends on the
//! accumulated bytes alone, never on how the reads cut them.

use vstd::prelude::*;
use vstd::string::*;
use vstd::utf8::*;

verus! {

/// The byte that ends a line.
pub const LINE_END: u8 = 0x0A;

/// How a connection's bytes are cut into a message.
#[derive(Clone, Copy, Debug, PartialEq, Eq, Structural)]
pub enum Framing {
    /// The message is everything the peer sent before it closed its side.
    WholeStream,
    /// The message is everything before the first line end.
    Line,
}

/// What a framer says after a read.
#[derive(Clone, Debug, PartialEq, Eq)]
pub enum FrameStep {
    /// The message is not complete yet.
    NeedMore,
    /// The message is complete: this is its text, and the framer is done.
    Complete(String),
    /// The connection ended before a message was complete. No message.
    Ended,
    /// The bytes of the message are not text. No message.
    Invalid,
}

/// A `FrameStep` over the characters of its text.
pub enum Frame {
    NeedMore,
    Complete(Seq<char>),
    Ended,
    Invalid,
}

impl View for FrameStep {
    type V = Frame;

    open spec fn view(&self) -> Frame {
        match self {
            FrameStep::NeedMore => Frame::NeedMore,
            FrameStep::Complete(text) => Frame::Complete(text@),
            FrameStep::Ended => Frame::Ended,
            FrameStep::Invalid => Frame::Invalid,
        }
    }
}

/// Whether `i` is where the first line end of `bytes` stands.
pub open spec fn line_end_at(bytes: Seq<u8>, i: int) -> bool {
    &&& 0 <= i < bytes.len()
    &&& bytes[i] == LINE_END
    &&& forall|j: int| 0 <= j < i ==> bytes[j] != LINE_END
}

/// The bytes before the first line end of `bytes`, which holds one.
pub open spec fn first_line(bytes: Seq<u8>) -> Seq<u8>
    recommends
        bytes.contains(LINE_END),
{
    bytes.subrange(0, choose|i: int| line_end_at(bytes, i))
}

/// The bytes of a finished message, as text.
pub open spec fn text_of(bytes: Seq<u8>) -> Frame {
    if valid_utf8(bytes) {
        Frame::Complete(decode_utf8(bytes))
    } else {
        Frame::Invalid
    }
}

/// What framing says of the bytes accumulated so far, given whether the
/// connection has reached its end.
pub open spec fn frame_of(framing: Framing, bytes: Seq<u8>, at_end: bool) -> Frame {
    match framing {
        Framing::WholeStream => if at_end {
            text_of(bytes)
        } else {
            Frame::NeedMore
        },
        Framing::Line => if bytes.contains(LINE_END) {
            text_of(first_line(bytes))
        } else if at_end {
            Frame::Ended
        } else {
            Frame::NeedMore
        },
    }
}

/// The bytes that carry `text` under `framing`.
pub open spec fn wire_bytes(framing: Framing, text: Seq<char>) -> Seq<u8> {
    match framing {
        Framing::WholeStream => encode_utf8(text),
        Framing::Line => encode_utf8(text).push(LINE_END),
    }
}

/// The first line end is where any index that meets `line_end_at` says.
pub proof fn lemma_first_line(bytes: Seq<u8>, i: int)
    requires
        line_end_at(bytes, i),
    ensures
        bytes.contains(LINE_END),
        first_line(bytes) == bytes.subrange(0, i),
{
    let k = choose|k: int| line_end_at(bytes, k);
    assert(line_end_at(bytes, k));
    assert(k == i) by {
        if k < i {
            assert(bytes[k] != LINE_END);
        }
        if i < k {
            assert(bytes[i] != LINE_END);
        }
    }
}

/// Bytes that hold a line end have a first one.
pub proof fn lemma_line_end_exists(bytes: Seq<u8>) -> (i: int)
    requires
        bytes.contains(LINE_END),
    ensures
        line_end_at(bytes, i),
    decreases bytes.len(),
{
    let k = choose|k: int| 0 <= k < bytes.len() && bytes[k] == LINE_END;
    let head = bytes.subrange(0, k);
    if head.contains(LINE_END) {
        let i = lemma_line_end_exists(head);
        assert(forall|j: int| 0 <= j < i ==> head[j] == bytes[j]);
        assert(head[i] == bytes[i]);
        i
    } else {
        assert forall|j: int| 0 <= j < k implies bytes[j] != LINE_END by {
            if bytes[j] == LINE_END {
                assert(head[j] == LINE_END);
            }
        }
        k
    }
}

/// Calls `String::from_utf8` of std. Not proved, but taken from its
/// documentation: it gives a text exactly where `bytes` are well-formed
/// UTF-8, which is what `valid_utf8` says, and the text then holds the
/// characters that `bytes` encode, which is what `decode_utf8` gives.
#[verifier::external_body]
fn text_from_utf8(bytes: Vec<u8>) -> (text: Option<String>)
    ensures
        text is Some <==> valid_utf8(bytes@),
        text is Some ==> text->0@ == decode_utf8(bytes@),
{
    String::from_utf8(bytes).ok()
}

/// Turns the bytes of a finished message into the step that reports it.
pub fn finish_text(bytes: Vec<u8>) -> (step: FrameStep)
    ensures
        step@ == text_of(bytes@),
{
    match text_from_utf8(bytes) {
        Some(text) => FrameStep::Complete(text),
        None => FrameStep::Invalid,
    }
}

/// Where the first line end of `chunk` stands, if it holds one.
pub fn find_line_end(chunk: &[u8]) -> (found: Option<usize>)
    ensures
        found is Some ==> line_end_at(chunk@, found->0 as int),
        found is None ==> !chunk@.contains(LINE_END),
{
    let mut i: usize = 0;
    while i < chunk.len()
        invariant
            i <= chunk.len(),
            forall|j: int| 0 <= j < i ==> chunk@[j] != LINE_END,
        decreases chunk.len() - i,
    {
        if chunk[i] == LINE_END {
            return Some(i);
        }
        i += 1;
    }
    None
}

/// Appends the first `n` bytes of `chunk` to `buffer`.
fn append_prefix(buffer: &mut Vec<u8>, chunk: &[u8], n: usize)
    requires
        n <= chunk@.len(),
    ensures
        final(buffer)@ == old(buffer)@ + chunk@.subrange(0, n as int),
{
    let mut i: usize = 0;
    while i < n
        invariant
            i <= n <= chunk@.len(),
            buffer@ == old(buffer)@ + chunk@.subrange(0, i as int),
        decreases n - i,
    {
        buffer.push(chunk[i]);
        i += 1;
        assert(buffer@ =~= old(buffer)@ + chunk@.subrange(0, i as int));
    }
    assert(buffer@ =~= old(buffer)@ + chunk@.subrange(0, n as int));
}

/// The bytes that carry `message` under `framing`.
pub fn encode(framing: Framing, message: &str) -> (bytes: Vec<u8>)
    ensures
        bytes@ == wire_bytes(framing, message@),
{
    let mut bytes = message.as_bytes_vec();
    match framing {
        Framing::WholeStream => {},
        Framing::Line => {
            bytes.push(LINE_END);
        },
    }
    bytes
}

/// The framer of one connection.
pub struct Framer {
    framing: Framing,
    buffer: Vec<u8>,
    done: bool,
}

impl Framer {
    /// The framing that this framer was made for.
    pub closed spec fn framing(&self) -> Framing {
        self.framing
    }

    /// The bytes accumulated so far. Empty once the framer is done.
    pub closed spec fn buffered(&self) -> Seq<u8> {
        self.buffer@
    }

    /// Whether the framer has said its last word.
    pub closed spec fn finished(&self) -> bool {
        self.done
    }

    /// A framer that still waits holds no line end under line framing, and
    /// one that is done holds nothing.
    pub closed spec fn wf(&self) -> bool {
        &&& self.done ==> self.buffer@.len() == 0
        &&& !self.done && self.framing == Framing::Line ==> !self.buffer@.contains(LINE_END)
    }

    /// A framer that has read nothing yet.
    pub fn new(framing: Framing) -> (framer: Self)
        ensures
            framer.wf(),
            framer.framing() == framing,
            framer.buffered() == Seq::<u8>::empty(),
            !framer.finished(),
    {
        let framer = Framer { framing, buffer: Vec::new(), done: false };
        assert(!framer.buffer@.contains(LINE_END));
        framer
    }

    /// Whether the framer has said its last word.
    pub fn is_finished(&self) -> (done: bool)
        ensures
            done == self.finished(),
    {
        self.done
    }

    /// Takes in what one read returned; an empty `chunk` is the end of the
    /// connection.
    ///
    /// The step is what `frame_of` says of all the bytes taken in so far.
    /// Any step but `NeedMore` is the framer's last word: from then on it
    /// holds nothing and answers `Ended`.
    pub fn push(&mut self, chunk: &[u8]) -> (step: FrameStep)
        requires
            old(self).wf(),
        ensures
            final(self).wf(),
            final(self).framing() == old(self).framing(),
            old(self).finished() ==> step@ == Frame::Ended && final(self).finished(),
            !old(self).finished() ==> step@ == frame_of(
                old(self).framing(),
                old(self).buffered() + chunk@,
                chunk@.len() == 0,
            ),
            final(self).finished() == (old(self).finished() || !(step@ is NeedMore)),
            final(self).buffered() == if step@ is NeedMore {
                old(self).buffered() + chunk@
            } else {
                Seq::<u8>::empty()
            },
    {
        if self.done {
            return FrameStep::Ended;
        }
        let ghost before = self.buffer@;
        let ghost all = before + chunk@;
        match self.framing {
            Framing::WholeStream => {
                if chunk.len() == 0 {
                    let mut bytes: Vec<u8> = Vec::new();
                    core::mem::swap(&mut self.buffer, &mut bytes);
                    self.done = true;
                    assert(bytes@ =~= all);
                    finish_text(bytes)
                } else {
                    append_prefix(&mut self.buffer, chunk, chunk.len());
                    assert(self.buffer@ =~= all);
                    FrameStep::NeedMore
                }
            },
            Framing::Line => {
                match find_line_end(chunk) {
                    Some(i) => {
                        let mut bytes: Vec<u8> = Vec::new();
                        core::mem::swap(&mut self.buffer, &mut bytes);
                        append_prefix(&mut bytes, chunk, i);
                        self.done = true;
                        proof {
                            let at = before.len() + i;
                            assert(line_end_at(all, at)) by {
                                assert(all[at] == chunk@[i as int]);
                                assert forall|j: int| 0 <= j < at implies all[j] != LINE_END by {
                                    if j < before.len() {
                                        assert(all[j] == before[j]);
                                    } else {
                                        assert(all[j] == chunk@[j - before.len()]);
                                    }
                                }
                            }
                            lemma_first_line(all, at);
                            assert(bytes@ =~= all.subrange(0, at));
                        }
                        finish_text(bytes)
                    },
                    None => {
                        proof {
                            if all.contains(LINE_END) {
                                let k = choose|k: int| 0 <= k < all.len() && all[k] == LINE_END;
                                if k < before.len() {
                                    assert(before[k] == LINE_END);
                                } else {
                                    assert(chunk@[k - before.len()] == LINE_END);
                                }
                            }
                        }
                        if chunk.len() == 0 {
                            self.buffer.clear();
                            self.done = true;
                            FrameStep::Ended
                        } else {
                            append_prefix(&mut self.buffer, chunk, chunk.len());
                            assert(self.buffer@ =~= all);
                            FrameStep::NeedMore
                        }
                    },
                }
            },
        }
    }
}

/// The encoding of a character other than the line feed holds no line end.
proof fn lemma_scalar_has_no_line_end(c: char)
    requires
        c != '\n',
    ensures
        !encode_scalar(c as u32).contains(LINE_END),
{
    let v = c as u32;
    char_is_scalar(c);
    assert(v != 0x0A);
    let bytes = encode_scalar(v);
    assert(has_width_1_encoding(v) ==> leading_byte_width_1(v) != 0x0Au8) by (bit_vector)
        requires
            v != 0x0A,
    ;
    assert(leading_byte_width_2(v) >= 0x80u8) by (bit_vector);
    assert(leading_byte_width_3(v) >= 0x80u8) by (bit_vector);
    assert(leading_byte_width_4(v) >= 0x80u8) by (bit_vector);
    assert(last_continuation_byte(v) >= 0x80u8) by (bit_vector);
    assert(second_last_continuation_byte(v) >= 0x80u8) by (bit_vector);
    assert(third_last_continuation_byte(v) >= 0x80u8) by (bit_vector);
    assert forall|i: int| 0 <= i < bytes.len() implies bytes[i] != LINE_END by {}
}

/// Text without a line feed is encoded without a line end.
pub proof fn lemma_text_has_no_line_end(text: Seq<char>)
    requires
        !text.contains('\n'),
    ensures
        !encode_utf8(text).contains(LINE_END),
    decreases text.len(),
{
    if text.len() > 0 {
        let head = encode_scalar(text[0] as u32);
        let rest = text.drop_first();
        assert(text[0] != '\n');
        assert forall|i: int| 0 <= i < rest.len() implies rest[i] != '\n' by {
            assert(rest[i] == text[i + 1]);
        }
        lemma_scalar_has_no_line_end(text[0]);
        lemma_text_has_no_line_end(rest);
        let tail = encode_utf8(rest);
        let all = encode_utf8(text);
        assert(all == head + tail);
        assert forall|i: int| 0 <= i < all.len() implies all[i] != LINE_END by {
            if i < head.len() {
                assert(all[i] == head[i]);
            } else {
                assert(all[i] == tail[i - head.len()]);
            }
        }
    }
}

/// A message without a line feed, sent under line framing, arrives as
/// itself and once: while only a part of its bytes has come in, the framer
/// waits, and with the last byte the message is complete with the text that
/// was sent. However the reads cut the bytes, the accumulated bytes are such
/// a prefix after each read.
pub proof fn lemma_line_round_trip(text: Seq<char>, n: int)
    requires
        !text.contains('\n'),
        0 <= n <= wire_bytes(Framing::Line, text).len(),
    ensures
        n < wire_bytes(Framing::Line, text).len() ==> frame_of(
            Framing::Line,
            wire_bytes(Framing::Line, text).subrange(0, n),
            false,
        ) == Frame::NeedMore,
        frame_of(Framing::Line, wire_bytes(Framing::Line, text), false) == Frame::Complete(text),
        frame_of(Framing::Line, wire_bytes(Framing::Line, text), true) == Frame::Complete(text),
{
    broadcast use {encode_utf8_valid_utf8, encode_utf8_decode_utf8};

    let body = encode_utf8(text);
    let wire = wire_bytes(Framing::Line, text);
    lemma_text_has_no_line_end(text);
    assert(line_end_at(wire, body.len() as int)) by {
        assert forall|j: int| 0 <= j < body.len() implies wire[j] != LINE_END by {
            assert(wire[j] == body[j]);
        }
    }
    lemma_first_line(wire, body.len() as int);
    assert(wire.subrange(0, body.len() as int) =~= body);
    if n < wire.len() {
        let part = wire.subrange(0, n);
        assert forall|j: int| 0 <= j < part.len() implies part[j] != LINE_END by {
            assert(part[j] == body[j]);
        }
    }
}

/// A message sent under whole-stream framing arrives as itself once the
/// stream has ended, and not before.
pub proof fn lemma_whole_stream_round_trip(text: Seq<char>)
    ensures
        frame_of(Framing::WholeStream, wire_bytes(Framing::WholeStream, text), true)
            == Frame::Complete(text),
        forall|bytes: Seq<u8>| frame_of(Framing::WholeStream, bytes, false) == Frame::NeedMore,
{
    broadcast use {encode_utf8_valid_utf8, encode_utf8_decode_utf8};

}

/// Whether `bytes` hold a line end with text before the first one. Line
/// framing then reads that text out of them, whatever follows the line end.
pub open spec fn has_text_line(bytes: Seq<u8>) -> bool {
    bytes.contains(LINE_END) && valid_utf8(first_line(bytes))
}

/// Bytes that are not text yield no message under line framing, unless
/// they are text up to their first line end: whatever part of them has come
/// in, and whether or not the connection has ended there, the framer does
/// not report a complete message. The same holds of any bytes without a
/// line of text at their start.
pub proof fn lemma_no_text_no_message(bytes: Seq<u8>, n: int, at_end: bool)
    requires
        !has_text_line(bytes),
        0 <= n <= bytes.len(),
    ensures
        !(frame_of(Framing::Line, bytes.subrange(0, n), at_end) is Complete),
{
    let part = bytes.subrange(0, n);
    if part.contains(LINE_END) {
        let i = lemma_line_end_exists(part);
        assert(line_end_at(bytes, i)) by {
            assert(part[i] == bytes[i]);
            assert forall|j: int| 0 <= j < i implies bytes[j] != LINE_END by {
                assert(part[j] == bytes[j]);
            }
        }
        lemma_first_line(part, i);
        lemma_first_line(bytes, i);
        assert(part.subrange(0, i) =~= bytes.subrange(0, i));
    }
}

/// Under whole-stream framing, bytes that are not text yield no message.
pub proof fn lemma_invalid_stream_no_message(bytes: Seq<u8>, at_end: bool)
    requires
        !valid_utf8(bytes),
    ensures
        !(frame_of(Framing::WholeStream, bytes, at_end) is Complete),
{
}


} // verus!
