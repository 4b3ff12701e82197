//! The unit that the server delivers to the process that owns it.

use vstd::prelude::*;

verus! {

/// One received message, with what the owning process needs to answer it.
///
/// `W` is the write half of the connection that the message came on. An
/// event owns it: no two events hold the same one.
pub struct ReceiveEvent<W> {
    message: String,
    writer: W,
}

/// What a take hands out of a message, and what it leaves behind.
pub open spec fn taken(message: Seq<char>) -> (Seq<char>, Seq<char>) {
    (message, Seq::<char>::empty())
}

impl<W> ReceiveEvent<W> {
    /// The text that the event still holds.
    pub closed spec fn message(&self) -> Seq<char> {
        self.message@
    }

    /// The write half that the event holds.
    pub closed spec fn writer(&self) -> W {
        self.writer
    }

    /// An event for `message`, to be answered through `writer`.
    pub fn new(message: String, writer: W) -> (event: Self)
        ensures
            event.message() == message@,
            event.writer() == writer,
    {
        ReceiveEvent { message, writer }
    }

    /// Hands out the text and leaves the event with an empty one, so that a
    /// later take gives the empty string.
    pub fn take_message(&mut self) -> (text: String)
        ensures
            (text@, final(self).message()) == taken(old(self).message()),
            final(self).writer() == old(self).writer(),
    {
        let mut text = String::new();
        core::mem::swap(&mut self.message, &mut text);
        text
    }

    /// The write half, to send the reply through.
    pub fn writer_mut(&mut self) -> (writer: &mut W)
        ensures
            *writer == old(self).writer(),
            final(self).writer() == *final(writer),
            final(self).message() == old(self).message(),
    {
        &mut self.writer
    }

    /// Gives up the event for its text and its write half.
    pub fn into_parts(self) -> (parts: (String, W))
        ensures
            parts.0@ == self.message(),
            parts.1 == self.writer(),
    {
        (self.message, self.writer)
    }
}

/// Of two takes in a row the first gives the text and the second the empty
/// string.
pub proof fn lemma_second_take_is_empty(message: Seq<char>)
    ensures
        taken(message).0 == message,
        taken(taken(message).1).0 == Seq::<char>::empty(),
        taken(taken(message).1).1 == Seq::<char>::empty(),
{
}

} // verus!
