//! What a client sends and what it makes of the answer.

use vstd::prelude::*;
use crate::error::{classify_with, ConsoleSendError, PlatformCodes, TransportError};
use crate::framing::{encode, wire_bytes, Framing};

verus! {

/// What the caller gets for the result of reading the reply, over the table
/// with the given families: the reply where the read went well, the empty
/// reply where it failed because the peer had closed, and the classified
/// failure otherwise.
pub open spec fn reply_of(
    peer_closed: Seq<i32>,
    no_endpoint: Seq<i32>,
    read: Result<Seq<char>, TransportError>,
) -> Result<Seq<char>, ConsoleSendError> {
    match read {
        Ok(text) => Ok(text),
        Err(e) => if classify_with(peer_closed, no_endpoint, e) is OtherSocketClosed {
            Ok(Seq::<char>::empty())
        } else {
            Err(classify_with(peer_closed, no_endpoint, e))
        },
    }
}

/// A `Result` with a text, over the characters of the text.
pub open spec fn text_result<E>(r: Result<String, E>) -> Result<Seq<char>, E> {
    match r {
        Ok(text) => Ok(text@),
        Err(e) => Err(e),
    }
}

/// The bytes that a client writes for `message`: the message and a line end.
pub fn request_bytes(message: &str) -> (bytes: Vec<u8>)
    ensures
        bytes@ == wire_bytes(Framing::Line, message@),
{
    encode(Framing::Line, message)
}

/// What a failed connect, write or flush amounts to for the caller, by the
/// table of the platform that reported it.
pub fn send_failure(codes: &PlatformCodes, e: TransportError) -> (outcome: ConsoleSendError)
    ensures
        outcome == classify_with(codes.peer_closed@, codes.no_endpoint@, e),
{
    codes.classify(e)
}

/// What the caller gets for the result of reading the reply, by the table
/// of the platform that the read ran on. A peer that closed without writing
/// did not want to answer: that is an empty reply and no failure.
pub fn reply_outcome(codes: &PlatformCodes, read: Result<String, TransportError>) -> (outcome:
    Result<String, ConsoleSendError>)
    ensures
        text_result(outcome) == reply_of(
            codes.peer_closed@,
            codes.no_endpoint@,
            text_result(read),
        ),
{
    match read {
        Ok(text) => Ok(text),
        Err(e) => {
            let failure = codes.classify(e);
            if failure.is_peer_closed() {
                Ok(String::new())
            } else {
                Err(failure)
            }
        },
    }
}

/// A read that ends because the peer closed gives the empty reply, whatever
/// the kind of the failure; so does a peer that closed without writing,
/// whose stream ends at once.
pub proof fn lemma_closed_peer_is_empty_reply(
    peer_closed: Seq<i32>,
    no_endpoint: Seq<i32>,
    e: TransportError,
)
    requires
        e.code is Some,
        peer_closed.contains(e.code->0),
    ensures
        reply_of(peer_closed, no_endpoint, Err(e)) == Ok::<Seq<char>, ConsoleSendError>(
            Seq::<char>::empty(),
        ),
        reply_of(peer_closed, no_endpoint, Ok(Seq::<char>::empty())) == Ok::<
            Seq<char>,
            ConsoleSendError,
        >(Seq::<char>::empty()),
{
}

} // verus!
