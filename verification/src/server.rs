//! The server's decisions: what the accept loop does next, which messages
//! reach the queue, in what order the owning process takes them, and what
//! teardown leaves.
//!
//! The server here holds no socket. The program that embeds it accepts and
//! reads, tells the server what happened, and does what the server answers.

use std::collections::VecDeque;
use vstd::prelude::*;
use crate::event::ReceiveEvent;
use crate::framing::{frame_of, lemma_line_round_trip, wire_bytes, Frame, FrameStep, Framer, Framing};

verus! {

/// What the queue hands to the owning process.
pub type Delivery<W, E> = Result<ReceiveEvent<W>, E>;

/// What the accept loop does after an accept.
#[derive(Clone, Copy, Debug, PartialEq, Eq, Structural)]
pub enum LoopAction {
    /// Split the connection and hand it to a unit of its own, then accept
    /// again.
    HandOff,
    /// Accept again.
    Continue,
    /// Leave the loop: the server is torn down.
    Exit,
}

/// A queued delivery as plain values.
pub enum Item<W, E> {
    /// A message and the write half to answer it through.
    Message(Seq<char>, W),
    /// A failure surfaced to the owning process.
    Failure(E),
}

/// The server as plain values.
pub struct ServerState<W, E> {
    /// How connections are framed.
    pub framing: Framing,
    /// Whether accept and read failures are queued for the owning process.
    pub strict: bool,
    /// Whether the server has not been torn down.
    pub alive: bool,
    /// What waits for the owning process, oldest first.
    pub queue: Seq<Item<W, E>>,
}

/// What can happen to a server.
pub enum ServerInput<W, E> {
    /// The transport accepted a connection.
    Accepted,
    /// The transport failed to accept, or a connection failed to read.
    Failed(E),
    /// A connection's framer said its last word.
    Framed(Frame, W),
    /// The owning process took the oldest delivery.
    Taken,
    /// The server was torn down.
    Stopped,
}

/// The plain values of a delivery.
pub open spec fn item_of<W, E>(delivery: Delivery<W, E>) -> Item<W, E> {
    match delivery {
        Ok(event) => Item::Message(event.message(), event.writer()),
        Err(e) => Item::Failure(e),
    }
}

/// The plain values of a queue.
pub open spec fn items_of<W, E>(queue: Seq<Delivery<W, E>>) -> Seq<Item<W, E>> {
    Seq::new(queue.len(), |i: int| item_of(queue[i]))
}

/// The server after `input`.
///
/// A server that was torn down queues nothing. A live one queues a complete
/// message, and a failure if it is strict; any other word of a framer queues
/// nothing.
pub open spec fn step<W, E>(s: ServerState<W, E>, input: ServerInput<W, E>) -> ServerState<W, E> {
    match input {
        ServerInput::Accepted => s,
        ServerInput::Failed(e) => if s.alive && s.strict {
            ServerState { queue: s.queue.push(Item::Failure(e)), ..s }
        } else {
            s
        },
        ServerInput::Framed(frame, writer) => match frame {
            Frame::Complete(text) => if s.alive {
                ServerState { queue: s.queue.push(Item::Message(text, writer)), ..s }
            } else {
                s
            },
            _ => s,
        },
        ServerInput::Taken => if s.queue.len() > 0 {
            ServerState { queue: s.queue.drop_first(), ..s }
        } else {
            s
        },
        ServerInput::Stopped => ServerState { alive: false, queue: Seq::empty(), ..s },
    }
}

/// The server after each of `inputs` in turn.
pub open spec fn run<W, E>(s: ServerState<W, E>, inputs: Seq<ServerInput<W, E>>) -> ServerState<
    W,
    E,
>
    decreases inputs.len(),
{
    if inputs.len() == 0 {
        s
    } else {
        step(run(s, inputs.drop_last()), inputs.last())
    }
}

/// What the accept loop does after an accept that ended in `outcome`.
pub open spec fn action_after<W, E>(s: ServerState<W, E>, outcome: Result<(), E>) -> LoopAction {
    if !s.alive {
        LoopAction::Exit
    } else if outcome is Ok {
        LoopAction::HandOff
    } else {
        LoopAction::Continue
    }
}

/// The input that an accept's outcome amounts to.
pub open spec fn accept_input<W, E>(outcome: Result<(), E>) -> ServerInput<W, E> {
    match outcome {
        Ok(_) => ServerInput::Accepted,
        Err(e) => ServerInput::Failed(e),
    }
}

/// The server's state: its settings, whether it lives, and its queue.
///
/// `W` is the write half of a connection and `E` the failure that the
/// transport reports. The server passes both on as they are.
pub struct ConsoleServer<W, E> {
    framing: Framing,
    strict: bool,
    alive: bool,
    queue: VecDeque<Delivery<W, E>>,
}

impl<W, E> View for ConsoleServer<W, E> {
    type V = ServerState<W, E>;

    closed spec fn view(&self) -> ServerState<W, E> {
        ServerState {
            framing: self.framing,
            strict: self.strict,
            alive: self.alive,
            queue: items_of(self.queue@),
        }
    }
}

impl<W, E> ConsoleServer<W, E> {
    /// A live server with an empty queue.
    pub fn new(framing: Framing, strict: bool) -> (server: Self)
        ensures
            server@ == (ServerState::<W, E> { framing, strict, alive: true, queue: Seq::empty() }),
    {
        let server = ConsoleServer { framing, strict, alive: true, queue: VecDeque::new() };
        assert(items_of(server.queue@) =~= Seq::<Item<W, E>>::empty());
        server
    }

    /// Whether the server has not been torn down.
    pub fn is_alive(&self) -> (alive: bool)
        ensures
            alive == self@.alive,
    {
        self.alive
    }

    /// How many deliveries wait for the owning process.
    pub fn pending(&self) -> (n: usize)
        ensures
            n == self@.queue.len(),
    {
        self.queue.len()
    }

    /// A framer for a connection that was just accepted.
    pub fn framer(&self) -> (framer: Framer)
        ensures
            framer.wf(),
            framer.framing() == self@.framing,
            framer.buffered() == Seq::<u8>::empty(),
            !framer.finished(),
    {
        Framer::new(self.framing)
    }

    /// Takes in the outcome of an accept and says what the loop does next.
    /// A failure never ends the loop: a strict server queues it, a lenient
    /// one passes over it.
    pub fn on_accept(&mut self, outcome: Result<(), E>) -> (action: LoopAction)
        ensures
            final(self)@ == step(old(self)@, accept_input(outcome)),
            action == action_after(old(self)@, outcome),
    {
        if !self.alive {
            match outcome {
                Ok(_) => {},
                Err(_) => {},
            }
            return LoopAction::Exit;
        }
        match outcome {
            Ok(_) => LoopAction::HandOff,
            Err(e) => {
                self.on_failure(e);
                LoopAction::Continue
            },
        }
    }

    /// Takes in a failed accept or read. Says whether it was queued.
    pub fn on_failure(&mut self, e: E) -> (queued: bool)
        ensures
            final(self)@ == step(old(self)@, ServerInput::Failed(e)),
            queued == (old(self)@.alive && old(self)@.strict),
    {
        if self.alive && self.strict {
            let ghost before = self.queue@;
            self.queue.push_back(Err(e));
            assert(items_of(self.queue@) =~= items_of(before).push(Item::Failure(e)));
            true
        } else {
            false
        }
    }

    /// Takes in the last word of a connection's framer, with the
    /// connection's write half. Says whether a message was queued; where
    /// none was, the write half is dropped, and the connection with it.
    pub fn publish(&mut self, word: FrameStep, writer: W) -> (queued: bool)
        ensures
            final(self)@ == step(old(self)@, ServerInput::Framed(word@, writer)),
            queued == (old(self)@.alive && word@ is Complete),
    {
        match word {
            FrameStep::Complete(text) => {
                if self.alive {
                    let ghost before = self.queue@;
                    let event = ReceiveEvent::new(text, writer);
                    self.queue.push_back(Ok(event));
                    assert(items_of(self.queue@) =~= items_of(before).push(
                        Item::Message(text@, writer),
                    ));
                    true
                } else {
                    false
                }
            },
            _ => false,
        }
    }

    /// Hands out the oldest delivery, if one waits.
    pub fn accept(&mut self) -> (next: Option<Delivery<W, E>>)
        ensures
            final(self)@ == step(old(self)@, ServerInput::Taken),
            next is Some <==> old(self)@.queue.len() > 0,
            next is Some ==> item_of(next->0) == old(self)@.queue[0],
    {
        let ghost before = self.queue@;
        let next = self.queue.pop_front();
        proof {
            if before.len() > 0 {
                assert(items_of(self.queue@) =~= items_of(before).drop_first());
            }
        }
        next
    }

    /// Tears the server down: what is queued is abandoned, and nothing is
    /// queued from now on.
    pub fn stop(&mut self)
        ensures
            final(self)@ == step(old(self)@, ServerInput::Stopped),
    {
        self.alive = false;
        self.queue.clear();
        assert(items_of(self.queue@) =~= Seq::<Item<W, E>>::empty());
    }
}

/// After teardown nothing reaches the owning process: whatever happens then,
/// the server stays torn down, its queue stays empty, and the accept loop
/// hands off no connection.
pub proof fn lemma_stopped_stays_silent<W, E>(
    s: ServerState<W, E>,
    inputs: Seq<ServerInput<W, E>>,
)
    ensures
        run(step(s, ServerInput::Stopped), inputs) == step(s, ServerInput::Stopped),
        !run(step(s, ServerInput::Stopped), inputs).alive,
        run(step(s, ServerInput::Stopped), inputs).queue.len() == 0,
        forall|outcome: Result<(), E>|
            action_after(run(step(s, ServerInput::Stopped), inputs), outcome) == LoopAction::Exit,
    decreases inputs.len(),
{
    if inputs.len() > 0 {
        lemma_stopped_stays_silent(s, inputs.drop_last());
        let stopped = step(s, ServerInput::Stopped);
        assert(step(stopped, inputs.last()).queue =~= stopped.queue);
    }
}

/// The inputs of connections that each carried one of `texts` under line
/// framing, in the order in which their framers finished.
pub open spec fn line_arrivals<W, E>(texts: Seq<Seq<char>>, writers: Seq<W>) -> Seq<
    ServerInput<W, E>,
> {
    Seq::new(
        texts.len(),
        |i: int|
            ServerInput::Framed(
                frame_of(Framing::Line, wire_bytes(Framing::Line, texts[i]), false),
                writers[i],
            ),
    )
}

/// One message for each of `texts`, with its connection's write half.
pub open spec fn messages<W, E>(texts: Seq<Seq<char>>, writers: Seq<W>) -> Seq<Item<W, E>> {
    Seq::new(texts.len(), |i: int| Item::Message(texts[i], writers[i]))
}

/// Messages sent over connections of their own are all delivered, each
/// once: in whatever order the connections finish, a live server queues
/// exactly one message for each, with the text that was sent, in the order
/// of finishing.
pub proof fn lemma_every_message_delivered<W, E>(
    s: ServerState<W, E>,
    texts: Seq<Seq<char>>,
    writers: Seq<W>,
)
    requires
        s.alive,
        texts.len() == writers.len(),
        forall|i: int| 0 <= i < texts.len() ==> !(#[trigger] texts[i]).contains('\n'),
    ensures
        run(s, line_arrivals(texts, writers)) == (ServerState {
            queue: s.queue + messages(texts, writers),
            ..s
        }),
    decreases texts.len(),
{
    let inputs = line_arrivals::<W, E>(texts, writers);
    if texts.len() == 0 {
        assert(s.queue + messages::<W, E>(texts, writers) =~= s.queue);
    } else {
        let n = texts.len() - 1;
        let head_texts = texts.drop_last();
        let head_writers = writers.drop_last();
        assert forall|i: int| 0 <= i < head_texts.len() implies !(#[trigger] head_texts[i]).contains(
            '\n',
        ) by {
            assert(head_texts[i] == texts[i]);
        }
        lemma_every_message_delivered(s, head_texts, head_writers);
        assert(inputs.drop_last() =~= line_arrivals::<W, E>(head_texts, head_writers));
        lemma_line_round_trip(texts[n], 0);
        assert(inputs.last() == ServerInput::<W, E>::Framed(
            Frame::Complete(texts[n]),
            writers[n],
        ));
        assert((s.queue + messages::<W, E>(head_texts, head_writers)).push(
            Item::Message(texts[n], writers[n]),
        ) =~= s.queue + messages::<W, E>(texts, writers));
    }
}

} // verus!
