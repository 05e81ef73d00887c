use vstd::prelude::*;
use crate::envelope::{answers, Message};

verus! {

/// A participant of the network: it turns one request payload into one
/// response payload and may keep state between requests.
pub trait Node {
    type Payload;

    /// The payloads this node is able to answer.
    spec fn accepts(&self, message: Self::Payload) -> bool;

    /// `response` is this node's answer to `message`, taking it from state
    /// `before` to state `after`.
    spec fn responds(before: Self, message: Self::Payload, after: Self, response: Self::Payload) -> bool
        where Self: Sized;

    /// Whether this node answers `message` in its current state.
    fn supports(&self, message: &Self::Payload) -> (r: bool)
        ensures
            r == self.accepts(*message),
    ;

    /// Answers one request payload.
    fn process(&mut self, message: &Self::Payload) -> (r: Self::Payload)
        where Self: Sized
        requires
            old(self).accepts(*message),
        ensures
            Self::responds(*old(self), *message, *final(self), r),
    ;
}

/// What the input side hands the loop: one decoded message, a line that
/// could not be decoded, or the end of the input stream.
pub enum Event<P> {
    Received(Message<P>),
    Malformed,
    Closed,
}

/// Why the loop gave up.
#[derive(PartialEq, Eq, Structural, Clone, Copy, Debug)]
pub enum Failure {
    /// A line was not a well-formed message.
    Framing,
    /// The node was handed a payload it does not answer.
    UnsupportedVariant,
    /// No fresh message id is left for a reply.
    IdsExhausted,
}

/// What the output side must do after one step of the loop.
pub enum Action<P> {
    /// Write this message as one line and flush.
    Send(Message<P>),
    /// The input is over: exit normally.
    Stop,
    /// A fatal protocol condition: abort without writing anything.
    Abort(Failure),
}

/// The read, process and write loop around a node.
///
/// Each reply gets the next value of a counter as its id, so the ids this
/// node sends rise strictly over its whole output.
pub struct Server<N: Node> {
    pub node: N,
    pub next_msg_id: usize,
    pub stopped: bool,
}

impl<N: Node> Server<N> {
    /// One step of the loop, from the state `before` and the event to the
    /// state `after` and the action taken.
    pub open spec fn transition(before: Self, event: Event<N::Payload>, after: Self, action: Action<N::Payload>) -> bool {
        if before.stopped {
            action is Stop && after == before
        } else {
            match event {
                Event::Closed => action is Stop && after == Server { stopped: true, ..before },
                Event::Malformed => action == Action::<N::Payload>::Abort(Failure::Framing)
                    && after == Server { stopped: true, ..before },
                Event::Received(request) => {
                    if !before.node.accepts(request.body.payload) {
                        action == Action::<N::Payload>::Abort(Failure::UnsupportedVariant)
                            && after == Server { stopped: true, ..before }
                    } else if before.next_msg_id == usize::MAX {
                        action == Action::<N::Payload>::Abort(Failure::IdsExhausted)
                            && after == Server { stopped: true, ..before }
                    } else {
                        &&& action is Send
                        &&& answers(action->Send_0, request)
                        &&& action->Send_0.body.msg_id == before.next_msg_id
                        &&& N::responds(before.node, request.body.payload, after.node, action->Send_0.body.payload)
                        &&& after.next_msg_id == before.next_msg_id + 1
                        &&& !after.stopped
                    }
                },
            }
        }
    }

    pub fn new(node: N) -> (r: Self)
        ensures
            r.node == node,
            r.next_msg_id == 0,
            !r.stopped,
    {
        Server { node, next_msg_id: 0, stopped: false }
    }

    pub fn is_running(&self) -> (r: bool)
        ensures
            r == !self.stopped,
    {
        !self.stopped
    }

    /// Takes one event of the input side and says what the output side must do.
    pub fn step(&mut self, event: Event<N::Payload>) -> (r: Action<N::Payload>)
        ensures
            Self::transition(*old(self), event, *final(self), r),
    {
        if self.stopped {
            return Action::Stop;
        }
        match event {
            Event::Closed => {
                self.stopped = true;
                Action::Stop
            },
            Event::Malformed => {
                self.stopped = true;
                Action::Abort(Failure::Framing)
            },
            Event::Received(request) => {
                if !self.node.supports(&request.body.payload) {
                    self.stopped = true;
                    Action::Abort(Failure::UnsupportedVariant)
                } else if self.next_msg_id == usize::MAX {
                    self.stopped = true;
                    Action::Abort(Failure::IdsExhausted)
                } else {
                    let response = self.node.process(&request.body.payload);
                    let msg_id = self.next_msg_id;
                    self.next_msg_id = msg_id + 1;
                    Action::Send(request.reply(msg_id, response))
                }
            },
        }
    }
}

/// Every message the loop sends in answer to a request goes back to the
/// request's sender, comes from the node the request was sent to, and names
/// the request's id in `in_reply_to`.
pub proof fn lemma_reply_addressing<N: Node>(
    before: Server<N>,
    request: Message<N::Payload>,
    after: Server<N>,
    action: Action<N::Payload>,
)
    requires
        Server::transition(before, Event::Received(request), after, action),
        action is Send,
    ensures
        action->Send_0.src@ == request.dest@,
        action->Send_0.dest@ == request.src@,
        action->Send_0.body.in_reply_to == Some(request.body.msg_id),
{
}

/// Over any two steps in a row that both send, the second message's id is
/// strictly greater than the first's.
pub proof fn lemma_ids_increase<N: Node>(
    s0: Server<N>,
    e0: Event<N::Payload>,
    s1: Server<N>,
    a0: Action<N::Payload>,
    e1: Event<N::Payload>,
    s2: Server<N>,
    a1: Action<N::Payload>,
)
    requires
        Server::transition(s0, e0, s1, a0),
        Server::transition(s1, e1, s2, a1),
        a0 is Send,
        a1 is Send,
    ensures
        a0->Send_0.body.msg_id < a1->Send_0.body.msg_id,
{
}

} // verus!
