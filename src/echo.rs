use vstd::prelude::*;
use crate::envelope::Message as Envelope;
use crate::server::{Action, Event, Node, Server};

verus! {

/// Payloads of the echo exercise.
pub enum Message {
    Init { node_id: String, node_ids: Vec<String> },
    InitOk,
    Echo { echo: String },
    EchoOk { echo: String },
}

/// A node that answers every `Echo` with the text it was sent.
pub struct EchoNode;

impl Node for EchoNode {
    type Payload = Message;

    open spec fn accepts(&self, message: Message) -> bool {
        message is Init || message is Echo
    }

    open spec fn responds(before: Self, message: Message, after: Self, response: Message) -> bool {
        match message {
            Message::Init { .. } => response is InitOk,
            Message::Echo { echo } => match response {
                Message::EchoOk { echo: back } => back@ == echo@,
                _ => false,
            },
            _ => false,
        }
    }

    fn supports(&self, message: &Message) -> (r: bool) {
        match message {
            Message::Init { .. } | Message::Echo { .. } => true,
            _ => false,
        }
    }

    fn process(&mut self, message: &Message) -> (r: Message) {
        match message {
            Message::Echo { echo } => Message::EchoOk { echo: echo.clone() },
            _ => Message::InitOk,
        }
    }
}

/// Whatever the text `v` of an `Echo`, the loop answers it with an `EchoOk`
/// that carries `v` unchanged and whose `in_reply_to` is the request's
/// `msg_id`.
pub proof fn lemma_echo_reply(
    before: Server<EchoNode>,
    request: Envelope<Message>,
    after: Server<EchoNode>,
    action: Action<Message>,
)
    requires
        Server::transition(before, Event::Received(request), after, action),
        !before.stopped,
        before.next_msg_id < usize::MAX,
        request.body.payload is Echo,
    ensures
        action is Send,
        action->Send_0.body.in_reply_to == Some(request.body.msg_id),
        match (request.body.payload, action->Send_0.body.payload) {
            (Message::Echo { echo }, Message::EchoOk { echo: back }) => back@ == echo@,
            _ => false,
        },
{
}

} // verus!
