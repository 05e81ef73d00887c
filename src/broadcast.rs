use vstd::prelude::*;
use crate::server::Node;

verus! {

/// Payloads of the broadcast exercise.
pub enum Message {
    Init,
    InitOk,
    Broadcast { message: usize },
    BroadcastOk,
    Read,
    ReadOk { messages: Vec<usize> },
    Topology,
    TopologyOk,
}

/// A single node that records every broadcast value it is sent and hands
/// back the whole record on `Read`.
pub struct BroadcastNode {
    history: Vec<usize>,
}

impl View for BroadcastNode {
    type V = Seq<usize>;

    /// The values received so far, in the order they arrived.
    closed spec fn view(&self) -> Seq<usize> {
        self.history@
    }
}

impl BroadcastNode {
    pub fn new() -> (r: Self)
        ensures
            r@ == Seq::<usize>::empty(),
    {
        BroadcastNode { history: Vec::with_capacity(16) }
    }

    /// The values received so far, in the order they arrived.
    pub fn history(&self) -> (r: Vec<usize>)
        ensures
            r@ == self@,
    {
        let mut r: Vec<usize> = Vec::with_capacity(self.history.len());
        let mut i: usize = 0;
        while i < self.history.len()
            invariant
                i <= self.history@.len(),
                r@ == self.history@.take(i as int),
            decreases self.history@.len() - i,
        {
            r.push(self.history[i]);
            i = i + 1;
            proof {
                assert(r@ =~= self.history@.take(i as int));
            }
        }
        proof {
            assert(self.history@.take(i as int) =~= self.history@);
        }
        r
    }
}

impl Node for BroadcastNode {
    type Payload = Message;

    open spec fn accepts(&self, message: Message) -> bool {
        message is Init || message is Broadcast || message is Read || message is Topology
    }

    open spec fn responds(before: Self, message: Message, after: Self, response: Message) -> bool {
        match message {
            Message::Init => after@ == before@ && response is InitOk,
            Message::Broadcast { message: value } => after@ == before@.push(value) && response is BroadcastOk,
            Message::Read => after@ == before@ && match response {
                Message::ReadOk { messages } => messages@ == before@,
                _ => false,
            },
            Message::Topology => after@ == before@ && response is TopologyOk,
            _ => false,
        }
    }

    fn supports(&self, message: &Message) -> (r: bool) {
        match message {
            Message::Init | Message::Broadcast { .. } | Message::Read | Message::Topology => true,
            _ => false,
        }
    }

    fn process(&mut self, message: &Message) -> (r: Message) {
        match message {
            Message::Init => Message::InitOk,
            Message::Broadcast { message } => {
                self.history.push(*message);
                Message::BroadcastOk
            },
            Message::Read => Message::ReadOk { messages: self.history() },
            Message::Topology => Message::TopologyOk,
            _ => Message::TopologyOk,
        }
    }
}

/// `states` is a run of the node that answered `Broadcast` for each of
/// `values` in turn.
pub open spec fn broadcast_run(states: Seq<BroadcastNode>, values: Seq<usize>, replies: Seq<Message>) -> bool {
    &&& states.len() == values.len() + 1
    &&& replies.len() == values.len()
    &&& forall|i: int|
        0 <= i < values.len() ==> BroadcastNode::responds(
            states[i],
            Message::Broadcast { message: values[i] },
            states[i + 1],
            #[trigger] replies[i],
        )
}

proof fn lemma_run_records_prefix(states: Seq<BroadcastNode>, values: Seq<usize>, replies: Seq<Message>, k: int)
    requires
        broadcast_run(states, values, replies),
        states[0]@ == Seq::<usize>::empty(),
        0 <= k <= values.len(),
    ensures
        states[k]@ == values.take(k),
    decreases k,
{
    if k > 0 {
        lemma_run_records_prefix(states, values, replies, k - 1);
        assert(BroadcastNode::responds(
            states[k - 1],
            Message::Broadcast { message: values[k - 1] },
            states[k - 1 + 1],
            replies[k - 1],
        ));
        assert(values.take(k - 1).push(values[k - 1]) =~= values.take(k));
    } else {
        assert(values.take(0) =~= Seq::<usize>::empty());
    }
}

/// Starting from an empty record, once the node has answered `Broadcast` for
/// each of `values` in turn, `Read` is answered with exactly `values`, in the
/// order they were received: nothing dropped, merged or reordered.
pub proof fn lemma_read_returns_broadcasts(
    states: Seq<BroadcastNode>,
    values: Seq<usize>,
    replies: Seq<Message>,
    last: BroadcastNode,
    reply: Message,
)
    requires
        broadcast_run(states, values, replies),
        states[0]@ == Seq::<usize>::empty(),
        BroadcastNode::responds(states[values.len() as int], Message::Read, last, reply),
    ensures
        match reply {
            Message::ReadOk { messages } => messages@ == values,
            _ => false,
        },
{
    lemma_run_records_prefix(states, values, replies, values.len() as int);
    assert(values.take(values.len() as int) =~= values);
}

} // verus!
