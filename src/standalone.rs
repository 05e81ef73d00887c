use vstd::prelude::*;
use crate::id::{id_shaped, IdNode};

verus! {

/// The body of a message for the node that plays every exercise at once.
/// Each request carries its own `msg_id`; each answer names it in
/// `in_reply_to`.
pub enum Body {
    Init { msg_id: usize, node_id: String, node_ids: Vec<String> },
    InitOk { in_reply_to: usize },
    Echo { msg_id: usize, echo: String },
    EchoOk { msg_id: usize, in_reply_to: usize, echo: String },
    Generate { msg_id: usize },
    GenerateOk { id: String, msg_id: usize, in_reply_to: usize },
    Broadcast { msg_id: usize, message: usize },
    BroadcastOk { msg_id: usize, in_reply_to: usize },
    Read { msg_id: usize },
    ReadOk { msg_id: usize, in_reply_to: usize, messages: Vec<usize> },
    Topology { msg_id: usize },
    TopologyOk { msg_id: usize, in_reply_to: usize },
}

/// One addressed message for the node that plays every exercise at once.
pub struct Message {
    pub src: String,
    pub dest: String,
    pub body: Body,
}

/// A node that answers init, echo, generate, broadcast, read and topology
/// requests. `node_id` is the number in its name; `msg_counter` is the id
/// of its next reply.
pub struct Node {
    pub node_id: usize,
    pub msg_counter: usize,
    pub generator: IdNode,
    pub broadcast_history: Vec<usize>,
}

/// The value of a run of decimal digits.
pub open spec fn decimal_value(s: Seq<char>) -> nat
    decreases s.len(),
{
    if s.len() == 0 {
        0
    } else {
        decimal_value(s.drop_last()) * 10 + digit_value(s.last())
    }
}

/// The value of a decimal digit.
pub open spec fn digit_value(c: char) -> nat {
    (c as int - '0' as int) as nat
}

pub open spec fn is_digit(c: char) -> bool {
    '0' <= c <= '9'
}

/// The number in a node name such as `n2`: the decimal digits after its
/// first character, when there are some, nothing else follows, and the
/// number fits in a `usize`.
pub open spec fn index_of(name: Seq<char>) -> Option<usize> {
    let digits = name.drop_first();
    if name.len() >= 2 && (forall|i: int| 0 <= i < digits.len() ==> is_digit(#[trigger] digits[i]))
        && decimal_value(digits) <= usize::MAX {
        Some(decimal_value(digits) as usize)
    } else {
        None
    }
}

/// The number in a node name such as `n2`, or `None` where the name holds none.
pub fn node_index(name: &str) -> (r: Option<usize>)
    ensures
        r == index_of(name@),
{
    let len = name.unicode_len();
    if len < 2 {
        return None;
    }
    let ghost digits = name@.drop_first();
    let mut value: usize = 0;
    let mut i: usize = 1;
    while i < len
        invariant
            len == name@.len(),
            1 <= i <= len,
            digits == name@.drop_first(),
            forall|k: int| 0 <= k < i - 1 ==> is_digit(#[trigger] digits[k]),
            value as nat == decimal_value(digits.take(i - 1)),
        decreases len - i,
    {
        let c = name.get_char(i);
        assert(digits[i - 1] == c);
        if !('0' <= c && c <= '9') {
            return None;
        }
        let d = (c as u32 - '0' as u32) as usize;
        assert(digits.take(i as int).drop_last() =~= digits.take(i - 1));
        if value > (usize::MAX - d) / 10 {
            proof {
                assert(decimal_value(digits.take(i as int)) > usize::MAX) by (nonlinear_arith)
                    requires
                        decimal_value(digits.take(i as int)) == value * 10 + d,
                        value > (usize::MAX - d) / 10,
                        d <= 9,
                ;
                lemma_prefix_bound(digits, i as int);
            }
            return None;
        }
        assert(value * 10 + d <= usize::MAX) by (nonlinear_arith)
            requires
                value <= (usize::MAX - d) / 10,
                d <= 9,
        ;
        value = value * 10 + d;
        i = i + 1;
    }
    assert(digits.take(len - 1) =~= digits);
    Some(value)
}

/// A longer run of digits is worth at least as much as its prefix.
proof fn lemma_prefix_bound(digits: Seq<char>, k: int)
    requires
        0 <= k <= digits.len(),
    ensures
        (forall|i: int| 0 <= i < digits.len() ==> is_digit(#[trigger] digits[i])) ==> decimal_value(
            digits.take(k),
        ) <= decimal_value(digits),
    decreases digits.len() - k,
{
    if k < digits.len() {
        lemma_prefix_bound(digits, k + 1);
        assert(digits.take(k + 1).drop_last() =~= digits.take(k));
        if forall|i: int| 0 <= i < digits.len() ==> is_digit(#[trigger] digits[i]) {
            assert(is_digit(digits[k]));
        }
    } else {
        assert(digits.take(k) =~= digits);
    }
}

/// The node can answer `request`: it is a request, and the ids it needs are
/// not used up.
pub open spec fn can_answer(before: Node, request: Body) -> bool {
    match request {
        Body::Init { .. } => true,
        Body::Echo { .. } | Body::Broadcast { .. } | Body::Read { .. } | Body::Topology { .. } => before.msg_counter
            < usize::MAX,
        Body::Generate { .. } => before.msg_counter < usize::MAX && before.generator.count() < u64::MAX,
        _ => false,
    }
}

/// Only the reply counter moved on, by one.
pub open spec fn counted(before: Node, after: Node) -> bool {
    &&& after.node_id == before.node_id
    &&& after.msg_counter == before.msg_counter + 1
    &&& after.generator == before.generator
    &&& after.broadcast_history@ == before.broadcast_history@
}

/// `response` is the node's answer to `request`, taking it from state
/// `before` to state `after`.
pub open spec fn answers_body(before: Node, request: Body, after: Node, response: Body) -> bool {
    let n = before.msg_counter;
    match request {
        Body::Init { msg_id, node_id, .. } => {
            &&& response == Body::InitOk { in_reply_to: msg_id }
            &&& after.node_id == before.node_id
            &&& after.msg_counter == n
            &&& after.generator.name() == node_id@
            &&& after.generator.count() == before.generator.count()
            &&& after.broadcast_history@ == before.broadcast_history@
        },
        Body::Echo { msg_id, echo } => counted(before, after) && match response {
            Body::EchoOk { msg_id: m, in_reply_to, echo: e } => m == n && in_reply_to == msg_id && e@ == echo@,
            _ => false,
        },
        Body::Generate { msg_id } => {
            &&& after.node_id == before.node_id
            &&& after.msg_counter == n + 1
            &&& after.generator.name() == before.generator.name()
            &&& after.generator.count() == before.generator.count() + 1
            &&& after.broadcast_history@ == before.broadcast_history@
            &&& match response {
                Body::GenerateOk { id, msg_id: m, in_reply_to } => m == n && in_reply_to == msg_id && id_shaped(
                    before.generator.name(),
                    before.generator.count(),
                    id@,
                ),
                _ => false,
            }
        },
        Body::Broadcast { msg_id, message } => {
            &&& after.node_id == before.node_id
            &&& after.msg_counter == n + 1
            &&& after.generator == before.generator
            &&& after.broadcast_history@ == before.broadcast_history@.push(message)
            &&& response == Body::BroadcastOk { msg_id: n, in_reply_to: msg_id }
        },
        Body::Read { msg_id } => counted(before, after) && match response {
            Body::ReadOk { msg_id: m, in_reply_to, messages } => m == n && in_reply_to == msg_id && messages@
                == before.broadcast_history@,
            _ => false,
        },
        Body::Topology { msg_id } => counted(before, after) && response == Body::TopologyOk {
            msg_id: n,
            in_reply_to: msg_id,
        },
        _ => false,
    }
}

impl Node {
    pub fn new(node_id: usize) -> (r: Self)
        ensures
            r.node_id == node_id,
            r.msg_counter == 0,
            r.generator.name() == Seq::<char>::empty(),
            r.generator.count() == 0,
            r.broadcast_history@ == Seq::<usize>::empty(),
    {
        Node { node_id, msg_counter: 0, generator: IdNode::new(), broadcast_history: vec![] }
    }

    fn copy_history(&self) -> (r: Vec<usize>)
        ensures
            r@ == self.broadcast_history@,
    {
        let mut r: Vec<usize> = Vec::new();
        let mut i: usize = 0;
        while i < self.broadcast_history.len()
            invariant
                i <= self.broadcast_history@.len(),
                r@ == self.broadcast_history@.take(i as int),
            decreases self.broadcast_history@.len() - i,
        {
            r.push(self.broadcast_history[i]);
            i = i + 1;
            proof {
                assert(r@ =~= self.broadcast_history@.take(i as int));
            }
        }
        proof {
            assert(self.broadcast_history@.take(i as int) =~= self.broadcast_history@);
        }
        r
    }

    /// Answers one message: the reply goes back to its sender, from the node
    /// it was sent to. `None` where there is nothing to answer: the message
    /// is itself an answer, or the ids it needs are used up.
    pub fn next(&mut self, msg: Message) -> (r: Option<Message>)
        ensures
            r is Some <==> can_answer(*old(self), msg.body),
            r is Some ==> {
                &&& r->0.src@ == msg.dest@
                &&& r->0.dest@ == msg.src@
                &&& answers_body(*old(self), msg.body, *final(self), r->0.body)
            },
            r is None ==> *final(self) == *old(self),
    {
        let Message { src, dest, body } = msg;
        let n = self.msg_counter;
        let body = match body {
            Body::Init { msg_id, node_id, .. } => {
                self.generator.init(node_id);
                Body::InitOk { in_reply_to: msg_id }
            },
            Body::Echo { msg_id, echo } => {
                if n == usize::MAX {
                    return None;
                }
                self.msg_counter = n + 1;
                Body::EchoOk { msg_id: n, in_reply_to: msg_id, echo }
            },
            Body::Generate { msg_id } => {
                if n == usize::MAX || !(self.generator.count_below_max()) {
                    return None;
                }
                let id = self.generator.generate();
                self.msg_counter = n + 1;
                Body::GenerateOk { id, msg_id: n, in_reply_to: msg_id }
            },
            Body::Broadcast { msg_id, message } => {
                if n == usize::MAX {
                    return None;
                }
                self.broadcast_history.push(message);
                self.msg_counter = n + 1;
                Body::BroadcastOk { msg_id: n, in_reply_to: msg_id }
            },
            Body::Read { msg_id } => {
                if n == usize::MAX {
                    return None;
                }
                let messages = self.copy_history();
                self.msg_counter = n + 1;
                Body::ReadOk { msg_id: n, in_reply_to: msg_id, messages }
            },
            Body::Topology { msg_id } => {
                if n == usize::MAX {
                    return None;
                }
                self.msg_counter = n + 1;
                Body::TopologyOk { msg_id: n, in_reply_to: msg_id }
            },
            _ => {
                return None;
            },
        };
        Some(Message { src: dest, dest: src, body })
    }
}

/// The node for the name it was given, such as `n2`.
pub fn get_node(node_id: &str) -> (r: Node)
    requires
        index_of(node_id@) is Some,
    ensures
        r.node_id == index_of(node_id@)->0,
        r.msg_counter == 0,
        r.generator.name() == Seq::<char>::empty(),
        r.generator.count() == 0,
        r.broadcast_history@ == Seq::<usize>::empty(),
{
    Node::new(node_index(node_id).unwrap())
}

} // verus!
