use vstd::prelude::*;
use crate::server::Node;

verus! {

/// Payloads of the unique-id exercise.
pub enum Message {
    Init { node_id: String, node_ids: Vec<String> },
    InitOk,
    Generate,
    GenerateOk { id: String },
}

/// The lowercase hexadecimal digit of `d`, for `d < 16`.
pub open spec fn hex_digit(d: u64) -> char {
    seq!['0', '1', '2', '3', '4', '5', '6', '7', '8', '9', 'a', 'b', 'c', 'd', 'e', 'f'][d as int]
}

/// The `j`-th group of four bits of `n`, counted from the least significant.
pub open spec fn nibble(n: u64, j: int) -> u64 {
    (n >> ((4 * j) as u64)) & 15u64
}

/// `n` written as sixteen hexadecimal digits, most significant first.
pub open spec fn hex_u64(n: u64) -> Seq<char> {
    Seq::new(16, |i: int| hex_digit(nibble(n, 15 - i)))
}

/// `id` is what a node named `node` hands out as its `count`-th identifier:
/// the node's name, a dash, the count as sixteen hexadecimal digits, then
/// thirty-two hexadecimal digits of a time-ordered random identifier.
pub open spec fn id_shaped(node: Seq<char>, count: u64, id: Seq<char>) -> bool {
    &&& id.len() == node.len() + 49
    &&& id.take(node.len() + 1 as int) == node.push('-')
    &&& id.subrange(node.len() + 1 as int, node.len() + 17 as int) == hex_u64(count)
}

fn hex_digit_str(d: u64) -> (r: &'static str)
    requires
        d < 16,
    ensures
        r@ == seq![hex_digit(d)],
{
    if d == 0 {
        proof { reveal_strlit("0"); }
        "0"
    } else if d == 1 {
        proof { reveal_strlit("1"); }
        "1"
    } else if d == 2 {
        proof { reveal_strlit("2"); }
        "2"
    } else if d == 3 {
        proof { reveal_strlit("3"); }
        "3"
    } else if d == 4 {
        proof { reveal_strlit("4"); }
        "4"
    } else if d == 5 {
        proof { reveal_strlit("5"); }
        "5"
    } else if d == 6 {
        proof { reveal_strlit("6"); }
        "6"
    } else if d == 7 {
        proof { reveal_strlit("7"); }
        "7"
    } else if d == 8 {
        proof { reveal_strlit("8"); }
        "8"
    } else if d == 9 {
        proof { reveal_strlit("9"); }
        "9"
    } else if d == 10 {
        proof { reveal_strlit("a"); }
        "a"
    } else if d == 11 {
        proof { reveal_strlit("b"); }
        "b"
    } else if d == 12 {
        proof { reveal_strlit("c"); }
        "c"
    } else if d == 13 {
        proof { reveal_strlit("d"); }
        "d"
    } else if d == 14 {
        proof { reveal_strlit("e"); }
        "e"
    } else {
        proof { reveal_strlit("f"); }
        "f"
    }
}

/// Appends the hexadecimal digit of `d`.
fn push_hex_digit(s: &mut String, d: u64)
    requires
        d < 16,
    ensures
        final(s)@ == old(s)@.push(hex_digit(d)),
{
    s.append(hex_digit_str(d));
}

/// Appends `n` as sixteen hexadecimal digits, most significant first.
fn push_hex_u64(s: &mut String, n: u64)
    ensures
        final(s)@ == old(s)@ + hex_u64(n),
{
    let ghost start = s@;
    let mut i: u64 = 0;
    while i < 16
        invariant
            i <= 16,
            s@ == start + hex_u64(n).take(i as int),
        decreases 16 - i,
    {
        let shift: u64 = 4 * (15 - i);
        let d = (n >> shift) & 15u64;
        proof {
            assert(d == nibble(n, 15 - i));
            assert(d < 16) by (bit_vector)
                requires
                    d == (n >> shift) & 15u64,
            ;
        }
        push_hex_digit(s, d);
        proof {
            assert(hex_u64(n).take(i as int).push(hex_digit(d)) =~= hex_u64(n).take(i + 1));
        }
        i = i + 1;
    }
    proof {
        assert(hex_u64(n).take(16) =~= hex_u64(n));
    }
}

/// Appends two hexadecimal digits for each byte of `bytes`.
fn push_hex_bytes(s: &mut String, bytes: &[u8; 16])
    ensures
        final(s)@.len() == old(s)@.len() + 32,
        final(s)@.take(old(s)@.len() as int) == old(s)@,
{
    let ghost start = s@;
    let mut i: usize = 0;
    while i < 16
        invariant
            i <= 16,
            s@.len() == start.len() + 2 * i,
            s@.take(start.len() as int) == start,
        decreases 16 - i,
    {
        let b = bytes[i] as u64;
        let hi = b >> 4u64;
        let lo = b & 15u64;
        assert(hi < 16 && lo < 16) by (bit_vector)
            requires
                b < 256,
                hi == b >> 4u64,
                lo == b & 15u64,
        ;
        let ghost before = s@;
        push_hex_digit(s, hi);
        push_hex_digit(s, lo);
        proof {
            assert(s@.take(start.len() as int) =~= before.take(start.len() as int));
        }
        i = i + 1;
    }
}

proof fn lemma_hex_digit_injective(d1: u64, d2: u64)
    requires
        d1 < 16,
        d2 < 16,
        hex_digit(d1) == hex_digit(d2),
    ensures
        d1 == d2,
{
}

proof fn lemma_nibble_small(n: u64, j: int)
    requires
        0 <= j < 16,
    ensures
        nibble(n, j) < 16,
{
    let s = (4 * j) as u64;
    assert(((n >> s) & 15u64) < 16u64) by (bit_vector);
}

/// Sixteen hexadecimal digits name one number only.
pub proof fn lemma_hex_u64_injective(a: u64, b: u64)
    requires
        hex_u64(a) == hex_u64(b),
    ensures
        a == b,
{
    assert forall|j: int| 0 <= j < 16 implies nibble(a, j) == nibble(b, j) by {
        assert(hex_u64(a)[15 - j] == hex_u64(b)[15 - j]);
        assert(hex_u64(a)[15 - j] == hex_digit(nibble(a, 15 - (15 - j))));
        assert(hex_u64(b)[15 - j] == hex_digit(nibble(b, 15 - (15 - j))));
        assert(15 - (15 - j) == j);
        lemma_nibble_small(a, j);
        lemma_nibble_small(b, j);
        lemma_hex_digit_injective(nibble(a, j), nibble(b, j));
    }
    assert(nibble(a, 0) == nibble(b, 0));
    assert(nibble(a, 1) == nibble(b, 1));
    assert(nibble(a, 2) == nibble(b, 2));
    assert(nibble(a, 3) == nibble(b, 3));
    assert(nibble(a, 4) == nibble(b, 4));
    assert(nibble(a, 5) == nibble(b, 5));
    assert(nibble(a, 6) == nibble(b, 6));
    assert(nibble(a, 7) == nibble(b, 7));
    assert(nibble(a, 8) == nibble(b, 8));
    assert(nibble(a, 9) == nibble(b, 9));
    assert(nibble(a, 10) == nibble(b, 10));
    assert(nibble(a, 11) == nibble(b, 11));
    assert(nibble(a, 12) == nibble(b, 12));
    assert(nibble(a, 13) == nibble(b, 13));
    assert(nibble(a, 14) == nibble(b, 14));
    assert(nibble(a, 15) == nibble(b, 15));
    assert(a == b) by (bit_vector)
        requires
            (a >> 0u64) & 15u64 == (b >> 0u64) & 15u64,
            (a >> 4u64) & 15u64 == (b >> 4u64) & 15u64,
            (a >> 8u64) & 15u64 == (b >> 8u64) & 15u64,
            (a >> 12u64) & 15u64 == (b >> 12u64) & 15u64,
            (a >> 16u64) & 15u64 == (b >> 16u64) & 15u64,
            (a >> 20u64) & 15u64 == (b >> 20u64) & 15u64,
            (a >> 24u64) & 15u64 == (b >> 24u64) & 15u64,
            (a >> 28u64) & 15u64 == (b >> 28u64) & 15u64,
            (a >> 32u64) & 15u64 == (b >> 32u64) & 15u64,
            (a >> 36u64) & 15u64 == (b >> 36u64) & 15u64,
            (a >> 40u64) & 15u64 == (b >> 40u64) & 15u64,
            (a >> 44u64) & 15u64 == (b >> 44u64) & 15u64,
            (a >> 48u64) & 15u64 == (b >> 48u64) & 15u64,
            (a >> 52u64) & 15u64 == (b >> 52u64) & 15u64,
            (a >> 56u64) & 15u64 == (b >> 56u64) & 15u64,
            (a >> 60u64) & 15u64 == (b >> 60u64) & 15u64,
    ;
}

/// Relies on tuid::once: a fresh identifier made of the current time and
/// random bits, handed out as its sixteen bytes. Nothing is promised of its
/// value.
#[verifier::external_body]
fn draw_tuid() -> (r: [u8; 16]) {
    tuid::Bytes::from(tuid::once())
}

/// A node that hands out identifiers no other `Generate` answer repeats:
/// each one holds the node's name and how many it handed out before.
pub struct IdNode {
    node_id: String,
    generated: u64,
}

impl IdNode {
    /// The name this node was given by `Init`; empty before that.
    pub closed spec fn name(&self) -> Seq<char> {
        self.node_id@
    }

    /// How many identifiers this node has handed out.
    pub closed spec fn count(&self) -> u64 {
        self.generated
    }

    pub fn new() -> (r: Self)
        ensures
            r.name() == Seq::<char>::empty(),
            r.count() == 0,
    {
        IdNode { node_id: String::new(), generated: 0 }
    }

    /// Whether this node can still hand out an identifier.
    pub fn count_below_max(&self) -> (r: bool)
        ensures
            r == (self.count() < u64::MAX),
    {
        self.generated < u64::MAX
    }

    /// Takes the name this node was given.
    pub fn init(&mut self, node_id: String)
        ensures
            final(self).name() == node_id@,
            final(self).count() == old(self).count(),
    {
        self.node_id = node_id;
    }

    /// Hands out the next identifier.
    pub fn generate(&mut self) -> (r: String)
        requires
            old(self).count() < u64::MAX,
        ensures
            id_shaped(old(self).name(), old(self).count(), r@),
            final(self).name() == old(self).name(),
            final(self).count() == old(self).count() + 1,
    {
        let ghost name = self.node_id@;
        let mut id = self.node_id.clone();
        proof {
            reveal_strlit("-");
        }
        id.append("-");
        let ghost head = id@;
        push_hex_u64(&mut id, self.generated);
        let ghost counted = id@;
        let bytes = draw_tuid();
        push_hex_bytes(&mut id, &bytes);
        proof {
            assert(head =~= name.push('-'));
            assert(id@.take(counted.len() as int) == counted);
            assert(id@.take(name.len() + 1 as int) =~= counted.take(name.len() + 1 as int));
            assert(counted.take(name.len() + 1 as int) =~= head);
            assert(id@.subrange(name.len() + 1 as int, name.len() + 17 as int) =~= counted.subrange(
                name.len() + 1 as int,
                name.len() + 17 as int,
            ));
            assert(counted.subrange(name.len() + 1 as int, name.len() + 17 as int) =~= hex_u64(self.generated));
        }
        self.generated = self.generated + 1;
        id
    }
}

impl Node for IdNode {
    type Payload = Message;

    open spec fn accepts(&self, message: Message) -> bool {
        message is Init || (message is Generate && self.count() < u64::MAX)
    }

    open spec fn responds(before: Self, message: Message, after: Self, response: Message) -> bool {
        match message {
            Message::Init { node_id, .. } => {
                &&& after.name() == node_id@
                &&& after.count() == before.count()
                &&& response is InitOk
            },
            Message::Generate => {
                &&& after.name() == before.name()
                &&& after.count() == before.count() + 1
                &&& match response {
                    Message::GenerateOk { id } => id_shaped(before.name(), before.count(), id@),
                    _ => false,
                }
            },
            _ => false,
        }
    }

    fn supports(&self, message: &Message) -> (r: bool) {
        match message {
            Message::Init { .. } => true,
            Message::Generate => self.generated < u64::MAX,
            _ => false,
        }
    }

    fn process(&mut self, message: &Message) -> (r: Message) {
        match message {
            Message::Init { node_id, .. } => {
                self.init(node_id.clone());
                Message::InitOk
            },
            _ => Message::GenerateOk { id: self.generate() },
        }
    }
}

/// Two identifiers differ unless they come from the same node name and the
/// same count.
pub proof fn lemma_ids_distinct(
    node_a: Seq<char>,
    count_a: u64,
    id_a: Seq<char>,
    node_b: Seq<char>,
    count_b: u64,
    id_b: Seq<char>,
)
    requires
        id_shaped(node_a, count_a, id_a),
        id_shaped(node_b, count_b, id_b),
        node_a != node_b || count_a != count_b,
    ensures
        id_a != id_b,
{
    if id_a == id_b {
        assert(node_a.len() == node_b.len());
        assert(node_a =~= node_a.push('-').drop_last());
        assert(node_b =~= node_b.push('-').drop_last());
        lemma_hex_u64_injective(count_a, count_b);
    }
}

/// The identifier of a `Generate` answer, if `response` is one.
pub open spec fn generated_id(response: Message) -> Seq<char> {
    match response {
        Message::GenerateOk { id } => id@,
        _ => Seq::empty(),
    }
}

/// `states` is a run of the node that answered `Generate` with each of
/// `replies` in turn.
pub open spec fn generate_run(states: Seq<IdNode>, replies: Seq<Message>) -> bool {
    &&& states.len() == replies.len() + 1
    &&& forall|i: int|
        0 <= i < replies.len() ==> IdNode::responds(states[i], Message::Generate, states[i + 1], #[trigger] replies[i])
}

proof fn lemma_run_counts(states: Seq<IdNode>, replies: Seq<Message>, k: int)
    requires
        generate_run(states, replies),
        0 <= k <= replies.len(),
    ensures
        states[k].name() == states[0].name(),
        states[k].count() == states[0].count() + k,
    decreases k,
{
    if k > 0 {
        lemma_run_counts(states, replies, k - 1);
        assert(IdNode::responds(states[k - 1], Message::Generate, states[k - 1 + 1], replies[k - 1]));
    }
}

/// However many times `Generate` is answered in a row, no two of the answers
/// carry the same identifier.
pub proof fn lemma_generate_run_distinct(states: Seq<IdNode>, replies: Seq<Message>, i: int, j: int)
    requires
        generate_run(states, replies),
        0 <= i < j < replies.len(),
    ensures
        replies[i] is GenerateOk,
        generated_id(replies[i]) != generated_id(replies[j]),
{
    lemma_run_counts(states, replies, i);
    lemma_run_counts(states, replies, j);
    assert(IdNode::responds(states[i], Message::Generate, states[i + 1], replies[i]));
    assert(IdNode::responds(states[j], Message::Generate, states[j + 1], replies[j]));
    lemma_ids_distinct(
        states[i].name(),
        states[i].count(),
        generated_id(replies[i]),
        states[j].name(),
        states[j].count(),
        generated_id(replies[j]),
    );
}

/// Two nodes with different names never hand out the same identifier.
pub proof fn lemma_nodes_disjoint(
    a: IdNode,
    a_after: IdNode,
    a_reply: Message,
    b: IdNode,
    b_after: IdNode,
    b_reply: Message,
)
    requires
        IdNode::responds(a, Message::Generate, a_after, a_reply),
        IdNode::responds(b, Message::Generate, b_after, b_reply),
        a.name() != b.name(),
    ensures
        generated_id(a_reply) != generated_id(b_reply),
{
    lemma_ids_distinct(a.name(), a.count(), generated_id(a_reply), b.name(), b.count(), generated_id(b_reply));
}

} // verus!
