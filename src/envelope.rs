use vstd::prelude::*;

verus! {

/// The correlation fields of a message together with its typed payload.
///
/// On the wire the payload's tag and fields sit in the same object as
/// `msg_id` and `in_reply_to`.
pub struct Body<T> {
    pub msg_id: usize,
    pub in_reply_to: Option<usize>,
    pub payload: T,
}

/// One addressed message: who sent it, who it is for, and its body.
pub struct Message<T> {
    pub src: String,
    pub dest: String,
    pub body: Body<T>,
}

/// `reply` answers `request`: the addresses are swapped and `in_reply_to`
/// names the request's own id.
pub open spec fn answers<T>(reply: Message<T>, request: Message<T>) -> bool {
    &&& reply.src@ == request.dest@
    &&& reply.dest@ == request.src@
    &&& reply.body.in_reply_to == Some(request.body.msg_id)
}

impl<T> Message<T> {
    pub fn new(src: String, dest: String, msg_id: usize, in_reply_to: Option<usize>, payload: T) -> (r: Self)
        ensures
            r.src@ == src@,
            r.dest@ == dest@,
            r.body.msg_id == msg_id,
            r.body.in_reply_to == in_reply_to,
            r.body.payload == payload,
    {
        Message { src, dest, body: Body { msg_id, in_reply_to, payload } }
    }

    /// Builds the reply to this message: addressed back to its sender, from
    /// the node it was sent to, carrying `msg_id` as the reply's own id.
    pub fn reply(self, msg_id: usize, payload: T) -> (r: Message<T>)
        ensures
            answers(r, self),
            r.body.msg_id == msg_id,
            r.body.payload == payload,
    {
        let request_id = self.body.msg_id;
        Message {
            src: self.dest,
            dest: self.src,
            body: Body { msg_id, in_reply_to: Some(request_id), payload },
        }
    }
}

/// `line` is what goes on the wire for the encoded message `text`: the text
/// and one newline after it.
pub open spec fn framed(text: Seq<char>, line: Seq<char>) -> bool {
    line == text.push('\n')
}

/// Turns the encoded text of one message into one output line, or `None`
/// where the text would break the line structure because it holds a newline.
pub fn frame(text: &str) -> (r: Option<String>)
    ensures
        r is Some <==> !text@.contains('\n'),
        r is Some ==> framed(text@, r->0@),
{
    let len = text.unicode_len();
    let mut i: usize = 0;
    while i < len
        invariant
            len == text@.len(),
            i <= len,
            forall|k: int| 0 <= k < i ==> text@[k] != '\n',
        decreases len - i,
    {
        if text.get_char(i) == '\n' {
            return None;
        }
        i = i + 1;
    }
    let mut line = String::from_str(text);
    proof {
        reveal_strlit("\n");
    }
    line.append("\n");
    assert(line@ =~= text@.push('\n'));
    Some(line)
}

/// The text of one input line: the line without its closing newline, where
/// it has one (the last line of a stream may not).
pub open spec fn unframed(line: Seq<char>) -> Seq<char> {
    if line.len() > 0 && line.last() == '\n' {
        line.drop_last()
    } else {
        line
    }
}

/// The text of one input line, its closing newline taken off.
pub fn unframe(line: &str) -> (r: String)
    ensures
        r@ == unframed(line@),
{
    let len = line.unicode_len();
    if len > 0 && line.get_char(len - 1) == '\n' {
        let text = line.substring_char(0, len - 1);
        assert(text@ =~= line@.drop_last());
        String::from_str(text)
    } else {
        String::from_str(line)
    }
}

/// Reading back a line that was framed gives the framed text unchanged.
pub proof fn lemma_frame_round_trip(text: Seq<char>, line: Seq<char>)
    requires
        framed(text, line),
    ensures
        unframed(line) == text,
{
    assert(line.drop_last() =~= text);
}

} // verus!
