use maelstrom::broadcast::{self, BroadcastNode};
use maelstrom::echo::{self, EchoNode};
use maelstrom::id::{self, IdNode};
use maelstrom::standalone::{get_node, node_index, Body as StandaloneBody, Message as StandaloneMessage, Node as StandaloneNode};
use maelstrom::{frame, unframe, Action, Event, Failure, Message, Node, Server};

fn request<T>(msg_id: usize, payload: T) -> Event<T> {
    Event::Received(Message::new("c1".to_string(), "n1".to_string(), msg_id, None, payload))
}

#[test]
fn node_id() {
    let node = get_node("n2");
    assert_eq!(node.node_id, 2);
}

#[test]
fn node_index_reads_the_digits_after_the_prefix() {
    assert_eq!(node_index("n2"), Some(2));
    assert_eq!(node_index("n17"), Some(17));
    assert_eq!(node_index("c0"), Some(0));
    assert_eq!(node_index("n"), None);
    assert_eq!(node_index(""), None);
    assert_eq!(node_index("nx"), None);
    assert_eq!(node_index("n1a"), None);
    assert_eq!(node_index("n18446744073709551615"), Some(usize::MAX));
    assert_eq!(node_index("n18446744073709551616"), None);
}

#[test]
fn echo_is_answered_with_the_same_text() {
    let mut server = Server::new(EchoNode);
    let action = server.step(request(1, echo::Message::Echo { echo: "hello".to_string() }));
    match action {
        Action::Send(reply) => {
            assert_eq!(reply.src, "n1");
            assert_eq!(reply.dest, "c1");
            assert_eq!(reply.body.in_reply_to, Some(1));
            match reply.body.payload {
                echo::Message::EchoOk { echo } => assert_eq!(echo, "hello"),
                _ => panic!("expected echo_ok"),
            }
        }
        _ => panic!("expected a reply"),
    }
}

#[test]
fn init_is_acknowledged() {
    let mut server = Server::new(EchoNode);
    let action = server.step(request(
        7,
        echo::Message::Init { node_id: "n1".to_string(), node_ids: vec!["n1".to_string()] },
    ));
    match action {
        Action::Send(reply) => {
            assert_eq!(reply.body.in_reply_to, Some(7));
            assert!(matches!(reply.body.payload, echo::Message::InitOk));
        }
        _ => panic!("expected a reply"),
    }
}

#[test]
fn read_returns_broadcasts_in_order() {
    let mut server = Server::new(BroadcastNode::new());
    for (i, v) in [5usize, 9, 2].iter().enumerate() {
        let action = server.step(request(i + 1, broadcast::Message::Broadcast { message: *v }));
        match action {
            Action::Send(reply) => assert!(matches!(reply.body.payload, broadcast::Message::BroadcastOk)),
            _ => panic!("expected broadcast_ok"),
        }
    }
    match server.step(request(4, broadcast::Message::Read)) {
        Action::Send(reply) => match reply.body.payload {
            broadcast::Message::ReadOk { messages } => assert_eq!(messages, vec![5, 9, 2]),
            _ => panic!("expected read_ok"),
        },
        _ => panic!("expected a reply"),
    }
}

#[test]
fn repeated_broadcasts_are_all_kept() {
    let mut node = BroadcastNode::new();
    node.process(&broadcast::Message::Broadcast { message: 3 });
    node.process(&broadcast::Message::Broadcast { message: 3 });
    assert_eq!(node.history(), vec![3, 3]);
    assert!(matches!(node.process(&broadcast::Message::Topology), broadcast::Message::TopologyOk));
}

#[test]
fn reply_ids_rise_from_zero() {
    let mut server = Server::new(BroadcastNode::new());
    let mut ids = Vec::new();
    for i in 0..3usize {
        match server.step(request(100 - i, broadcast::Message::Read)) {
            Action::Send(reply) => ids.push(reply.body.msg_id),
            _ => panic!("expected a reply"),
        }
    }
    assert_eq!(ids, vec![0, 1, 2]);
}

#[test]
fn malformed_line_aborts_without_reply() {
    let mut server = Server::new(BroadcastNode::new());
    assert!(matches!(server.step(Event::Malformed), Action::Abort(Failure::Framing)));
    assert!(!server.is_running());
    assert!(matches!(server.step(request(1, broadcast::Message::Read)), Action::Stop));
}

#[test]
fn end_of_input_stops() {
    let mut server = Server::new(EchoNode);
    assert!(server.is_running());
    assert!(matches!(server.step(Event::Closed), Action::Stop));
    assert!(!server.is_running());
}

#[test]
fn unsupported_payload_aborts() {
    let mut server = Server::new(BroadcastNode::new());
    assert!(matches!(
        server.step(request(1, broadcast::Message::ReadOk { messages: vec![] })),
        Action::Abort(Failure::UnsupportedVariant)
    ));
}

#[test]
fn ids_exhausted_aborts() {
    let mut server = Server::new(EchoNode);
    server.next_msg_id = usize::MAX;
    assert!(matches!(
        server.step(request(1, echo::Message::Echo { echo: "x".to_string() })),
        Action::Abort(Failure::IdsExhausted)
    ));
}

#[test]
fn generated_ids_are_distinct_and_carry_the_node_name() {
    let mut node = IdNode::new();
    node.process(&id::Message::Init { node_id: "n3".to_string(), node_ids: vec![] });
    let mut seen: Vec<String> = Vec::new();
    for i in 0..50u64 {
        let id = match node.process(&id::Message::Generate) {
            id::Message::GenerateOk { id } => id,
            _ => panic!("expected generate_ok"),
        };
        assert_eq!(id.len(), 2 + 49);
        assert!(id.starts_with("n3-"));
        assert_eq!(&id[3..19], format!("{:016x}", i));
        assert!(id[19..].chars().all(|c| c.is_ascii_hexdigit() && !c.is_ascii_uppercase()));
        assert!(!seen.contains(&id));
        seen.push(id);
    }
}

#[test]
fn ids_of_differently_named_nodes_differ() {
    let mut a = IdNode::new();
    let mut b = IdNode::new();
    a.init("n1".to_string());
    b.init("n2".to_string());
    let ia = a.generate();
    let ib = b.generate();
    assert_ne!(ia, ib);
    assert!(ia.starts_with("n1-0000000000000000"));
    assert!(ib.starts_with("n2-0000000000000000"));
}

#[test]
fn frame_appends_one_newline() {
    assert_eq!(frame("{\"a\":1}"), Some("{\"a\":1}\n".to_string()));
    assert_eq!(frame(""), Some("\n".to_string()));
    assert_eq!(frame("{\"a\":\n1}"), None);
}

fn standalone(body: StandaloneBody) -> StandaloneMessage {
    StandaloneMessage { src: "c1".to_string(), dest: "n1".to_string(), body }
}

#[test]
fn standalone_node_answers_each_request() {
    let mut node: StandaloneNode = get_node("n1");
    let r = node
        .next(standalone(StandaloneBody::Init { msg_id: 1, node_id: "n1".to_string(), node_ids: vec![] }))
        .unwrap();
    assert_eq!((r.src.as_str(), r.dest.as_str()), ("n1", "c1"));
    assert!(matches!(r.body, StandaloneBody::InitOk { in_reply_to: 1 }));

    let r = node.next(standalone(StandaloneBody::Echo { msg_id: 2, echo: "hello".to_string() })).unwrap();
    match r.body {
        StandaloneBody::EchoOk { msg_id, in_reply_to, echo } => {
            assert_eq!((msg_id, in_reply_to, echo.as_str()), (0, 2, "hello"));
        }
        _ => panic!("expected echo_ok"),
    }

    let r = node.next(standalone(StandaloneBody::Generate { msg_id: 3 })).unwrap();
    match r.body {
        StandaloneBody::GenerateOk { id, msg_id, in_reply_to } => {
            assert_eq!((msg_id, in_reply_to), (1, 3));
            assert!(id.starts_with("n1-0000000000000000"));
        }
        _ => panic!("expected generate_ok"),
    }

    for (i, v) in [5usize, 9, 2].iter().enumerate() {
        let r = node.next(standalone(StandaloneBody::Broadcast { msg_id: 10 + i, message: *v })).unwrap();
        assert!(matches!(r.body, StandaloneBody::BroadcastOk { in_reply_to, .. } if in_reply_to == 10 + i));
    }
    let r = node.next(standalone(StandaloneBody::Read { msg_id: 20 })).unwrap();
    match r.body {
        StandaloneBody::ReadOk { msg_id, in_reply_to, messages } => {
            assert_eq!((msg_id, in_reply_to), (5, 20));
            assert_eq!(messages, vec![5, 9, 2]);
        }
        _ => panic!("expected read_ok"),
    }

    let r = node.next(standalone(StandaloneBody::Topology { msg_id: 21 })).unwrap();
    assert!(matches!(r.body, StandaloneBody::TopologyOk { msg_id: 6, in_reply_to: 21 }));
}

#[test]
fn standalone_node_does_not_answer_an_answer() {
    let mut node = StandaloneNode::new(1);
    assert!(node.next(standalone(StandaloneBody::InitOk { in_reply_to: 1 })).is_none());
    assert!(node.next(standalone(StandaloneBody::EchoOk { msg_id: 1, in_reply_to: 1, echo: String::new() })).is_none());
    assert_eq!(node.msg_counter, 0);
}

#[test]
fn unframe_takes_off_one_newline() {
    assert_eq!(unframe("{\"a\":1}\n"), "{\"a\":1}");
    assert_eq!(unframe("{\"a\":1}"), "{\"a\":1}");
    assert_eq!(unframe("x\n\n"), "x\n");
    assert_eq!(unframe(""), "");
    let line = frame("{\"echo\":\"h\u{e9}llo\"}").unwrap();
    assert_eq!(unframe(&line), "{\"echo\":\"h\u{e9}llo\"}");
}
