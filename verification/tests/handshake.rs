use maelstrom_challenge::broadcast::{BroadcastError, BroadcastNode, Payload};
use maelstrom_challenge::generate::{GenerateError, UniqueNode};
use maelstrom_challenge::message::{Body, Message};
use maelstrom_challenge::node::{handshake, HandshakeError, Init, InitPayload, INIT_OK_ID};

fn init_message(id: Option<usize>, node: &str, all: &[&str]) -> Message<InitPayload> {
    Message {
        src: "c0".to_string(),
        dst: node.to_string(),
        body: Body {
            id,
            in_reply_to: None,
            payload: InitPayload::Init(Init {
                node_id: node.to_string(),
                node_ids: all.iter().map(|name| name.to_string()).collect(),
            }),
        },
    }
}

#[test]
fn handshake_answers_with_init_ok_zero() {
    let first = init_message(Some(1), "n1", &["n1", "n2"]);
    let (_node, reply) = handshake::<(), Payload, BroadcastNode>((), first).unwrap();
    assert_eq!(reply.src, "n1");
    assert_eq!(reply.dst, "c0");
    assert_eq!(reply.body.id, Some(0));
    assert_eq!(reply.body.id, Some(INIT_OK_ID));
    assert_eq!(reply.body.in_reply_to, Some(1));
    assert!(matches!(reply.body.payload, InitPayload::InitOk));
}

#[test]
fn handshake_reply_follows_the_init_id() {
    for id in [0usize, 1, 17, usize::MAX] {
        let first = init_message(Some(id), "n3", &["n3"]);
        let (_node, reply) = handshake::<(), Payload, BroadcastNode>((), first).unwrap();
        assert_eq!(reply.body.id, Some(0));
        assert_eq!(reply.body.in_reply_to, Some(id));
    }
}

#[test]
fn handshake_without_init_id() {
    let first = init_message(None, "n1", &["n1"]);
    let (_node, reply) = handshake::<(), Payload, BroadcastNode>((), first).unwrap();
    assert_eq!(reply.body.id, Some(0));
    assert_eq!(reply.body.in_reply_to, None);
}

#[test]
fn handshake_builds_the_node_from_the_init() {
    let first = init_message(Some(4), "n2", &["n1", "n2", "n3"]);
    let (node, _reply) = handshake::<(), Payload, BroadcastNode>((), first).unwrap();
    assert_eq!(node.node(), "n2");
    assert_eq!(node.id(), 1);
    assert!(node.messages().is_empty());
    assert!(node.neighborhood().is_empty());
}

#[test]
fn handshake_refuses_a_first_message_that_is_no_init() {
    let first = Message {
        src: "c0".to_string(),
        dst: "n1".to_string(),
        body: Body { id: Some(1), in_reply_to: None, payload: InitPayload::InitOk },
    };
    let up = handshake::<(), Payload, BroadcastNode>((), first);
    assert!(matches!(up, Err(HandshakeError::NotInit)));
    let is_node_error = matches!(up, Err(HandshakeError::Node(BroadcastError::MissingTopology)));
    assert!(!is_node_error);
}

#[test]
fn handshake_brings_up_a_unique_id_node() {
    let first = init_message(Some(9), "n7", &["n7", "n8"]);
    let up = handshake::<(), maelstrom_challenge::generate::Payload, UniqueNode>((), first);
    let refused = matches!(up, Err(HandshakeError::Node(GenerateError::IdsExhausted)));
    assert!(!refused);
    let (node, reply) = up.unwrap();
    assert_eq!(node.node(), "n7");
    assert_eq!(node.id(), 1);
    assert_eq!(reply.body.id, Some(0));
    assert_eq!(reply.body.in_reply_to, Some(9));
}
