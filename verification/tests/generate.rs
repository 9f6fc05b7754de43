use maelstrom_challenge::generate::{make_guid, GenerateError, Payload, UniqueNode};
use maelstrom_challenge::{Body, Message};
use maelstrom_challenge::{Init, Node};

fn fresh(node: &str) -> UniqueNode {
    let init = Init { node_id: node.to_string(), node_ids: vec![node.to_string()] };
    match UniqueNode::from_init((), init) {
        Ok(node) => node,
        Err(e) => panic!("a unique-id node is always built, got {:?}", e),
    }
}

fn to(node: &str, id: usize, payload: Payload) -> Message<Payload> {
    Message {
        src: "c1".to_string(),
        dst: node.to_string(),
        body: Body { id: Some(id), in_reply_to: None, payload },
    }
}

fn guid(reply: &Message<Payload>) -> String {
    match &reply.body.payload {
        Payload::GenerateOk { guid } => guid.clone(),
        Payload::Generate => panic!("a generate is answered with generate_ok"),
    }
}

#[test]
fn guid_is_name_hyphen_counter() {
    assert_eq!(make_guid(&"n1".to_string(), 2), "n1-2");
    assert_eq!(make_guid(&"n1".to_string(), 0), "n1-0");
    assert_eq!(make_guid(&"n12".to_string(), 9), "n12-9");
    assert_eq!(make_guid(&"n12".to_string(), 10), "n12-10");
    assert_eq!(make_guid(&"a-b".to_string(), 1234567890), "a-b-1234567890");
    assert_eq!(make_guid(&"".to_string(), 407), "-407");
}

#[test]
fn guid_of_the_largest_counter() {
    assert_eq!(make_guid(&"n".to_string(), usize::MAX), format!("n-{}", usize::MAX));
}

#[test]
fn guid_agrees_with_the_standard_rendering() {
    for counter in [1usize, 9, 10, 11, 99, 100, 101, 999, 1000, 65535, 65536, 4294967295] {
        assert_eq!(make_guid(&"node".to_string(), counter), format!("node-{}", counter));
    }
}

#[test]
fn generate_is_answered_with_a_fresh_guid() {
    let mut node = fresh("n1");
    let mut output = Vec::new();
    assert_eq!(node.step(to("n1", 5, Payload::Generate), &mut output), Ok(()));
    assert_eq!(output.len(), 1);
    assert_eq!(output[0].src, "n1");
    assert_eq!(output[0].dst, "c1");
    assert_eq!(output[0].body.id, Some(1));
    assert_eq!(output[0].body.in_reply_to, Some(5));
    assert_eq!(guid(&output[0]), "n1-2");
    assert_eq!(node.id(), 2);
}

#[test]
fn guids_of_one_node_differ() {
    let mut node = fresh("n3");
    let mut output = Vec::new();
    for at in 0..25 {
        node.step(to("n3", at, Payload::Generate), &mut output).unwrap();
    }
    let mut seen = std::collections::HashSet::new();
    for (at, reply) in output.iter().enumerate() {
        assert_eq!(reply.body.id, Some(at + 1));
        assert_eq!(guid(reply), format!("n3-{}", at + 2));
        assert!(seen.insert(guid(reply)));
    }
}

#[test]
fn generate_ok_is_refused() {
    let mut node = fresh("n1");
    let mut output = Vec::new();
    let done = node.step(to("n1", 1, Payload::GenerateOk { guid: "n2-2".to_string() }), &mut output);
    assert_eq!(done, Err(GenerateError::UnexpectedGenerateOk));
    assert!(output.is_empty());
    assert_eq!(node.id(), 1);
}
