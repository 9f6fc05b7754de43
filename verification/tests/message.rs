use maelstrom_challenge::{Body, Message};

fn request(id: Option<usize>) -> Message<u8> {
    Message {
        src: "c1".to_string(),
        dst: "n1".to_string(),
        body: Body { id, in_reply_to: None, payload: 42 },
    }
}

#[test]
fn reply_swaps_the_two_ends() {
    let mut counter = 1;
    let reply = request(Some(7)).into_reply(Some(&mut counter));
    assert_eq!(reply.src, "n1");
    assert_eq!(reply.dst, "c1");
}

#[test]
fn reply_takes_the_counter_and_moves_it_on() {
    let mut counter = 5;
    let reply = request(Some(7)).into_reply(Some(&mut counter));
    assert_eq!(reply.body.id, Some(5));
    assert_eq!(counter, 6);
    let next = request(Some(8)).into_reply(Some(&mut counter));
    assert_eq!(next.body.id, Some(6));
    assert_eq!(counter, 7);
}

#[test]
fn reply_without_counter_has_no_id() {
    let reply = request(Some(7)).into_reply(None);
    assert_eq!(reply.body.id, None);
    assert_eq!(reply.body.in_reply_to, Some(7));
}

#[test]
fn reply_names_the_request_it_answers() {
    let mut counter = 0;
    let reply = request(Some(99)).into_reply(Some(&mut counter));
    assert_eq!(reply.body.in_reply_to, Some(99));
    let unnamed = request(None).into_reply(Some(&mut counter));
    assert_eq!(unnamed.body.in_reply_to, None);
}

#[test]
fn reply_carries_the_payload_over() {
    let mut counter = 3;
    let reply = request(Some(1)).into_reply(Some(&mut counter));
    assert_eq!(reply.body.payload, 42);
}

#[test]
fn reply_may_take_the_last_but_one_counter() {
    let mut counter = usize::MAX - 1;
    let reply = request(None).into_reply(Some(&mut counter));
    assert_eq!(reply.body.id, Some(usize::MAX - 1));
    assert_eq!(counter, usize::MAX);
}
