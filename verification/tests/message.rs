use gossip::{Message, Payload};

fn request(src: &str, dest: &str, msg_id: Option<usize>, payload: u8) -> Message<u8> {
    Message {
        src: src.to_string(),
        dest: dest.to_string(),
        body: Payload { msg_id, in_reply_to: None, payload },
    }
}

#[test]
fn new_swaps_the_addresses() {
    let msg = request("c1", "n1", Some(1), 7);
    let payload = Payload { msg_id: Some(2), in_reply_to: Some(1), payload: 9u8 };
    let reply = Message::new(&msg, payload.clone());
    assert_eq!(reply.src, "n1");
    assert_eq!(reply.dest, "c1");
    assert_eq!(reply.body, payload);
}

#[test]
fn new_leaves_the_request_as_it_was() {
    let msg = request("client", "node", None, 0);
    let before = msg.clone();
    let _ = Message::new(&msg, Payload { msg_id: None, in_reply_to: None, payload: 1u8 });
    assert_eq!(msg, before);
}

#[test]
fn new_with_equal_addresses() {
    let msg = request("n1", "n1", Some(4), 0);
    let reply = Message::new(&msg, Payload { msg_id: None, in_reply_to: Some(4), payload: 0u8 });
    assert_eq!(reply.src, "n1");
    assert_eq!(reply.dest, "n1");
}

#[test]
fn from_msg_takes_the_next_identifier() {
    let payload = Payload::from_msg(Some(5), "pong").unwrap();
    assert_eq!(payload.msg_id, Some(6));
    assert_eq!(payload.in_reply_to, Some(5));
    assert_eq!(payload.payload, "pong");
}

#[test]
fn from_msg_of_zero() {
    let payload = Payload::from_msg(Some(0), ()).unwrap();
    assert_eq!(payload, Payload { msg_id: Some(1), in_reply_to: Some(0), payload: () });
}

#[test]
fn from_msg_without_identifier_gives_none() {
    assert_eq!(Payload::from_msg(None, 3u8), None);
}

#[test]
fn from_msg_of_the_last_identifier_gives_none() {
    assert_eq!(Payload::from_msg(Some(usize::MAX), 3u8), None);
}

#[test]
fn from_msg_just_below_the_last_identifier() {
    let payload = Payload::from_msg(Some(usize::MAX - 1), 3u8).unwrap();
    assert_eq!(payload.msg_id, Some(usize::MAX));
    assert_eq!(payload.in_reply_to, Some(usize::MAX - 1));
}
