use fly_io::protocol::{Body, Init, InitPayload, Message};
use fly_io::server::Server;

fn envelope(src: &str, dst: &str, id: Option<usize>, in_reply_to: Option<usize>) -> Message<usize> {
    Message {
        src: src.to_string(),
        dst: dst.to_string(),
        body: Body { id, in_reply_to, payload: 17 },
    }
}

#[test]
fn into_reply_swaps_source_and_destination() {
    let reply = envelope("c1", "n3", Some(9), None).into_reply();
    assert_eq!(reply.src, "n3");
    assert_eq!(reply.dst, "c1");
}

#[test]
fn into_reply_answers_the_id_and_has_none_of_its_own() {
    let reply = envelope("c1", "n3", Some(9), Some(4)).into_reply();
    assert_eq!(reply.body.id, None);
    assert_eq!(reply.body.in_reply_to, Some(9));
    let reply = envelope("c1", "n3", None, Some(4)).into_reply();
    assert_eq!(reply.body.id, None);
    assert_eq!(reply.body.in_reply_to, None);
}

#[test]
fn into_reply_keeps_the_payload() {
    let reply = envelope("c1", "n3", Some(9), None).into_reply();
    assert_eq!(reply.body.payload, 17);
}

#[test]
fn into_reply_twice_restores_the_addresses() {
    let there = envelope("a", "b", Some(1), None).into_reply();
    let back = there.into_reply();
    assert_eq!(back.src, "a");
    assert_eq!(back.dst, "b");
    assert_eq!(back.body.in_reply_to, None);
}

#[test]
fn open_reply_gives_header_and_payload() {
    let (header, payload) = envelope("c1", "n3", Some(9), None).open_reply();
    assert_eq!(payload, 17);
    assert_eq!(header.src, "n3");
    assert_eq!(header.dst, "c1");
    assert_eq!(header.body.id, None);
    assert_eq!(header.body.in_reply_to, Some(9));
    let answer = header.carrying(5usize);
    assert_eq!(
        answer,
        Message {
            src: "n3".to_string(),
            dst: "c1".to_string(),
            body: Body { id: None, in_reply_to: Some(9), payload: 5 },
        }
    );
}

fn handshake(payload: InitPayload) -> Message<InitPayload> {
    Message {
        src: "c0".to_string(),
        dst: "n1".to_string(),
        body: Body { id: Some(1), in_reply_to: None, payload },
    }
}

#[test]
fn server_answers_the_handshake() {
    let mut server: Server<u8> = Server::new();
    let init = Init {
        node_id: "n1".to_string(),
        node_ids: vec!["n1".to_string(), "n2".to_string()],
    };
    let (described, confirmation) = server.construct_node(handshake(InitPayload::Init(init.clone())));
    assert_eq!(described, init);
    assert_eq!(confirmation.src, "n1");
    assert_eq!(confirmation.dst, "c0");
    assert_eq!(confirmation.body.id, Some(0));
    assert_eq!(confirmation.body.in_reply_to, Some(1));
    assert_eq!(confirmation.body.payload, InitPayload::InitOk);
}

#[test]
fn server_counts_what_it_sends() {
    let mut server: Server<u8> = Server::new();
    let init = Init { node_id: "n1".to_string(), node_ids: vec!["n1".to_string()] };
    let (_, first) = server.construct_node(handshake(InitPayload::Init(init)));
    assert_eq!(first.body.id, Some(0));
    let next = server.network().send(envelope("n1", "c0", None, None));
    assert_eq!(next.body.id, Some(1));
}
