use fly_io::echo::{EchoNode, EchoPayload};
use fly_io::network::Event;
use fly_io::protocol::{Body, Init, Message};
use fly_io::service::StoragePayload;
use fly_io::unique_ids::{UniqueIdNode, UniqueIdPayload};

fn init(node: &str) -> Init {
    Init { node_id: node.to_string(), node_ids: vec![node.to_string()] }
}

fn envelope<P>(id: usize, payload: P) -> Message<P> {
    Message {
        src: "c3".to_string(),
        dst: "n1".to_string(),
        body: Body { id: Some(id), in_reply_to: None, payload },
    }
}

#[test]
fn an_echo_is_sent_back() {
    let mut node = EchoNode::from_init(init("n1"));
    let reply = node.step(Event::Message(envelope(5, EchoPayload::Echo { echo: "hello".to_string() })));
    assert_eq!(
        reply,
        Some(Message {
            src: "n1".to_string(),
            dst: "c3".to_string(),
            body: Body {
                id: None,
                in_reply_to: Some(5),
                payload: EchoPayload::EchoOk { echo: "hello".to_string() },
            },
        })
    );
}

#[test]
fn the_echo_node_answers_nothing_else() {
    let mut node = EchoNode::from_init(init("n1"));
    assert_eq!(
        node.step(Event::Message(envelope(5, EchoPayload::EchoOk { echo: "hello".to_string() }))),
        None
    );
    assert_eq!(node.step(Event::Injected(())), None);
    assert_eq!(node.step(Event::Storage(envelope(1, StoragePayload::WriteOk))), None);
}

#[test]
fn generated_ids_hold_the_name_and_count_up() {
    let mut node = UniqueIdNode::from_init(init("n4"));
    let first = node.step(envelope(8, UniqueIdPayload::Generate)).unwrap();
    assert_eq!(
        first,
        Message {
            src: "n1".to_string(),
            dst: "c3".to_string(),
            body: Body {
                id: Some(1),
                in_reply_to: Some(8),
                payload: UniqueIdPayload::GenerateOk { id: "n4-2".to_string() },
            },
        }
    );
    let second = node.step(envelope(9, UniqueIdPayload::Generate)).unwrap();
    assert_eq!(second.body.id, Some(2));
    assert_eq!(second.body.payload, UniqueIdPayload::GenerateOk { id: "n4-3".to_string() });
}

#[test]
fn every_envelope_is_counted() {
    let mut node = UniqueIdNode::from_init(init("n4"));
    assert_eq!(node.step(envelope(8, UniqueIdPayload::GenerateOk { id: "x".to_string() })), None);
    let next = node.step(envelope(9, UniqueIdPayload::Generate)).unwrap();
    assert_eq!(next.body.id, Some(2));
    assert_eq!(next.body.payload, UniqueIdPayload::GenerateOk { id: "n4-3".to_string() });
}
