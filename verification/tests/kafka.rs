use std::collections::HashMap;

use fly_io::error::NodeError;
use fly_io::kafka::keys::{class_of, leader_of, StorageKey};
use fly_io::kafka::model::{Alloc, AppendPhase, CommitPhase, Raise};
use fly_io::kafka::node::{KafkaNode, KafkaTask};
use fly_io::kafka::payload::KafkaPayload;
use fly_io::network::Event;
use fly_io::protocol::{Body, Init, Message};
use fly_io::service::{StoragePayload, StorageType};
use fly_io::task::{FetchPhase, Fetched, Reply, Step, Want};

type Stores = HashMap<String, HashMap<String, usize>>;

fn stores() -> Stores {
    let mut stores = HashMap::new();
    stores.insert("lin-kv".to_string(), HashMap::new());
    stores.insert("seq-kv".to_string(), HashMap::new());
    stores
}

fn refusal(code: usize) -> StoragePayload {
    StoragePayload::Error { code, text: "refused".to_string() }
}

fn serve(stores: &mut Stores, request: &Message<StoragePayload>) -> StoragePayload {
    let store = stores.get_mut(&request.dst).expect("a request to a storage service");
    match &request.body.payload {
        StoragePayload::Read { key } => match store.get(key) {
            Some(value) => StoragePayload::ReadOk { value: StorageType::Uint(*value) },
            None => refusal(20),
        },
        StoragePayload::Write { key, value: StorageType::Uint(value) } => {
            store.insert(key.clone(), *value);
            StoragePayload::WriteOk
        }
        StoragePayload::Cas {
            key,
            from: StorageType::Uint(from),
            to: StorageType::Uint(to),
            create_if_not_exists,
        } => match store.get(key).copied() {
            Some(value) if value == *from => {
                store.insert(key.clone(), *to);
                StoragePayload::CasOk
            }
            Some(_) => refusal(22),
            None if *create_if_not_exists == Some(true) => {
                store.insert(key.clone(), *to);
                StoragePayload::CasOk
            }
            None => refusal(20),
        },
        other => panic!("no request: {:?}", other),
    }
}

fn client(payload: KafkaPayload) -> Event<KafkaPayload, ()> {
    Event::Message(Message {
        src: "c1".to_string(),
        dst: "n0".to_string(),
        body: Body { id: Some(11), in_reply_to: None, payload },
    })
}

fn finish(
    node: &mut KafkaNode,
    stores: &mut Stores,
    mut step: Step<KafkaTask, KafkaPayload>,
) -> Result<Message<KafkaPayload>, NodeError> {
    loop {
        match step {
            Step::AskStore { task, request } => {
                assert_eq!(request.src, "n0");
                assert_eq!(request.body.id, None);
                assert_eq!(request.body.in_reply_to, None);
                let reply = serve(stores, &request);
                step = node.resume(task, Reply::Storage(reply));
            }
            Step::Reply { message } => return Ok(message),
            Step::Failed { error } => return Err(error),
            other => panic!("{:?}", other),
        }
    }
}

fn run(node: &mut KafkaNode, stores: &mut Stores, payload: KafkaPayload) -> KafkaPayload {
    let step = node.step(client(payload));
    let message = finish(node, stores, step).expect("the request is answered");
    assert_eq!(message.src, "n0");
    assert_eq!(message.dst, "c1");
    assert_eq!(message.body.id, None);
    assert_eq!(message.body.in_reply_to, Some(11));
    message.body.payload
}

fn send(topic: &str, msg: usize) -> KafkaPayload {
    KafkaPayload::Send { key: topic.to_string(), msg }
}

fn poll(topic: &str, offset: usize) -> KafkaPayload {
    KafkaPayload::Poll { offsets: vec![(topic.to_string(), offset)] }
}

fn commit(topic: &str, offset: usize) -> KafkaPayload {
    KafkaPayload::CommitOffsets { offsets: vec![(topic.to_string(), offset)] }
}

fn only_node() -> KafkaNode {
    KafkaNode::new("n0".to_string(), 0, 1)
}

#[test]
fn storage_keys() {
    assert_eq!(StorageKey::log("t", 0), "t/log/0");
    assert_eq!(StorageKey::log("orders", 137), "orders/log/137");
    assert_eq!(StorageKey::offset("t"), "t/offset");
    assert_eq!(StorageKey::commit("t"), "t/commit");
}

#[test]
fn a_numeric_topic_has_the_class_of_its_number() {
    assert_eq!(class_of("7", 3), 1);
    assert_eq!(class_of("12", 5), 2);
    assert_eq!(class_of("0", 4), 0);
    assert_eq!(class_of("007", 5), 2);
    assert_eq!(class_of("123456789", 1000), 789);
}

#[test]
fn a_numeric_topic_beyond_the_machine_range_has_a_class() {
    // 2^64 leaves 2 when divided by 7
    assert_eq!(class_of("18446744073709551616", 7), 2);
}

#[test]
fn any_topic_has_a_class() {
    assert_eq!(class_of("t", 3), 116 % 3);
    assert_eq!(class_of("a1", 4), (97 * 10 + 1) % 4);
    assert_eq!(class_of("", 3), 0);
    assert_eq!(class_of("t", 1), 0);
}

#[test]
fn without_classes_every_topic_is_of_class_zero() {
    assert_eq!(class_of("7", 0), 0);
}

#[test]
fn leaders_are_named_by_their_class() {
    assert_eq!(leader_of(0), "n0");
    assert_eq!(leader_of(3), "n3");
    assert_eq!(leader_of(12), "n12");
}

#[test]
fn a_node_knows_its_topics() {
    let node = KafkaNode::new("n1".to_string(), 1, 3);
    assert_eq!(node.get_class("7"), 1);
    assert!(node.is_in_class("7"));
    assert!(node.is_in_class("4"));
    assert!(!node.is_in_class("3"));
    assert!(!node.is_in_class("5"));
    assert_eq!(node.cas_failures(), 0);
    assert_eq!(node.total_offset_writes(), 0);
}

#[test]
fn from_init_takes_the_class_of_the_own_position() {
    let init = Init {
        node_id: "n1".to_string(),
        node_ids: vec!["n0".to_string(), "n1".to_string(), "n2".to_string()],
    };
    let node = KafkaNode::from_init(init);
    assert!(node.is_in_class("1"));
    assert!(node.is_in_class("4"));
    assert!(!node.is_in_class("0"));
    assert!(!node.is_in_class("2"));
}

#[test]
fn a_node_writes_envelopes_in_its_own_name() {
    let node = KafkaNode::new("n1".to_string(), 1, 3);
    assert_eq!(
        node.message("n2".to_string(), 9usize),
        Message {
            src: "n1".to_string(),
            dst: "n2".to_string(),
            body: Body { id: None, in_reply_to: None, payload: 9 },
        }
    );
}

#[test]
fn requests_of_the_node() {
    let node = only_node();
    let read = node.read_offset("t");
    assert_eq!(read.dst, "lin-kv");
    assert_eq!(read.body.payload, StoragePayload::Read { key: "t/offset".to_string() });
    let read = node.read_commit("t");
    assert_eq!(read.dst, "seq-kv");
    assert_eq!(read.body.payload, StoragePayload::Read { key: "t/commit".to_string() });
    let read = node.read_entry("t", 4);
    assert_eq!(read.dst, "lin-kv");
    assert_eq!(read.body.payload, StoragePayload::Read { key: "t/log/4".to_string() });
    let write = node.write_log("t", 4, 77);
    assert_eq!(write.dst, "lin-kv");
    assert_eq!(
        write.body.payload,
        StoragePayload::Write { key: "t/log/4".to_string(), value: StorageType::Uint(77) }
    );
    let swap = node.write_commit("t", 2, 5);
    assert_eq!(swap.dst, "seq-kv");
    assert_eq!(
        swap.body.payload,
        StoragePayload::Cas {
            key: "t/commit".to_string(),
            from: StorageType::Uint(2),
            to: StorageType::Uint(5),
            create_if_not_exists: Some(true),
        }
    );
    let swap = node.write("k".to_string(), Some(2), 3, "lin-kv".to_string());
    assert_eq!(swap.src, "n0");
    assert_eq!(swap.dst, "lin-kv");
    assert_eq!(
        swap.body.payload,
        StoragePayload::Cas {
            key: "k".to_string(),
            from: StorageType::Uint(2),
            to: StorageType::Uint(3),
            create_if_not_exists: Some(true),
        }
    );
    let create = node.write("k".to_string(), None, 0, "seq-kv".to_string());
    assert_eq!(create.dst, "seq-kv");
    assert_eq!(
        create.body.payload,
        StoragePayload::Cas {
            key: "k".to_string(),
            from: StorageType::Uint(0),
            to: StorageType::Uint(0),
            create_if_not_exists: Some(true),
        }
    );
    let read = node.read("k".to_string(), "seq-kv".to_string());
    assert_eq!(read.src, "n0");
    assert_eq!(read.dst, "seq-kv");
    assert_eq!(read.body.payload, StoragePayload::Read { key: "k".to_string() });
}

#[test]
fn sends_get_the_offsets_zero_and_one() {
    let mut node = only_node();
    let mut stores = stores();
    assert_eq!(run(&mut node, &mut stores, send("t", 10)), KafkaPayload::SendOk { offset: 0 });
    assert_eq!(run(&mut node, &mut stores, send("t", 20)), KafkaPayload::SendOk { offset: 1 });
    assert_eq!(stores["lin-kv"]["t/offset"], 2);
    assert_eq!(stores["lin-kv"]["t/log/0"], 10);
    assert_eq!(stores["lin-kv"]["t/log/1"], 20);
    assert_eq!(node.total_offset_writes(), 2);
    assert_eq!(node.cas_failures(), 0);
    assert_eq!(node.cached("t", 0), Some(10));
    assert_eq!(node.cached("t", 1), Some(20));
    assert_eq!(node.cached("t", 2), None);
    assert_eq!(node.cached("u", 0), None);
}

#[test]
fn a_poll_answers_with_the_first_entry_from_the_offset_on() {
    let mut writer = only_node();
    let mut stores = stores();
    run(&mut writer, &mut stores, send("t", 10));
    run(&mut writer, &mut stores, send("t", 20));
    let mut reader = only_node();
    assert_eq!(
        run(&mut reader, &mut stores, poll("t", 0)),
        KafkaPayload::PollOk { msgs: vec![("t".to_string(), vec![(0, 10)])] }
    );
    assert_eq!(
        run(&mut reader, &mut stores, poll("t", 1)),
        KafkaPayload::PollOk { msgs: vec![("t".to_string(), vec![(1, 20)])] }
    );
    assert_eq!(reader.cached("t", 0), Some(10));
    assert_eq!(reader.cached("t", 1), Some(20));
}

#[test]
fn a_poll_is_answered_from_memory_where_the_entry_is_remembered() {
    let mut node = only_node();
    let mut stores = stores();
    run(&mut node, &mut stores, send("t", 10));
    stores.get_mut("lin-kv").unwrap().remove("t/log/0");
    assert_eq!(
        run(&mut node, &mut stores, poll("t", 0)),
        KafkaPayload::PollOk { msgs: vec![("t".to_string(), vec![(0, 10)])] }
    );
}

#[test]
fn a_poll_beyond_the_log_leaves_the_topic_out() {
    let mut node = only_node();
    let mut stores = stores();
    run(&mut node, &mut stores, send("t", 10));
    run(&mut node, &mut stores, send("t", 20));
    assert_eq!(run(&mut node, &mut stores, poll("t", 2)), KafkaPayload::PollOk { msgs: vec![] });
    assert_eq!(run(&mut node, &mut stores, poll("t", 9)), KafkaPayload::PollOk { msgs: vec![] });
}

#[test]
fn a_poll_of_an_unknown_topic_leaves_it_out() {
    let mut node = only_node();
    let mut stores = stores();
    assert_eq!(run(&mut node, &mut stores, poll("t", 0)), KafkaPayload::PollOk { msgs: vec![] });
}

#[test]
fn a_poll_skips_offsets_that_hold_nothing() {
    let mut node = only_node();
    let mut stores = stores();
    stores.get_mut("lin-kv").unwrap().insert("t/offset".to_string(), 4);
    stores.get_mut("lin-kv").unwrap().insert("t/log/2".to_string(), 30);
    stores.get_mut("lin-kv").unwrap().insert("t/log/3".to_string(), 40);
    assert_eq!(
        run(&mut node, &mut stores, poll("t", 0)),
        KafkaPayload::PollOk { msgs: vec![("t".to_string(), vec![(2, 30)])] }
    );
}

#[test]
fn a_poll_that_finds_nothing_below_the_next_free_offset_leaves_the_topic_out() {
    let mut node = only_node();
    let mut stores = stores();
    stores.get_mut("lin-kv").unwrap().insert("t/offset".to_string(), 3);
    assert_eq!(run(&mut node, &mut stores, poll("t", 1)), KafkaPayload::PollOk { msgs: vec![] });
}

#[test]
fn a_poll_works_through_its_topics_in_order() {
    let mut node = only_node();
    let mut stores = stores();
    run(&mut node, &mut stores, send("a", 1));
    run(&mut node, &mut stores, send("b", 2));
    run(&mut node, &mut stores, send("b", 3));
    let offsets = vec![("b".to_string(), 1), ("c".to_string(), 0), ("a".to_string(), 0)];
    assert_eq!(
        run(&mut node, &mut stores, KafkaPayload::Poll { offsets }),
        KafkaPayload::PollOk {
            msgs: vec![("b".to_string(), vec![(1, 3)]), ("a".to_string(), vec![(0, 1)])]
        }
    );
    assert_eq!(
        run(&mut node, &mut stores, KafkaPayload::Poll { offsets: vec![] }),
        KafkaPayload::PollOk { msgs: vec![] }
    );
}

#[test]
fn select_entries_reads_on_in_a_whole_log() {
    assert_eq!(KafkaNode::select_entries(&vec![10, 20], 0), Some(vec![(0, 10), (1, 20)]));
    assert_eq!(KafkaNode::select_entries(&vec![10, 20], 1), Some(vec![(1, 20)]));
    assert_eq!(KafkaNode::select_entries(&vec![10, 20], 2), None);
    assert_eq!(KafkaNode::select_entries(&vec![], 0), None);
    assert_eq!(
        KafkaNode::select_entries(&vec![5, 6, 7, 8, 9], 1),
        Some(vec![(1, 6), (2, 7), (3, 8)])
    );
}

#[test]
fn a_commit_is_stored_and_listed() {
    let mut node = only_node();
    let mut stores = stores();
    assert_eq!(run(&mut node, &mut stores, commit("t", 5)), KafkaPayload::CommitOffsetsOk);
    assert_eq!(stores["seq-kv"]["t/commit"], 5);
    assert_eq!(
        run(&mut node, &mut stores, KafkaPayload::ListCommittedOffsets { keys: vec!["t".to_string()] }),
        KafkaPayload::ListCommittedOffsetsOk { offsets: vec![("t".to_string(), 5)] }
    );
}

#[test]
fn a_smaller_commit_leaves_the_stored_commit() {
    let mut node = only_node();
    let mut stores = stores();
    run(&mut node, &mut stores, commit("t", 5));
    assert_eq!(run(&mut node, &mut stores, commit("t", 3)), KafkaPayload::CommitOffsetsOk);
    assert_eq!(stores["seq-kv"]["t/commit"], 5);
    assert_eq!(run(&mut node, &mut stores, commit("t", 5)), KafkaPayload::CommitOffsetsOk);
    assert_eq!(stores["seq-kv"]["t/commit"], 5);
    assert_eq!(run(&mut node, &mut stores, commit("t", 8)), KafkaPayload::CommitOffsetsOk);
    assert_eq!(stores["seq-kv"]["t/commit"], 8);
    assert_eq!(node.cas_failures(), 0);
}

#[test]
fn a_commit_of_zero_creates_the_key() {
    let mut node = only_node();
    let mut stores = stores();
    run(&mut node, &mut stores, commit("t", 0));
    assert_eq!(stores["seq-kv"]["t/commit"], 0);
}

#[test]
fn commits_of_several_topics() {
    let mut node = only_node();
    let mut stores = stores();
    let offsets = vec![("a".to_string(), 2), ("b".to_string(), 7)];
    assert_eq!(
        run(&mut node, &mut stores, KafkaPayload::CommitOffsets { offsets }),
        KafkaPayload::CommitOffsetsOk
    );
    let keys = vec!["b".to_string(), "c".to_string(), "a".to_string()];
    assert_eq!(
        run(&mut node, &mut stores, KafkaPayload::ListCommittedOffsets { keys }),
        KafkaPayload::ListCommittedOffsetsOk {
            offsets: vec![("b".to_string(), 7), ("c".to_string(), 0), ("a".to_string(), 2)]
        }
    );
    assert_eq!(stores["seq-kv"]["c/commit"], 0);
}

#[test]
fn a_commit_that_loses_the_swap_reads_again() {
    let mut node = only_node();
    let mut stores = stores();
    stores.get_mut("seq-kv").unwrap().insert("t/commit".to_string(), 1);
    let step = node.step(client(commit("t", 4)));
    let Step::AskStore { task, request } = step else { panic!() };
    let read = serve(&mut stores, &request);
    let Step::AskStore { task, request } = node.resume(task, Reply::Storage(read)) else {
        panic!()
    };
    // another node commits 6 before the swap arrives
    stores.get_mut("seq-kv").unwrap().insert("t/commit".to_string(), 6);
    let refused = serve(&mut stores, &request);
    assert_eq!(refused, refusal(22));
    let step = node.resume(task, Reply::Storage(refused));
    let answer = finish(&mut node, &mut stores, step).unwrap();
    assert_eq!(answer.body.payload, KafkaPayload::CommitOffsetsOk);
    assert_eq!(stores["seq-kv"]["t/commit"], 6);
    assert_eq!(node.cas_failures(), 0);
}

#[test]
fn concurrent_sends_get_different_offsets_without_gaps() {
    let mut node = only_node();
    let mut stores = stores();
    let first = node.step(client(send("t", 10)));
    let second = node.step(client(send("t", 20)));
    let mut steps = vec![Some(first), Some(second)];
    let mut offsets = Vec::new();
    while steps.iter().any(|s| s.is_some()) {
        for slot in steps.iter_mut() {
            match slot.take() {
                Some(Step::AskStore { task, request }) => {
                    let reply = serve(&mut stores, &request);
                    *slot = Some(node.resume(task, Reply::Storage(reply)));
                }
                Some(Step::Reply { message }) => match message.body.payload {
                    KafkaPayload::SendOk { offset } => offsets.push(offset),
                    other => panic!("{:?}", other),
                },
                Some(other) => panic!("{:?}", other),
                None => {}
            }
        }
    }
    offsets.sort();
    assert_eq!(offsets, vec![0, 1]);
    assert_eq!(stores["lin-kv"]["t/offset"], 2);
    assert_eq!(node.cas_failures(), 1);
    assert_eq!(node.total_offset_writes(), 2);
    let mut entries = vec![stores["lin-kv"]["t/log/0"], stores["lin-kv"]["t/log/1"]];
    entries.sort();
    assert_eq!(entries, vec![10, 20]);
}

#[test]
fn offsets_go_on_from_the_stored_counter() {
    let mut node = only_node();
    let mut stores = stores();
    stores.get_mut("lin-kv").unwrap().insert("t/offset".to_string(), 41);
    assert_eq!(run(&mut node, &mut stores, send("t", 1)), KafkaPayload::SendOk { offset: 41 });
    assert_eq!(run(&mut node, &mut stores, send("t", 2)), KafkaPayload::SendOk { offset: 42 });
    assert_eq!(run(&mut node, &mut stores, send("t", 3)), KafkaPayload::SendOk { offset: 43 });
}

#[test]
fn the_taking_of_an_offset_step_by_step() {
    let mut node = only_node();
    let value = |n: usize| -> Reply<KafkaPayload> {
        Reply::Storage(StoragePayload::ReadOk { value: StorageType::Uint(n) })
    };
    assert_eq!(
        node.get_next_offset(AppendPhase::Offset(FetchPhase::Reading), &value(6)),
        Alloc::Ask {
            phase: AppendPhase::Swapping { current: 6 },
            want: Want::Cas { from: 6, to: 7 },
        }
    );
    assert_eq!(
        node.get_next_offset(
            AppendPhase::Offset(FetchPhase::Reading),
            &Reply::Storage(refusal(20))
        ),
        Alloc::Ask {
            phase: AppendPhase::Offset(FetchPhase::Creating),
            want: Want::Cas { from: 0, to: 0 },
        }
    );
    assert_eq!(
        node.get_next_offset(
            AppendPhase::Offset(FetchPhase::Creating),
            &Reply::Storage(StoragePayload::CasOk)
        ),
        Alloc::Ask {
            phase: AppendPhase::Swapping { current: 0 },
            want: Want::Cas { from: 0, to: 1 },
        }
    );
    assert_eq!(
        node.get_next_offset(
            AppendPhase::Swapping { current: 6 },
            &Reply::Storage(StoragePayload::CasOk)
        ),
        Alloc::Taken { offset: 6 }
    );
    assert_eq!(node.cas_failures(), 0);
    assert_eq!(
        node.get_next_offset(AppendPhase::Swapping { current: 6 }, &Reply::Storage(refusal(22))),
        Alloc::Again
    );
    assert_eq!(node.cas_failures(), 1);
    assert_eq!(
        node.get_next_offset(AppendPhase::Swapping { current: 6 }, &Reply::Lost),
        Alloc::Fail
    );
    assert_eq!(
        node.get_next_offset(AppendPhase::Offset(FetchPhase::Reading), &value(usize::MAX)),
        Alloc::Overflow
    );
    assert_eq!(
        node.get_next_offset(AppendPhase::Writing { offset: 3 }, &Reply::Lost),
        Alloc::Taken { offset: 3 }
    );
    assert_eq!(node.cas_failures(), 1);
}

#[test]
fn the_raising_of_a_commit_step_by_step() {
    let value = |n: usize| -> Reply<KafkaPayload> {
        Reply::Storage(StoragePayload::ReadOk { value: StorageType::Uint(n) })
    };
    assert_eq!(
        KafkaNode::raise_commit(5, CommitPhase::Current(FetchPhase::Reading), &value(2)),
        Raise::Ask { stage: CommitPhase::Raising { from: 2 }, want: Want::Cas { from: 2, to: 5 } }
    );
    assert_eq!(
        KafkaNode::raise_commit(5, CommitPhase::Current(FetchPhase::Reading), &value(5)),
        Raise::Settled
    );
    assert_eq!(
        KafkaNode::raise_commit(5, CommitPhase::Current(FetchPhase::Reading), &value(9)),
        Raise::Settled
    );
    assert_eq!(
        KafkaNode::raise_commit(5, CommitPhase::Current(FetchPhase::Reading), &Reply::Storage(refusal(20))),
        Raise::Ask {
            stage: CommitPhase::Current(FetchPhase::Creating),
            want: Want::Cas { from: 0, to: 0 },
        }
    );
    assert_eq!(
        KafkaNode::raise_commit(
            5,
            CommitPhase::Raising { from: 2 },
            &Reply::Storage(StoragePayload::CasOk)
        ),
        Raise::Settled
    );
    assert_eq!(
        KafkaNode::raise_commit(5, CommitPhase::Raising { from: 2 }, &Reply::Storage(refusal(22))),
        Raise::Again
    );
    assert_eq!(KafkaNode::raise_commit(5, CommitPhase::Raising { from: 2 }, &Reply::Lost), Raise::Fail);
    assert_eq!(
        KafkaNode::raise_commit(5, CommitPhase::Current(FetchPhase::Reading), &Reply::Lost),
        Raise::Fail
    );
}

#[test]
fn a_node_that_does_not_lead_the_topic_forwards_the_send() {
    let mut node = KafkaNode::new("n1".to_string(), 1, 2);
    let step = node.step(client(send("4", 10)));
    let Step::AskPeer { task, forward } = step else { panic!() };
    assert_eq!(
        forward,
        Message {
            src: "n1".to_string(),
            dst: "n0".to_string(),
            body: Body { id: None, in_reply_to: None, payload: send("4", 10) },
        }
    );
    assert_eq!(node.total_offset_writes(), 0);
    let step = node.resume(task, Reply::Peer(KafkaPayload::SendOk { offset: 9 }));
    let Step::Reply { message } = step else { panic!() };
    assert_eq!(message.dst, "c1");
    assert_eq!(message.body.in_reply_to, Some(11));
    assert_eq!(message.body.payload, KafkaPayload::SendOk { offset: 9 });
    assert_eq!(node.cached("4", 9), Some(10));
}

#[test]
fn a_forward_that_is_not_confirmed_fails() {
    let mut node = KafkaNode::new("n1".to_string(), 1, 2);
    let Step::AskPeer { task, .. } = node.step(client(send("4", 10))) else { panic!() };
    assert!(matches!(
        node.resume(task, Reply::Lost),
        Step::Failed { error: NodeError::ForwardFailure }
    ));
    let Step::AskPeer { task, .. } = node.step(client(send("4", 10))) else { panic!() };
    assert!(matches!(
        node.resume(task, Reply::Peer(KafkaPayload::CommitOffsetsOk)),
        Step::Failed { error: NodeError::ForwardFailure }
    ));
    let Step::AskPeer { task, .. } = node.step(client(send("4", 10))) else { panic!() };
    assert!(matches!(
        node.resume(task, Reply::Storage(StoragePayload::CasOk)),
        Step::Failed { error: NodeError::ForwardFailure }
    ));
    assert_eq!(node.cached("4", 0), None);
}

#[test]
fn a_send_without_a_reply_from_the_service_fails() {
    let mut node = only_node();
    let Step::AskStore { task, .. } = node.step(client(send("t", 10))) else { panic!() };
    assert!(matches!(node.resume(task, Reply::Lost), Step::Failed { error: NodeError::NoReply }));
}

#[test]
fn a_send_fails_on_a_reply_that_a_read_cannot_have() {
    let mut node = only_node();
    let Step::AskStore { task, .. } = node.step(client(send("t", 10))) else { panic!() };
    let list = StoragePayload::ReadOk { value: StorageType::Array(vec![1]) };
    assert!(matches!(
        node.resume(task, Reply::Storage(list)),
        Step::Failed { error: NodeError::UnexpectedReply }
    ));
}

#[test]
fn a_send_fails_where_the_offset_has_no_successor() {
    let mut node = only_node();
    let mut stores = stores();
    stores.get_mut("lin-kv").unwrap().insert("t/offset".to_string(), usize::MAX);
    let step = node.step(client(send("t", 10)));
    assert_eq!(finish(&mut node, &mut stores, step), Err(NodeError::Overflow));
}

#[test]
fn a_send_whose_write_is_refused_fails_and_is_not_remembered() {
    let mut node = only_node();
    let mut stores = stores();
    let mut step = node.step(client(send("t", 10)));
    loop {
        match step {
            Step::AskStore { task, request } => {
                let reply = match request.body.payload {
                    StoragePayload::Write { .. } => {
                        StoragePayload::Error { code: 13, text: "crashed".to_string() }
                    }
                    _ => serve(&mut stores, &request),
                };
                step = node.resume(task, Reply::Storage(reply));
            }
            Step::Failed { error } => {
                assert_eq!(
                    error,
                    NodeError::StorageError { code: 13, text: "crashed".to_string() }
                );
                break;
            }
            other => panic!("{:?}", other),
        }
    }
    assert_eq!(node.cached("t", 0), None);
}

#[test]
fn what_needs_no_answer_gets_none() {
    let mut node = only_node();
    assert!(matches!(node.step(client(KafkaPayload::SendOk { offset: 1 })), Step::Idle));
    assert!(matches!(node.step(client(KafkaPayload::PollOk { msgs: vec![] })), Step::Idle));
    assert!(matches!(node.step(client(KafkaPayload::CommitOffsetsOk)), Step::Idle));
    assert!(matches!(
        node.step(client(KafkaPayload::ListCommittedOffsetsOk { offsets: vec![] })),
        Step::Idle
    ));
    assert!(matches!(node.step(Event::Injected(())), Step::Idle));
    let stored = Message {
        src: "lin-kv".to_string(),
        dst: "n0".to_string(),
        body: Body { id: Some(1), in_reply_to: Some(2), payload: StoragePayload::WriteOk },
    };
    assert!(matches!(node.step(Event::Storage(stored)), Step::Idle));
}

#[test]
fn read_or_create_of_the_node() {
    let value: Reply<KafkaPayload> =
        Reply::Storage(StoragePayload::ReadOk { value: StorageType::Uint(3) });
    let missing: Reply<KafkaPayload> = Reply::Storage(refusal(20));
    let created: Reply<KafkaPayload> = Reply::Storage(StoragePayload::CasOk);
    assert_eq!(KafkaNode::read_or_create(FetchPhase::Reading, &value), Fetched::Have(3));
    assert_eq!(KafkaNode::read_or_create(FetchPhase::Reading, &missing), Fetched::Create);
    assert_eq!(KafkaNode::read_or_create(FetchPhase::Creating, &created), Fetched::Have(0));
    assert_eq!(KafkaNode::read_or_create(FetchPhase::Creating, &missing), Fetched::Have(0));
    assert_eq!(KafkaNode::read_or_create(FetchPhase::Reading, &Reply::Lost), Fetched::Fail);
    assert_eq!(KafkaNode::read_or_create(FetchPhase::Creating, &Reply::Lost), Fetched::Fail);
}
