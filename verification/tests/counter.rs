use fly_io::counter::{AddPhase, Added, CounterNode, CounterPayload, CounterTask};
use fly_io::error::NodeError;
use fly_io::network::Event;
use fly_io::protocol::{Body, Init, Message};
use fly_io::service::{StoragePayload, StorageType};
use fly_io::task::{Reply, Step, Want};

fn node() -> (CounterNode, Message<StoragePayload>) {
    CounterNode::from_init(Init {
        node_id: "n2".to_string(),
        node_ids: vec!["n1".to_string(), "n2".to_string()],
    })
}

fn client(id: usize, payload: CounterPayload) -> Event<CounterPayload, ()> {
    Event::Message(Message {
        src: "c4".to_string(),
        dst: "n2".to_string(),
        body: Body { id: Some(id), in_reply_to: None, payload },
    })
}

/// One stored number, served as the sequential service serves it.
fn serve(cell: &mut Option<usize>, request: &Message<StoragePayload>) -> StoragePayload {
    assert_eq!(request.src, "n2");
    assert_eq!(request.dst, "seq-kv");
    match &request.body.payload {
        StoragePayload::Read { key } => {
            assert_eq!(key, "value");
            match cell {
                Some(value) => StoragePayload::ReadOk { value: StorageType::Uint(*value) },
                None => StoragePayload::Error { code: 20, text: "missing".to_string() },
            }
        }
        StoragePayload::Write { key, value: StorageType::Uint(value) } => {
            assert_eq!(key, "value");
            *cell = Some(*value);
            StoragePayload::WriteOk
        }
        StoragePayload::Cas {
            key,
            from: StorageType::Uint(from),
            to: StorageType::Uint(to),
            create_if_not_exists: Some(true),
        } => {
            assert_eq!(key, "value");
            if cell.is_none() || *cell == Some(*from) {
                *cell = Some(*to);
                StoragePayload::CasOk
            } else {
                StoragePayload::Error { code: 22, text: "changed".to_string() }
            }
        }
        other => panic!("{:?}", other),
    }
}

fn finish(
    node: &CounterNode,
    cell: &mut Option<usize>,
    mut step: Step<CounterTask, CounterPayload>,
) -> Result<Message<CounterPayload>, NodeError> {
    loop {
        match step {
            Step::AskStore { task, request } => {
                let reply = serve(cell, &request);
                step = node.resume(task, Reply::Storage(reply));
            }
            Step::Reply { message } => return Ok(message),
            Step::Failed { error } => return Err(error),
            other => panic!("{:?}", other),
        }
    }
}

#[test]
fn the_number_is_stored_under_value() {
    assert_eq!(CounterNode::storage_key(), "value");
}

#[test]
fn a_new_node_stores_zero() {
    let (_, write) = node();
    assert_eq!(
        write,
        Message {
            src: "n2".to_string(),
            dst: "seq-kv".to_string(),
            body: Body {
                id: None,
                in_reply_to: None,
                payload: StoragePayload::Write {
                    key: "value".to_string(),
                    value: StorageType::Uint(0),
                },
            },
        }
    );
}

#[test]
fn an_add_swaps_the_number_for_the_sum() {
    let (node, _) = node();
    let mut cell = Some(4);
    let step = node.step(client(7, CounterPayload::Add { delta: 3 }));
    let Step::AskStore { task, request } = step else { panic!() };
    assert_eq!(request.body.payload, StoragePayload::Read { key: "value".to_string() });
    let reply = serve(&mut cell, &request);
    let Step::AskStore { task, request } = node.resume(task, Reply::Storage(reply)) else {
        panic!()
    };
    assert_eq!(
        request.body.payload,
        StoragePayload::Cas {
            key: "value".to_string(),
            from: StorageType::Uint(4),
            to: StorageType::Uint(7),
            create_if_not_exists: Some(true),
        }
    );
    let reply = serve(&mut cell, &request);
    let Step::Reply { message } = node.resume(task, Reply::Storage(reply)) else { panic!() };
    assert_eq!(
        message,
        Message {
            src: "n2".to_string(),
            dst: "c4".to_string(),
            body: Body { id: None, in_reply_to: Some(7), payload: CounterPayload::AddOk },
        }
    );
    assert_eq!(cell, Some(7));
}

#[test]
fn a_read_passes_the_stored_number_on() {
    let (node, _) = node();
    let mut cell = Some(12);
    let step = node.step(client(3, CounterPayload::Read));
    let message = finish(&node, &mut cell, step).unwrap();
    assert_eq!(message.dst, "c4");
    assert_eq!(message.body.in_reply_to, Some(3));
    assert_eq!(message.body.payload, CounterPayload::ReadOk { value: 12 });
    assert_eq!(cell, Some(12));
}

#[test]
fn a_refused_swap_is_tried_again_from_the_read() {
    let (node, _) = node();
    let mut cell = Some(4);
    let Step::AskStore { task, request } = node.step(client(7, CounterPayload::Add { delta: 3 }))
    else {
        panic!()
    };
    let read = serve(&mut cell, &request);
    let Step::AskStore { task, request } = node.resume(task, Reply::Storage(read)) else {
        panic!()
    };
    // somebody else adds 10 in between
    cell = Some(14);
    let refused = serve(&mut cell, &request);
    let Step::AskStore { task, request } = node.resume(task, Reply::Storage(refused)) else {
        panic!()
    };
    assert_eq!(request.body.payload, StoragePayload::Read { key: "value".to_string() });
    let step = node.resume(task, Reply::Storage(serve(&mut cell, &request)));
    let message = finish(&node, &mut cell, step).unwrap();
    assert_eq!(message.body.payload, CounterPayload::AddOk);
    assert_eq!(cell, Some(17));
}

fn after_concurrent_adds(deltas: &[usize], order: &[usize]) -> Option<usize> {
    let (node, write) = node();
    let mut cell = None;
    serve(&mut cell, &write);
    let mut steps: Vec<Option<Step<CounterTask, CounterPayload>>> = deltas
        .iter()
        .enumerate()
        .map(|(i, delta)| Some(node.step(client(i, CounterPayload::Add { delta: *delta }))))
        .collect();
    let mut done = 0;
    let mut turn = 0;
    while done < deltas.len() {
        let i = order[turn % order.len()];
        turn += 1;
        match steps[i].take() {
            Some(Step::AskStore { task, request }) => {
                let reply = serve(&mut cell, &request);
                let next = node.resume(task, Reply::Storage(reply));
                if let Step::Reply { message } = &next {
                    assert_eq!(message.body.payload, CounterPayload::AddOk);
                    assert_eq!(message.body.in_reply_to, Some(i));
                    done += 1;
                } else {
                    steps[i] = Some(next);
                }
            }
            Some(other) => panic!("{:?}", other),
            None => {}
        }
    }
    let read = node.step(client(99, CounterPayload::Read));
    match finish(&node, &mut cell, read).unwrap().body.payload {
        CounterPayload::ReadOk { value } => Some(value),
        other => panic!("{:?}", other),
    }
}

#[test]
fn concurrent_increments_are_all_counted() {
    assert_eq!(after_concurrent_adds(&[1, 1, 1, 1, 1], &[0, 1, 2, 3, 4]), Some(5));
    assert_eq!(after_concurrent_adds(&[1, 1, 1, 1, 1], &[4, 4, 3, 0, 1, 2, 2, 1]), Some(5));
    assert_eq!(after_concurrent_adds(&[1; 8], &[0, 1, 0, 2, 0, 3, 4, 5, 6, 7]), Some(8));
}

#[test]
fn concurrent_adds_sum_up() {
    assert_eq!(after_concurrent_adds(&[3, 0, 40, 500], &[0, 1, 2, 3]), Some(543));
    assert_eq!(after_concurrent_adds(&[3, 0, 40, 500], &[3, 3, 2, 1, 0, 0, 1]), Some(543));
}

#[test]
fn an_add_to_a_missing_number_fails_with_the_service_error() {
    let (node, _) = node();
    let mut cell = None;
    let step = node.step(client(1, CounterPayload::Add { delta: 1 }));
    assert_eq!(
        finish(&node, &mut cell, step),
        Err(NodeError::StorageError { code: 20, text: "missing".to_string() })
    );
    assert_eq!(cell, None);
}

#[test]
fn a_read_of_a_missing_number_fails_with_the_service_error() {
    let (node, _) = node();
    let mut cell = None;
    let step = node.step(client(1, CounterPayload::Read));
    assert_eq!(
        finish(&node, &mut cell, step),
        Err(NodeError::StorageError { code: 20, text: "missing".to_string() })
    );
}

#[test]
fn an_add_beyond_the_machine_range_fails() {
    let (node, _) = node();
    let mut cell = Some(usize::MAX - 1);
    let step = node.step(client(1, CounterPayload::Add { delta: 2 }));
    assert_eq!(finish(&node, &mut cell, step), Err(NodeError::Overflow));
    assert_eq!(cell, Some(usize::MAX - 1));
    let step = node.step(client(1, CounterPayload::Add { delta: 1 }));
    assert!(finish(&node, &mut cell, step).is_ok());
    assert_eq!(cell, Some(usize::MAX));
}

#[test]
fn an_add_without_a_reply_fails() {
    let (node, _) = node();
    let Step::AskStore { task, .. } = node.step(client(1, CounterPayload::Add { delta: 1 }))
    else {
        panic!()
    };
    assert!(matches!(node.resume(task, Reply::Lost), Step::Failed { error: NodeError::NoReply }));
    let mut cell = Some(0);
    let Step::AskStore { task, request } = node.step(client(1, CounterPayload::Add { delta: 1 }))
    else {
        panic!()
    };
    let read = serve(&mut cell, &request);
    let Step::AskStore { task, .. } = node.resume(task, Reply::Storage(read)) else { panic!() };
    assert!(matches!(node.resume(task, Reply::Lost), Step::Failed { error: NodeError::NoReply }));
}

#[test]
fn a_read_fails_on_a_reply_that_a_read_cannot_have() {
    let (node, _) = node();
    let Step::AskStore { task, .. } = node.step(client(1, CounterPayload::Read)) else {
        panic!()
    };
    assert!(matches!(
        node.resume(task, Reply::Storage(StoragePayload::CasOk)),
        Step::Failed { error: NodeError::UnexpectedReply }
    ));
}

#[test]
fn the_addition_step_by_step() {
    let value = |n: usize| -> Reply<CounterPayload> {
        Reply::Storage(StoragePayload::ReadOk { value: StorageType::Uint(n) })
    };
    let swapping = AddPhase::Swapping { current: 4, candidate: 7 };
    assert_eq!(
        CounterNode::add_to_current_value(3, AddPhase::Reading, &value(4)),
        Added::Ask { phase: swapping, want: Want::Cas { from: 4, to: 7 } }
    );
    assert_eq!(
        CounterNode::add_to_current_value(3, swapping, &Reply::Storage(StoragePayload::CasOk)),
        Added::Done { value: 7 }
    );
    assert_eq!(
        CounterNode::add_to_current_value(
            3,
            swapping,
            &Reply::Storage(StoragePayload::Error { code: 22, text: "changed".to_string() })
        ),
        Added::Again
    );
    assert_eq!(CounterNode::add_to_current_value(3, swapping, &Reply::Lost), Added::Fail);
    assert_eq!(CounterNode::add_to_current_value(3, AddPhase::Reading, &Reply::Lost), Added::Fail);
    assert_eq!(
        CounterNode::add_to_current_value(1, AddPhase::Reading, &value(usize::MAX)),
        Added::Overflow
    );
    assert_eq!(
        CounterNode::add_to_current_value(0, AddPhase::Reading, &value(usize::MAX)),
        Added::Ask {
            phase: AddPhase::Swapping { current: usize::MAX, candidate: usize::MAX },
            want: Want::Cas { from: usize::MAX, to: usize::MAX },
        }
    );
}

#[test]
fn the_counter_ignores_what_needs_no_answer() {
    let (node, _) = node();
    assert!(matches!(node.step(client(1, CounterPayload::AddOk)), Step::Idle));
    assert!(matches!(node.step(client(1, CounterPayload::ReadOk { value: 3 })), Step::Idle));
    assert!(matches!(node.step(Event::Injected(())), Step::Idle));
    let stored = Message {
        src: "seq-kv".to_string(),
        dst: "n2".to_string(),
        body: Body { id: Some(1), in_reply_to: Some(0), payload: StoragePayload::WriteOk },
    };
    assert!(matches!(node.step(Event::Storage(stored)), Step::Idle));
}
