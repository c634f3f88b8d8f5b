//! The commit log as a state machine.
//!
//! A node answers a client in several exchanges: with the linearizable
//! service, which holds the log entries and each topic's next free offset;
//! with the sequentially consistent service, which holds the committed
//! offsets; or with the node that leads the topic. The functions here say,
//! for every state of a task and every reply, what the node does next.

use crate::error::Failure;
use crate::kafka::keys::{leader_name, topic_class, StorageKey};
use crate::kafka::payload::KafkaRecord;
use crate::network::EventView;
use crate::protocol::{answer_to, origin_of, Envelope};
use crate::service::{
    cas_record, read_record, request_envelope, write_record, StorageRecord, Stored,
    LINEAR_STORE_ADDRESS, SEQUENTIAL_STORE_ADDRESS,
};
use crate::task::{
    answer_of, failure_of, fetch_next, record_of, Answer, FetchPhase, Fetched, ReplyView,
    StepView, Want,
};
use vstd::prelude::*;

verus! {

/// How far an append has come.
#[derive(Clone, Copy, Debug, PartialEq, Eq)]
pub enum AppendPhase {
    /// The topic's next free offset is being read, or created.
    Offset(FetchPhase),
    /// The swap that takes the offset `current` was asked for.
    Swapping { current: usize },
    /// The offset is taken; the entry's write was asked for.
    Writing { offset: usize },
}

/// How far the commit for one topic has come.
#[derive(Clone, Copy, Debug, PartialEq, Eq)]
pub enum CommitPhase {
    /// The stored commit is being read, or created.
    Current(FetchPhase),
    /// The swap that raises the stored commit from `from` was asked for.
    Raising { from: usize },
}

/// How far the poll of one topic has come.
#[derive(Clone, Copy, Debug, PartialEq, Eq)]
pub enum PollPhase {
    /// The topic's next free offset was asked for.
    HighWater,
    /// The entry at `offset` was asked for; offsets from `limit` on are free.
    Scanning { offset: usize, limit: usize },
}

/// The mathematical content of a job.
pub ghost enum JobView {
    Append { topic: Seq<char>, entry: usize, phase: AppendPhase },
    Forward { topic: Seq<char>, entry: usize },
    Poll {
        wanted: Seq<(Seq<char>, usize)>,
        at: usize,
        scan: PollPhase,
        found: Seq<(Seq<char>, Seq<(usize, usize)>)>,
    },
    Commit { wanted: Seq<(Seq<char>, usize)>, at: usize, stage: CommitPhase },
    List { keys: Seq<Seq<char>>, at: usize, fetch: FetchPhase, commits: Seq<(Seq<char>, usize)> },
}

/// The mathematical content of a task: the header of the reply that the
/// client is owed, and the job.
pub ghost struct TaskView {
    pub origin: Envelope<()>,
    pub job: JobView,
}

/// The mathematical content of a commit-log node.
pub ghost struct KafkaState {
    pub node_id: Seq<char>,
    /// The class whose topics this node leads.
    pub class_leader: usize,
    pub n_classes: usize,
    /// Known log entries, by topic and offset.
    pub cache: Map<(Seq<char>, usize), usize>,
    /// How many swaps for an offset were refused.
    pub cas_failures: usize,
    /// How many offsets were asked for.
    pub total_offset_writes: usize,
}

/// One more, as far as the machine can count.
pub open spec fn bump(n: usize) -> usize {
    if n < usize::MAX {
        (n + 1) as usize
    } else {
        n
    }
}

/// What a reply means to a node that is taking an offset.
#[derive(Clone, Copy, Debug, PartialEq, Eq)]
pub enum Alloc {
    /// Ask `want` of the topic's offset key and go on in `phase`.
    Ask { phase: AppendPhase, want: Want },
    /// The offset is the node's.
    Taken { offset: usize },
    /// The swap was refused: read the offset again.
    Again,
    /// The offset has no successor on this machine.
    Overflow,
    /// The reply stops the task.
    Fail,
}

/// How a node takes the next free offset of a topic.
///
/// The offset is read, or created as zero where it is missing. The node then
/// asks to swap it for its successor. A swap that is applied gives the node
/// the offset that it read; a swap that is refused sends it back to reading;
/// a swap that is not answered stops it.
pub open spec fn alloc_next(phase: AppendPhase, answer: Answer) -> Alloc {
    match phase {
        AppendPhase::Offset(fetching) => match fetch_next(fetching, answer) {
            Fetched::Have(current) => if current < usize::MAX {
                Alloc::Ask {
                    phase: AppendPhase::Swapping { current },
                    want: Want::Cas { from: current, to: (current + 1) as usize },
                }
            } else {
                Alloc::Overflow
            },
            Fetched::Create => Alloc::Ask {
                phase: AppendPhase::Offset(FetchPhase::Creating),
                want: Want::Cas { from: 0, to: 0 },
            },
            Fetched::Fail => Alloc::Fail,
        },
        AppendPhase::Swapping { current } => match answer {
            Answer::Swapped => Alloc::Taken { offset: current },
            Answer::Lost => Alloc::Fail,
            _ => Alloc::Again,
        },
        AppendPhase::Writing { offset } => Alloc::Taken { offset },
    }
}

/// What a reply means to a node that is raising a stored commit.
#[derive(Clone, Copy, Debug, PartialEq, Eq)]
pub enum Raise {
    /// Ask `want` of the topic's commit key and go on in `stage`.
    Ask { stage: CommitPhase, want: Want },
    /// The stored commit is at least the proposed one: the topic is done.
    Settled,
    /// The swap was refused: read the stored commit again.
    Again,
    /// The reply stops the task.
    Fail,
}

/// How a node raises the stored commit of a topic to `proposed`.
///
/// The stored commit is read, or created as zero where it is missing. Only a
/// proposed offset above the stored one is written, by a swap from the stored
/// one. A swap that is refused sends the node back to reading; a swap that is
/// not answered stops it.
pub open spec fn commit_next(proposed: usize, stage: CommitPhase, answer: Answer) -> Raise {
    match stage {
        CommitPhase::Current(fetching) => match fetch_next(fetching, answer) {
            Fetched::Have(current) => if current < proposed {
                Raise::Ask {
                    stage: CommitPhase::Raising { from: current },
                    want: Want::Cas { from: current, to: proposed },
                }
            } else {
                Raise::Settled
            },
            Fetched::Create => Raise::Ask {
                stage: CommitPhase::Current(FetchPhase::Creating),
                want: Want::Cas { from: 0, to: 0 },
            },
            Fetched::Fail => Raise::Fail,
        },
        CommitPhase::Raising { .. } => match answer {
            Answer::Swapped => Raise::Settled,
            Answer::Lost => Raise::Fail,
            _ => Raise::Again,
        },
    }
}

impl KafkaState {
    /// The step that asks the linearizable service for `record`.
    pub open spec fn ask_linear(self, task: TaskView, record: StorageRecord) -> StepView<
        TaskView,
        KafkaRecord,
    > {
        StepView::AskStore {
            task,
            request: request_envelope(self.node_id, LINEAR_STORE_ADDRESS@, record),
        }
    }

    /// The step that asks the sequentially consistent service for `record`.
    pub open spec fn ask_sequential(self, task: TaskView, record: StorageRecord) -> StepView<
        TaskView,
        KafkaRecord,
    > {
        StepView::AskStore {
            task,
            request: request_envelope(self.node_id, SEQUENTIAL_STORE_ADDRESS@, record),
        }
    }

    /// This node, knowing one more entry.
    pub open spec fn remembering(
        self,
        topic: Seq<char>,
        offset: usize,
        entry: usize,
    ) -> KafkaState {
        KafkaState { cache: self.cache.insert((topic, offset), entry), ..self }
    }

    /// This node, having counted one more swap for an offset that was
    /// refused.
    pub open spec fn refused(self) -> KafkaState {
        KafkaState { cas_failures: bump(self.cas_failures), ..self }
    }

    /// Whether this node leads `topic`.
    pub open spec fn leads(self, topic: Seq<char>) -> bool {
        topic_class(topic, self.n_classes as nat) == self.class_leader
    }

    /// The step that reads the next free offset of `topic`.
    pub open spec fn read_next_offset(
        self,
        origin: Envelope<()>,
        topic: Seq<char>,
        entry: usize,
    ) -> StepView<TaskView, KafkaRecord> {
        self.ask_linear(
            TaskView {
                origin,
                job: JobView::Append {
                    topic,
                    entry,
                    phase: AppendPhase::Offset(FetchPhase::Reading),
                },
            },
            read_record(StorageKey::offset_key(topic)),
        )
    }

    /// An append begins: the request is counted and the topic's next free
    /// offset is read.
    pub open spec fn begin_append(self, origin: Envelope<()>, topic: Seq<char>, entry: usize) -> (
        KafkaState,
        StepView<TaskView, KafkaRecord>,
    ) {
        (
            KafkaState { total_offset_writes: bump(self.total_offset_writes), ..self },
            self.read_next_offset(origin, topic, entry),
        )
    }

    /// An append goes on.
    ///
    /// The node takes the topic's next free offset as [`alloc_next`] says, and
    /// counts each swap that is refused. The entry is then written under the
    /// offset; the client hears of the offset once the write is confirmed,
    /// and only then does the node remember the entry.
    pub open spec fn append_resumed(
        self,
        origin: Envelope<()>,
        topic: Seq<char>,
        entry: usize,
        phase: AppendPhase,
        reply: ReplyView<KafkaRecord>,
    ) -> (KafkaState, StepView<TaskView, KafkaRecord>) {
        match phase {
            AppendPhase::Writing { offset } => match answer_of(reply) {
                Answer::Written => (
                    self.remembering(topic, offset, entry),
                    StepView::Reply { message: answer_to(origin, KafkaRecord::SendOk { offset }) },
                ),
                _ => (self, StepView::Failed { error: failure_of(reply) }),
            },
            _ => match alloc_next(phase, answer_of(reply)) {
                Alloc::Ask { phase: next, want } => (
                    self,
                    self.ask_linear(
                        TaskView { origin, job: JobView::Append { topic, entry, phase: next } },
                        record_of(want, StorageKey::offset_key(topic)),
                    ),
                ),
                Alloc::Taken { offset } => (
                    self,
                    self.ask_linear(
                        TaskView {
                            origin,
                            job: JobView::Append {
                                topic,
                                entry,
                                phase: AppendPhase::Writing { offset },
                            },
                        },
                        write_record(
                            StorageKey::log_key(topic, offset as nat),
                            Stored::Uint(entry),
                        ),
                    ),
                ),
                Alloc::Again => (self.refused(), self.read_next_offset(origin, topic, entry)),
                Alloc::Overflow => (self, StepView::Failed { error: Failure::Overflow }),
                Alloc::Fail => (self, StepView::Failed { error: failure_of(reply) }),
            },
        }
    }

    /// A node that does not lead the topic hands the append to the leader.
    pub open spec fn begin_forward(self, origin: Envelope<()>, topic: Seq<char>, entry: usize) -> (
        KafkaState,
        StepView<TaskView, KafkaRecord>,
    ) {
        (
            self,
            StepView::AskPeer {
                task: TaskView { origin, job: JobView::Forward { topic, entry } },
                forward: Envelope {
                    src: self.node_id,
                    dst: leader_name(topic_class(topic, self.n_classes as nat)),
                    id: None,
                    in_reply_to: None,
                    payload: KafkaRecord::Send { key: topic, msg: entry },
                },
            },
        )
    }

    /// The leader has answered, or not: its offset is passed on to the client
    /// and the entry remembered; anything but an offset is a failure of the
    /// forwarding.
    pub open spec fn forward_resumed(
        self,
        origin: Envelope<()>,
        topic: Seq<char>,
        entry: usize,
        reply: ReplyView<KafkaRecord>,
    ) -> (KafkaState, StepView<TaskView, KafkaRecord>) {
        match reply {
            ReplyView::Peer(KafkaRecord::SendOk { offset }) => (
                self.remembering(topic, offset, entry),
                StepView::Reply { message: answer_to(origin, KafkaRecord::SendOk { offset }) },
            ),
            _ => (self, StepView::Failed { error: Failure::ForwardFailure }),
        }
    }

    /// The poll turns to the topic at position `at`, or is answered where no
    /// topic is left.
    pub open spec fn next_poll(
        self,
        origin: Envelope<()>,
        wanted: Seq<(Seq<char>, usize)>,
        at: usize,
        found: Seq<(Seq<char>, Seq<(usize, usize)>)>,
    ) -> StepView<TaskView, KafkaRecord> {
        if at < wanted.len() {
            self.ask_linear(
                TaskView {
                    origin,
                    job: JobView::Poll { wanted, at, scan: PollPhase::HighWater, found },
                },
                read_record(StorageKey::offset_key(wanted[at as int].0)),
            )
        } else {
            StepView::Reply { message: answer_to(origin, KafkaRecord::PollOk { msgs: found }) }
        }
    }

    /// The poll looks at `offset` of the topic at position `at`: an entry
    /// that the node remembers is taken, any other is asked for.
    pub open spec fn scan(
        self,
        origin: Envelope<()>,
        wanted: Seq<(Seq<char>, usize)>,
        at: usize,
        found: Seq<(Seq<char>, Seq<(usize, usize)>)>,
        offset: usize,
        limit: usize,
    ) -> StepView<TaskView, KafkaRecord> {
        let topic = wanted[at as int].0;
        if at >= wanted.len() {
            self.next_poll(origin, wanted, at, found)
        } else if self.cache.contains_key((topic, offset)) {
            self.next_poll(
                origin,
                wanted,
                (at + 1) as usize,
                found.push((topic, seq![(offset, self.cache[(topic, offset)])])),
            )
        } else {
            self.ask_linear(
                TaskView {
                    origin,
                    job: JobView::Poll {
                        wanted,
                        at,
                        scan: PollPhase::Scanning { offset, limit },
                        found,
                    },
                },
                read_record(StorageKey::log_key(topic, offset as nat)),
            )
        }
    }

    /// A poll goes on.
    ///
    /// For each topic the next free offset is read. A topic that has none, or
    /// none above the offset asked for, is left out of the answer. Otherwise
    /// the node looks at the offsets from the one asked for upwards and
    /// answers with the first entry that exists; where none exists below the
    /// next free offset, the topic is left out.
    pub open spec fn poll_resumed(
        self,
        origin: Envelope<()>,
        wanted: Seq<(Seq<char>, usize)>,
        at: usize,
        phase: PollPhase,
        found: Seq<(Seq<char>, Seq<(usize, usize)>)>,
        reply: ReplyView<KafkaRecord>,
    ) -> (KafkaState, StepView<TaskView, KafkaRecord>) {
        if at >= wanted.len() {
            (self, self.next_poll(origin, wanted, at, found))
        } else {
            let topic = wanted[at as int].0;
            let requested = wanted[at as int].1;
            let onward = (at + 1) as usize;
            let answer = answer_of(reply);
            match phase {
                PollPhase::HighWater => match answer {
                    Answer::Value(limit) => if requested < limit {
                        (self, self.scan(origin, wanted, at, found, requested, limit))
                    } else {
                        (self, self.next_poll(origin, wanted, onward, found))
                    },
                    Answer::Lost => (self, StepView::Failed { error: Failure::NoReply }),
                    _ => (self, self.next_poll(origin, wanted, onward, found)),
                },
                PollPhase::Scanning { offset, limit } => match answer {
                    Answer::Value(entry) => (
                        self.remembering(topic, offset, entry),
                        self.next_poll(
                            origin,
                            wanted,
                            onward,
                            found.push((topic, seq![(offset, entry)])),
                        ),
                    ),
                    Answer::Refused => if offset < usize::MAX && offset + 1 < limit {
                        (self, self.scan(origin, wanted, at, found, (offset + 1) as usize, limit))
                    } else {
                        (self, self.next_poll(origin, wanted, onward, found))
                    },
                    _ => (self, StepView::Failed { error: failure_of(reply) }),
                },
            }
        }
    }

    /// The commit turns to the topic at position `at`, or is confirmed where
    /// no topic is left.
    pub open spec fn next_commit(
        self,
        origin: Envelope<()>,
        wanted: Seq<(Seq<char>, usize)>,
        at: usize,
    ) -> StepView<TaskView, KafkaRecord> {
        if at < wanted.len() {
            self.ask_sequential(
                TaskView {
                    origin,
                    job: JobView::Commit {
                        wanted,
                        at,
                        stage: CommitPhase::Current(FetchPhase::Reading),
                    },
                },
                read_record(StorageKey::commit_key(wanted[at as int].0)),
            )
        } else {
            StepView::Reply { message: answer_to(origin, KafkaRecord::CommitOffsetsOk) }
        }
    }

    /// A commit goes on.
    ///
    /// Each topic's stored commit is raised as [`commit_next`] says.
    pub open spec fn commit_resumed(
        self,
        origin: Envelope<()>,
        wanted: Seq<(Seq<char>, usize)>,
        at: usize,
        phase: CommitPhase,
        reply: ReplyView<KafkaRecord>,
    ) -> (KafkaState, StepView<TaskView, KafkaRecord>) {
        if at >= wanted.len() {
            (self, self.next_commit(origin, wanted, at))
        } else {
            match commit_next(wanted[at as int].1, phase, answer_of(reply)) {
                Raise::Ask { stage, want } => (
                    self,
                    self.ask_sequential(
                        TaskView { origin, job: JobView::Commit { wanted, at, stage } },
                        record_of(want, StorageKey::commit_key(wanted[at as int].0)),
                    ),
                ),
                Raise::Settled => (self, self.next_commit(origin, wanted, (at + 1) as usize)),
                Raise::Again => (self, self.next_commit(origin, wanted, at)),
                Raise::Fail => (self, StepView::Failed { error: failure_of(reply) }),
            }
        }
    }

    /// The listing turns to the topic at position `at`, or is answered where
    /// no topic is left.
    pub open spec fn next_list(
        self,
        origin: Envelope<()>,
        keys: Seq<Seq<char>>,
        at: usize,
        found: Seq<(Seq<char>, usize)>,
    ) -> StepView<TaskView, KafkaRecord> {
        if at < keys.len() {
            self.ask_sequential(
                TaskView {
                    origin,
                    job: JobView::List { keys, at, fetch: FetchPhase::Reading, commits: found },
                },
                read_record(StorageKey::commit_key(keys[at as int])),
            )
        } else {
            StepView::Reply {
                message: answer_to(origin, KafkaRecord::ListCommittedOffsetsOk { offsets: found }),
            }
        }
    }

    /// A listing goes on: each topic's stored commit is read, or created as
    /// zero, and reported.
    pub open spec fn list_resumed(
        self,
        origin: Envelope<()>,
        keys: Seq<Seq<char>>,
        at: usize,
        phase: FetchPhase,
        found: Seq<(Seq<char>, usize)>,
        reply: ReplyView<KafkaRecord>,
    ) -> (KafkaState, StepView<TaskView, KafkaRecord>) {
        if at >= keys.len() {
            (self, self.next_list(origin, keys, at, found))
        } else {
            let topic = keys[at as int];
            match fetch_next(phase, answer_of(reply)) {
                Fetched::Have(commit) => (
                    self,
                    self.next_list(origin, keys, (at + 1) as usize, found.push((topic, commit))),
                ),
                Fetched::Create => (
                    self,
                    self.ask_sequential(
                        TaskView {
                            origin,
                            job: JobView::List {
                                keys,
                                at,
                                fetch: FetchPhase::Creating,
                                commits: found,
                            },
                        },
                        cas_record(
                            StorageKey::commit_key(topic),
                            Stored::Uint(0),
                            Stored::Uint(0),
                        ),
                    ),
                ),
                Fetched::Fail => (self, StepView::Failed { error: failure_of(reply) }),
            }
        }
    }

    /// What the node does when `event` arrives.
    ///
    /// A `Send` is appended here where this node leads the topic and handed
    /// to the leader where it does not. `Poll`, `CommitOffsets` and
    /// `ListCommittedOffsets` start their work at the first topic. Everything
    /// else is ignored.
    pub open spec fn stepped(self, event: EventView<KafkaRecord, ()>) -> (
        KafkaState,
        StepView<TaskView, KafkaRecord>,
    ) {
        match event {
            EventView::Message(message) => {
                let origin = origin_of(message);
                match message.payload {
                    KafkaRecord::Send { key, msg } => if self.leads(key) {
                        self.begin_append(origin, key, msg)
                    } else {
                        self.begin_forward(origin, key, msg)
                    },
                    KafkaRecord::Poll { offsets } => (
                        self,
                        self.next_poll(origin, offsets, 0, Seq::empty()),
                    ),
                    KafkaRecord::CommitOffsets { offsets } => (
                        self,
                        self.next_commit(origin, offsets, 0),
                    ),
                    KafkaRecord::ListCommittedOffsets { keys } => (
                        self,
                        self.next_list(origin, keys, 0, Seq::empty()),
                    ),
                    _ => (self, StepView::Idle),
                }
            },
            _ => (self, StepView::Idle),
        }
    }

    /// What the node does when `reply` arrives for `task`.
    pub open spec fn resumed(self, task: TaskView, reply: ReplyView<KafkaRecord>) -> (
        KafkaState,
        StepView<TaskView, KafkaRecord>,
    ) {
        match task.job {
            JobView::Append { topic, entry, phase } => self.append_resumed(
                task.origin,
                topic,
                entry,
                phase,
                reply,
            ),
            JobView::Forward { topic, entry } => self.forward_resumed(
                task.origin,
                topic,
                entry,
                reply,
            ),
            JobView::Poll { wanted, at, scan, found } => self.poll_resumed(
                task.origin,
                wanted,
                at,
                scan,
                found,
                reply,
            ),
            JobView::Commit { wanted, at, stage } => self.commit_resumed(
                task.origin,
                wanted,
                at,
                stage,
                reply,
            ),
            JobView::List { keys, at, fetch, commits } => self.list_resumed(
                task.origin,
                keys,
                at,
                fetch,
                commits,
                reply,
            ),
        }
    }
}

} // verus!
