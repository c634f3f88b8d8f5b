//! The commit-log node.

use crate::error::NodeError;
use crate::kafka::cache::EntryCache;
use crate::kafka::keys::{class_of, leader_of, topic_class, StorageKey};
use crate::kafka::model::{
    alloc_next, bump, commit_next, Alloc, AppendPhase, CommitPhase, JobView, KafkaState,
    PollPhase, Raise, TaskView,
};
use crate::kafka::payload::KafkaPayload;
use crate::network::Event;
use crate::protocol::{Body, Init, Message};
use crate::service::{
    cas_record, read_record, request_envelope, write_record, Entry, LinearStore,
    SequentialStore, StoragePayload, StorageType, Stored, LINEAR_STORE_ADDRESS,
    SEQUENTIAL_STORE_ADDRESS,
};
use crate::task::{
    answer_of, fetch, fetch_next, record_of, Answer, FetchPhase, Fetched, Reply, Step, Want,
};
use crate::text::{first_at, listed, position, push_deep};
use vstd::pervasive::unreached;
use vstd::prelude::*;
use vstd::string::*;

verus! {

/// What a task is about, and how far it has come.
#[derive(Debug)]
pub enum KafkaJob {
    /// An append at the node that leads the topic.
    Append { topic: String, entry: usize, phase: AppendPhase },
    /// An append that was handed to the leader of the topic.
    Forward { topic: String, entry: usize },
    /// A poll, at the topic at position `at`.
    Poll {
        wanted: Vec<(String, usize)>,
        at: usize,
        scan: PollPhase,
        found: Vec<(String, Vec<(usize, usize)>)>,
    },
    /// A commit, at the topic at position `at`.
    Commit { wanted: Vec<(String, usize)>, at: usize, stage: CommitPhase },
    /// A listing of commits, at the topic at position `at`.
    List { keys: Vec<String>, at: usize, fetch: FetchPhase, commits: Vec<(String, usize)> },
}

impl View for KafkaJob {
    type V = JobView;

    open spec fn view(&self) -> JobView {
        match *self {
            KafkaJob::Append { topic, entry, phase } => JobView::Append {
                topic: topic@,
                entry,
                phase,
            },
            KafkaJob::Forward { topic, entry } => JobView::Forward { topic: topic@, entry },
            KafkaJob::Poll { wanted, at, scan, found } => JobView::Poll {
                wanted: wanted.deep_view(),
                at,
                scan,
                found: found.deep_view(),
            },
            KafkaJob::Commit { wanted, at, stage } => JobView::Commit {
                wanted: wanted.deep_view(),
                at,
                stage,
            },
            KafkaJob::List { keys, at, fetch, commits } => JobView::List {
                keys: keys.deep_view(),
                at,
                fetch,
                commits: commits.deep_view(),
            },
        }
    }
}

/// The work for one client request that is under way.
#[derive(Debug)]
pub struct KafkaTask {
    origin: Message<()>,
    job: KafkaJob,
}

impl View for KafkaTask {
    type V = TaskView;

    closed spec fn view(&self) -> TaskView {
        TaskView { origin: self.origin@, job: self.job@ }
    }
}

/// One more, as far as the machine can count.
fn bumped(n: usize) -> (more: usize)
    ensures
        more == bump(n),
{
    if n < usize::MAX {
        n + 1
    } else {
        n
    }
}

/// A list that holds the one pair of `offset` and `entry`.
fn single(offset: usize, entry: usize) -> (pairs: Vec<(usize, usize)>)
    ensures
        pairs.deep_view() == seq![(offset, entry)],
{
    let mut pairs: Vec<(usize, usize)> = Vec::new();
    pairs.push((offset, entry));
    assert(pairs.deep_view() =~= seq![(offset, entry)]);
    pairs
}

/// A node of the commit log.
#[derive(Debug)]
pub struct KafkaNode {
    node_id: String,
    class_leader: usize,
    n_classes: usize,
    entries: EntryCache,
    cas_failures: usize,
    total_offset_writes: usize,
}

impl View for KafkaNode {
    type V = KafkaState;

    closed spec fn view(&self) -> KafkaState {
        KafkaState {
            node_id: self.node_id@,
            class_leader: self.class_leader,
            n_classes: self.n_classes,
            cache: self.entries@,
            cas_failures: self.cas_failures,
            total_offset_writes: self.total_offset_writes,
        }
    }
}

/// The entries of `log` from `requested_offset` on, at most three of them,
/// each with its offset.
pub open spec fn selected(log: Seq<usize>, requested_offset: usize) -> Option<Seq<(usize, usize)>> {
    if log.len() <= requested_offset {
        None
    } else {
        Some(
            Seq::new(
                if log.len() - requested_offset < 3 {
                    (log.len() - requested_offset) as nat
                } else {
                    3
                },
                |i: int| ((requested_offset + i) as usize, log[requested_offset + i]),
            ),
        )
    }
}

impl KafkaNode {
    /// Reads on in a log that is held as a whole: the entries from
    /// `requested_offset` on, at most three of them, each with its offset;
    /// nothing where the log ends before that offset.
    pub fn select_entries(log: &Vec<usize>, requested_offset: usize) -> (entries: Option<
        Vec<(usize, usize)>,
    >)
        ensures
            entries.deep_view() == selected(log@, requested_offset),
    {
        if log.len() <= requested_offset {
            return None;
        }
        let left = log.len() - requested_offset;
        let n_logs: usize = if left < 3 {
            left
        } else {
            3
        };
        let mut entries: Vec<(usize, usize)> = Vec::new();
        let mut i: usize = 0;
        while i < n_logs
            invariant
                i <= n_logs,
                n_logs <= log.len() - requested_offset,
                entries.len() == i,
                forall|j: int|
                    0 <= j < i ==> entries[j] == ((requested_offset + j) as usize, log[
                        requested_offset + j],
                    ),
            decreases n_logs - i,
        {
            entries.push((requested_offset + i, log[requested_offset + i]));
            i += 1;
        }
        assert(entries.deep_view() =~= selected(log@, requested_offset)->0);
        Some(entries)
    }

    /// A node named `node_id` that leads the class `class_leader` among
    /// `n_classes` classes, and knows no entries yet.
    pub fn new(node_id: String, class_leader: usize, n_classes: usize) -> (node: Self)
        ensures
            node@ == (KafkaState {
                node_id: node_id@,
                class_leader,
                n_classes,
                cache: Map::empty(),
                cas_failures: 0,
                total_offset_writes: 0,
            }),
    {
        KafkaNode {
            node_id,
            class_leader,
            n_classes,
            entries: EntryCache::new(),
            cas_failures: 0,
            total_offset_writes: 0,
        }
    }

    /// The node that the handshake describes: there are as many classes as
    /// nodes, and the node leads the class of its own position among them.
    pub fn from_init(init: Init) -> (node: Self)
        requires
            listed(init.node_ids@, init.node_id@),
        ensures
            first_at(init.node_ids@, init.node_id@, node@.class_leader as int),
            node@ == (KafkaState {
                node_id: init.node_id@,
                class_leader: node@.class_leader,
                n_classes: init.node_ids.len(),
                cache: Map::empty(),
                cas_failures: 0,
                total_offset_writes: 0,
            }),
    {
        let found = position(&init.node_ids, init.node_id.as_str());
        let n_classes = init.node_ids.len();
        match found {
            Some(class_leader) => Self::new(init.node_id, class_leader, n_classes),
            None => unreached(),
        }
    }

    /// How many swaps for an offset the service has refused this node.
    pub fn cas_failures(&self) -> (n: usize)
        ensures
            n == self@.cas_failures,
    {
        self.cas_failures
    }

    /// How many offsets this node has set out to take.
    pub fn total_offset_writes(&self) -> (n: usize)
        ensures
            n == self@.total_offset_writes,
    {
        self.total_offset_writes
    }

    /// The entry that this node remembers for `topic` at `offset`.
    pub fn cached(&self, topic: &str, offset: usize) -> (entry: Option<usize>)
        ensures
            entry == if self@.cache.contains_key((topic@, offset)) {
                Some(self@.cache[(topic@, offset)])
            } else {
                None
            },
    {
        self.entries.get(topic, offset)
    }

    /// An envelope from this node to `dst` around `payload`.
    pub fn message<P>(&self, dst: String, payload: P) -> (message: Message<P>)
        ensures
            message.src@ == self@.node_id,
            message.dst == dst,
            message.body.id == None::<usize>,
            message.body.in_reply_to == None::<usize>,
            message.body.payload == payload,
    {
        Message {
            src: self.node_id.clone(),
            dst,
            body: Body { id: None, in_reply_to: None, payload },
        }
    }

    /// The class of `topic`.
    pub fn get_class(&self, topic: &str) -> (class: usize)
        ensures
            class == topic_class(topic@, self@.n_classes as nat),
    {
        class_of(topic, self.n_classes)
    }

    /// Whether this node leads `topic`.
    pub fn is_in_class(&self, topic: &str) -> (mine: bool)
        ensures
            mine == self@.leads(topic@),
    {
        let class = self.get_class(topic);
        class == self.class_leader
    }

    /// The request for the value under `key` at the service `dst`.
    pub fn read(&self, key: String, dst: String) -> (request: Message<StoragePayload>)
        ensures
            request@ == request_envelope(self@.node_id, dst@, read_record(key@)),
    {
        self.message(dst, StoragePayload::Read { key })
    }

    /// The request to the service `dst` that replaces `from` by `to` under
    /// `key` and creates the key where it is missing. Without a `from`, the
    /// value is only to be created: `to` is to replace itself.
    pub fn write(&self, key: String, from: Option<Entry>, to: Entry, dst: String) -> (request:
        Message<StoragePayload>)
        ensures
            request@ == request_envelope(
                self@.node_id,
                dst@,
                cas_record(
                    key@,
                    Stored::Uint(
                        match from {
                            Some(from) => from,
                            None => to,
                        },
                    ),
                    Stored::Uint(to),
                ),
            ),
    {
        let from = match from {
            Some(from) => from,
            None => to,
        };
        self.message(
            dst,
            StoragePayload::Cas {
                key,
                from: StorageType::Uint(from),
                to: StorageType::Uint(to),
                create_if_not_exists: Some(true),
            },
        )
    }

    /// Says what a reply means to a read-or-create: a value that is read is
    /// taken; a key that is missing is to be created with zero; once the
    /// creation was attempted, zero is the value to go on with.
    pub fn read_or_create(phase: FetchPhase, reply: &Reply<KafkaPayload>) -> (fetched: Fetched)
        ensures
            fetched == fetch_next(phase, answer_of(reply@)),
    {
        fetch(phase, reply.answer())
    }

    /// The request that asks `want` of `key` at the service `dst`.
    fn ask(&self, want: Want, key: String, dst: String) -> (request: Message<StoragePayload>)
        ensures
            request@ == request_envelope(self@.node_id, dst@, record_of(want, key@)),
    {
        match want {
            Want::Read => self.read(key, dst),
            Want::Cas { from, to } => self.write(key, Some(from), to, dst),
        }
    }

    /// The request for the next free offset of `topic`.
    pub fn read_offset(&self, topic: &str) -> (request: Message<StoragePayload>)
        ensures
            request@ == request_envelope(
                self@.node_id,
                LINEAR_STORE_ADDRESS@,
                read_record(StorageKey::offset_key(topic@)),
            ),
    {
        self.read(StorageKey::offset(topic), LinearStore::address())
    }

    /// The request for the stored commit of `topic`.
    pub fn read_commit(&self, topic: &str) -> (request: Message<StoragePayload>)
        ensures
            request@ == request_envelope(
                self@.node_id,
                SEQUENTIAL_STORE_ADDRESS@,
                read_record(StorageKey::commit_key(topic@)),
            ),
    {
        self.read(StorageKey::commit(topic), SequentialStore::address())
    }

    /// The request that raises the stored commit of `topic` from `from` to
    /// `to`.
    pub fn write_commit(&self, topic: &str, from: usize, to: usize) -> (request: Message<
        StoragePayload,
    >)
        ensures
            request@ == request_envelope(
                self@.node_id,
                SEQUENTIAL_STORE_ADDRESS@,
                cas_record(StorageKey::commit_key(topic@), Stored::Uint(from), Stored::Uint(to)),
            ),
    {
        self.write(StorageKey::commit(topic), Some(from), to, SequentialStore::address())
    }

    /// The request for the entry of `topic` at `offset`.
    pub fn read_entry(&self, topic: &str, offset: usize) -> (request: Message<StoragePayload>)
        ensures
            request@ == request_envelope(
                self@.node_id,
                LINEAR_STORE_ADDRESS@,
                read_record(StorageKey::log_key(topic@, offset as nat)),
            ),
    {
        self.read(StorageKey::log(topic, offset), LinearStore::address())
    }

    /// The request that writes `entry` as the entry of `topic` at `offset`.
    pub fn write_log(&self, topic: &str, offset: usize, entry: usize) -> (request: Message<
        StoragePayload,
    >)
        ensures
            request@ == request_envelope(
                self@.node_id,
                LINEAR_STORE_ADDRESS@,
                write_record(StorageKey::log_key(topic@, offset as nat), Stored::Uint(entry)),
            ),
    {
        self.message(
            LinearStore::address(),
            StoragePayload::Write {
                key: StorageKey::log(topic, offset),
                value: StorageType::Uint(entry),
            },
        )
    }

    fn read_next_offset(&self, origin: Message<()>, topic: String, entry: usize) -> (step: Step<
        KafkaTask,
        KafkaPayload,
    >)
        ensures
            step@ == self@.read_next_offset(origin@, topic@, entry),
    {
        let request = self.read_offset(topic.as_str());
        Step::AskStore {
            task: KafkaTask {
                origin,
                job: KafkaJob::Append {
                    topic,
                    entry,
                    phase: AppendPhase::Offset(FetchPhase::Reading),
                },
            },
            request,
        }
    }

    /// Says how the taking of an offset goes on after `reply`, and counts the
    /// swap if it was refused.
    pub fn get_next_offset(&mut self, phase: AppendPhase, reply: &Reply<KafkaPayload>) -> (next:
        Alloc)
        ensures
            next == alloc_next(phase, answer_of(reply@)),
            final(self)@ == if next is Again {
                old(self)@.refused()
            } else {
                old(self)@
            },
    {
        let answer = reply.answer();
        match phase {
            AppendPhase::Offset(fetching) => match Self::read_or_create(fetching, reply) {
                Fetched::Have(current) => {
                    if current < usize::MAX {
                        Alloc::Ask {
                            phase: AppendPhase::Swapping { current },
                            want: Want::Cas { from: current, to: current + 1 },
                        }
                    } else {
                        Alloc::Overflow
                    }
                },
                Fetched::Create => Alloc::Ask {
                    phase: AppendPhase::Offset(FetchPhase::Creating),
                    want: Want::Cas { from: 0, to: 0 },
                },
                Fetched::Fail => Alloc::Fail,
            },
            AppendPhase::Swapping { current } => match answer {
                Answer::Swapped => Alloc::Taken { offset: current },
                Answer::Lost => Alloc::Fail,
                _ => {
                    self.cas_failures = bumped(self.cas_failures);
                    Alloc::Again
                },
            },
            AppendPhase::Writing { offset } => Alloc::Taken { offset },
        }
    }

    /// Goes on with an append: takes an offset, writes the entry under it,
    /// and answers the client once the write is confirmed.
    pub fn append_entry(
        &mut self,
        origin: Message<()>,
        topic: String,
        entry: usize,
        phase: AppendPhase,
        reply: Reply<KafkaPayload>,
    ) -> (step: Step<KafkaTask, KafkaPayload>)
        ensures
            (final(self)@, step@) == old(self)@.append_resumed(
                origin@,
                topic@,
                entry,
                phase,
                reply@,
            ),
    {
        match phase {
            AppendPhase::Writing { offset } => match reply.answer() {
                Answer::Written => {
                    self.entries.insert(topic.as_str(), offset, entry);
                    Step::Reply { message: origin.carrying(KafkaPayload::SendOk { offset }) }
                },
                _ => Step::Failed { error: reply.into_error() },
            },
            _ => match self.get_next_offset(phase, &reply) {
                Alloc::Ask { phase: next, want } => {
                    let request = self.ask(
                        want,
                        StorageKey::offset(topic.as_str()),
                        LinearStore::address(),
                    );
                    Step::AskStore {
                        task: KafkaTask {
                            origin,
                            job: KafkaJob::Append { topic, entry, phase: next },
                        },
                        request,
                    }
                },
                Alloc::Taken { offset } => {
                    let request = self.write_log(topic.as_str(), offset, entry);
                    Step::AskStore {
                        task: KafkaTask {
                            origin,
                            job: KafkaJob::Append {
                                topic,
                                entry,
                                phase: AppendPhase::Writing { offset },
                            },
                        },
                        request,
                    }
                },
                Alloc::Again => self.read_next_offset(origin, topic, entry),
                Alloc::Overflow => Step::Failed { error: NodeError::Overflow },
                Alloc::Fail => Step::Failed { error: reply.into_error() },
            },
        }
    }

    /// Hands an append to the node that leads the topic.
    pub fn send_to_class_leader(&self, origin: Message<()>, topic: String, entry: usize) -> (step:
        Step<KafkaTask, KafkaPayload>)
        ensures
            (self@, step@) == self@.begin_forward(origin@, topic@, entry),
    {
        let class = self.get_class(topic.as_str());
        let forward = self.message(
            leader_of(class),
            KafkaPayload::Send { key: topic.clone(), msg: entry },
        );
        Step::AskPeer {
            task: KafkaTask { origin, job: KafkaJob::Forward { topic, entry } },
            forward,
        }
    }

    /// Takes the leader's answer to a forwarded append.
    fn forwarded(
        &mut self,
        origin: Message<()>,
        topic: String,
        entry: usize,
        reply: Reply<KafkaPayload>,
    ) -> (step: Step<KafkaTask, KafkaPayload>)
        ensures
            (final(self)@, step@) == old(self)@.forward_resumed(origin@, topic@, entry, reply@),
    {
        match reply {
            Reply::Peer(KafkaPayload::SendOk { offset }) => {
                self.entries.insert(topic.as_str(), offset, entry);
                Step::Reply { message: origin.carrying(KafkaPayload::SendOk { offset }) }
            },
            _ => Step::Failed { error: NodeError::ForwardFailure },
        }
    }

    fn next_poll(
        &self,
        origin: Message<()>,
        wanted: Vec<(String, usize)>,
        at: usize,
        found: Vec<(String, Vec<(usize, usize)>)>,
    ) -> (step: Step<KafkaTask, KafkaPayload>)
        ensures
            step@ == self@.next_poll(origin@, wanted.deep_view(), at, found.deep_view()),
    {
        if at < wanted.len() {
            let request = self.read_offset(wanted[at].0.as_str());
            Step::AskStore {
                task: KafkaTask {
                    origin,
                    job: KafkaJob::Poll { wanted, at, scan: PollPhase::HighWater, found },
                },
                request,
            }
        } else {
            Step::Reply { message: origin.carrying(KafkaPayload::PollOk { msgs: found }) }
        }
    }

    /// Looks at `offset` of the topic at position `at`: an entry that the node
    /// remembers is taken, any other is asked for.
    pub fn read_log(
        &self,
        origin: Message<()>,
        wanted: Vec<(String, usize)>,
        at: usize,
        found: Vec<(String, Vec<(usize, usize)>)>,
        offset: usize,
        limit: usize,
    ) -> (step: Step<KafkaTask, KafkaPayload>)
        ensures
            step@ == self@.scan(origin@, wanted.deep_view(), at, found.deep_view(), offset, limit),
    {
        if at >= wanted.len() {
            return self.next_poll(origin, wanted, at, found);
        }
        match self.entries.get(wanted[at].0.as_str(), offset) {
            Some(entry) => {
                let mut found = found;
                push_deep(&mut found, (wanted[at].0.clone(), single(offset, entry)));
                self.next_poll(origin, wanted, at + 1, found)
            },
            None => {
                let request = self.read_entry(wanted[at].0.as_str(), offset);
                Step::AskStore {
                    task: KafkaTask {
                        origin,
                        job: KafkaJob::Poll {
                            wanted,
                            at,
                            scan: PollPhase::Scanning { offset, limit },
                            found,
                        },
                    },
                    request,
                }
            },
        }
    }

    /// Goes on with a poll.
    fn polled(
        &mut self,
        origin: Message<()>,
        wanted: Vec<(String, usize)>,
        at: usize,
        phase: PollPhase,
        found: Vec<(String, Vec<(usize, usize)>)>,
        reply: Reply<KafkaPayload>,
    ) -> (step: Step<KafkaTask, KafkaPayload>)
        ensures
            (final(self)@, step@) == old(self)@.poll_resumed(
                origin@,
                wanted.deep_view(),
                at,
                phase,
                found.deep_view(),
                reply@,
            ),
    {
        if at >= wanted.len() {
            return self.next_poll(origin, wanted, at, found);
        }
        let requested = wanted[at].1;
        let answer = reply.answer();
        match phase {
            PollPhase::HighWater => match answer {
                Answer::Value(limit) => {
                    if requested < limit {
                        self.read_log(origin, wanted, at, found, requested, limit)
                    } else {
                        self.next_poll(origin, wanted, at + 1, found)
                    }
                },
                Answer::Lost => Step::Failed { error: NodeError::NoReply },
                _ => self.next_poll(origin, wanted, at + 1, found),
            },
            PollPhase::Scanning { offset, limit } => match answer {
                Answer::Value(entry) => {
                    self.entries.insert(wanted[at].0.as_str(), offset, entry);
                    let mut found = found;
                    push_deep(&mut found, (wanted[at].0.clone(), single(offset, entry)));
                    self.next_poll(origin, wanted, at + 1, found)
                },
                Answer::Refused => {
                    if offset < usize::MAX && offset + 1 < limit {
                        self.read_log(origin, wanted, at, found, offset + 1, limit)
                    } else {
                        self.next_poll(origin, wanted, at + 1, found)
                    }
                },
                _ => Step::Failed { error: reply.into_error() },
            },
        }
    }

    fn next_commit(&self, origin: Message<()>, wanted: Vec<(String, usize)>, at: usize) -> (step:
        Step<KafkaTask, KafkaPayload>)
        ensures
            step@ == self@.next_commit(origin@, wanted.deep_view(), at),
    {
        if at < wanted.len() {
            let request = self.read_commit(wanted[at].0.as_str());
            Step::AskStore {
                task: KafkaTask {
                    origin,
                    job: KafkaJob::Commit {
                        wanted,
                        at,
                        stage: CommitPhase::Current(FetchPhase::Reading),
                    },
                },
                request,
            }
        } else {
            Step::Reply { message: origin.carrying(KafkaPayload::CommitOffsetsOk) }
        }
    }

    /// Says how the raising of a stored commit to `proposed` goes on after
    /// `reply`.
    pub fn raise_commit(proposed: usize, stage: CommitPhase, reply: &Reply<KafkaPayload>) -> (next:
        Raise)
        ensures
            next == commit_next(proposed, stage, answer_of(reply@)),
    {
        let answer = reply.answer();
        match stage {
            CommitPhase::Current(fetching) => match Self::read_or_create(fetching, reply) {
                Fetched::Have(current) => {
                    if current < proposed {
                        Raise::Ask {
                            stage: CommitPhase::Raising { from: current },
                            want: Want::Cas { from: current, to: proposed },
                        }
                    } else {
                        Raise::Settled
                    }
                },
                Fetched::Create => Raise::Ask {
                    stage: CommitPhase::Current(FetchPhase::Creating),
                    want: Want::Cas { from: 0, to: 0 },
                },
                Fetched::Fail => Raise::Fail,
            },
            CommitPhase::Raising { .. } => match answer {
                Answer::Swapped => Raise::Settled,
                Answer::Lost => Raise::Fail,
                _ => Raise::Again,
            },
        }
    }

    /// Goes on with a commit.
    fn committed(
        &self,
        origin: Message<()>,
        wanted: Vec<(String, usize)>,
        at: usize,
        stage: CommitPhase,
        reply: Reply<KafkaPayload>,
    ) -> (step: Step<KafkaTask, KafkaPayload>)
        ensures
            (self@, step@) == self@.commit_resumed(
                origin@,
                wanted.deep_view(),
                at,
                stage,
                reply@,
            ),
    {
        if at >= wanted.len() {
            return self.next_commit(origin, wanted, at);
        }
        match Self::raise_commit(wanted[at].1, stage, &reply) {
            Raise::Ask { stage: next, want } => {
                let request = self.ask(
                    want,
                    StorageKey::commit(wanted[at].0.as_str()),
                    SequentialStore::address(),
                );
                Step::AskStore {
                    task: KafkaTask { origin, job: KafkaJob::Commit { wanted, at, stage: next } },
                    request,
                }
            },
            Raise::Settled => self.next_commit(origin, wanted, at + 1),
            Raise::Again => self.next_commit(origin, wanted, at),
            Raise::Fail => Step::Failed { error: reply.into_error() },
        }
    }

    fn next_list(
        &self,
        origin: Message<()>,
        keys: Vec<String>,
        at: usize,
        found: Vec<(String, usize)>,
    ) -> (step: Step<KafkaTask, KafkaPayload>)
        ensures
            step@ == self@.next_list(origin@, keys.deep_view(), at, found.deep_view()),
    {
        if at < keys.len() {
            let request = self.read_commit(keys[at].as_str());
            Step::AskStore {
                task: KafkaTask {
                    origin,
                    job: KafkaJob::List { keys, at, fetch: FetchPhase::Reading, commits: found },
                },
                request,
            }
        } else {
            Step::Reply {
                message: origin.carrying(KafkaPayload::ListCommittedOffsetsOk { offsets: found }),
            }
        }
    }

    /// Goes on with a listing of commits.
    fn listed(
        &self,
        origin: Message<()>,
        keys: Vec<String>,
        at: usize,
        phase: FetchPhase,
        found: Vec<(String, usize)>,
        reply: Reply<KafkaPayload>,
    ) -> (step: Step<KafkaTask, KafkaPayload>)
        ensures
            (self@, step@) == self@.list_resumed(
                origin@,
                keys.deep_view(),
                at,
                phase,
                found.deep_view(),
                reply@,
            ),
    {
        if at >= keys.len() {
            return self.next_list(origin, keys, at, found);
        }
        match Self::read_or_create(phase, &reply) {
            Fetched::Have(commit) => {
                let mut found = found;
                push_deep(&mut found, (keys[at].clone(), commit));
                self.next_list(origin, keys, at + 1, found)
            },
            Fetched::Create => {
                let request = self.write(
                    StorageKey::commit(keys[at].as_str()),
                    None,
                    0,
                    SequentialStore::address(),
                );
                Step::AskStore {
                    task: KafkaTask {
                        origin,
                        job: KafkaJob::List {
                            keys,
                            at,
                            fetch: FetchPhase::Creating,
                            commits: found,
                        },
                    },
                    request,
                }
            },
            Fetched::Fail => Step::Failed { error: reply.into_error() },
        }
    }

    /// Takes an event and says what is to be done for it.
    pub fn step(&mut self, event: Event<KafkaPayload, ()>) -> (step: Step<KafkaTask, KafkaPayload>)
        ensures
            (final(self)@, step@) == old(self)@.stepped(event@),
    {
        match event {
            Event::Message(message) => {
                let (origin, payload) = message.open_reply();
                match payload {
                    KafkaPayload::Send { key, msg } => {
                        if self.is_in_class(key.as_str()) {
                            let step = self.read_next_offset(origin, key, msg);
                            self.total_offset_writes = bumped(self.total_offset_writes);
                            step
                        } else {
                            self.send_to_class_leader(origin, key, msg)
                        }
                    },
                    KafkaPayload::Poll { offsets } => {
                        let found: Vec<(String, Vec<(usize, usize)>)> = Vec::new();
                        assert(found.deep_view() =~= Seq::empty());
                        self.next_poll(origin, offsets, 0, found)
                    },
                    KafkaPayload::CommitOffsets { offsets } => self.next_commit(origin, offsets, 0),
                    KafkaPayload::ListCommittedOffsets { keys } => {
                        let found: Vec<(String, usize)> = Vec::new();
                        assert(found.deep_view() =~= Seq::empty());
                        self.next_list(origin, keys, 0, found)
                    },
                    _ => Step::Idle,
                }
            },
            _ => Step::Idle,
        }
    }

    /// Takes the reply that `task` waited for and says what is to be done
    /// next.
    pub fn resume(&mut self, task: KafkaTask, reply: Reply<KafkaPayload>) -> (step: Step<
        KafkaTask,
        KafkaPayload,
    >)
        ensures
            (final(self)@, step@) == old(self)@.resumed(task@, reply@),
    {
        let KafkaTask { origin, job } = task;
        match job {
            KafkaJob::Append { topic, entry, phase } => self.append_entry(
                origin,
                topic,
                entry,
                phase,
                reply,
            ),
            KafkaJob::Forward { topic, entry } => self.forwarded(origin, topic, entry, reply),
            KafkaJob::Poll { wanted, at, scan, found } => self.polled(
                origin,
                wanted,
                at,
                scan,
                found,
                reply,
            ),
            KafkaJob::Commit { wanted, at, stage } => self.committed(
                origin,
                wanted,
                at,
                stage,
                reply,
            ),
            KafkaJob::List { keys, at, fetch, commits } => self.listed(
                origin,
                keys,
                at,
                fetch,
                commits,
                reply,
            ),
        }
    }
}

} // verus!
