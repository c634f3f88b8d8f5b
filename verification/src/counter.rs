//! The counter: a number that lives in the sequentially consistent service
//! and is advanced by compare-and-swap.
//!
//! The node holds no value of its own. To add, it reads the stored number,
//! asks to swap it for the sum, and starts over where the swap is refused.

use crate::error::{Failure, NodeError};
use crate::network::{Event, EventView};
use crate::protocol::{answer_to, origin_of, Envelope, Init, Message};
use crate::service::{
    read_record, request_envelope, write_record, SequentialStore, StoragePayload, StorageRecord,
    StorageType, Stored, SEQUENTIAL_STORE_ADDRESS,
};
use crate::task::{
    answer_of, failure_of, held, record_of, served, Answer, Reply, ReplyView, Step,
    StepView, Want,
};
use vstd::prelude::*;
use vstd::string::*;

verus! {

/// What clients ask of the counter and what it answers.
#[derive(Clone, Copy, Debug, PartialEq, Eq)]
pub enum CounterPayload {
    Add { delta: usize },
    AddOk,
    Read,
    ReadOk { value: usize },
}

impl View for CounterPayload {
    type V = CounterPayload;

    open spec fn view(&self) -> CounterPayload {
        *self
    }
}

/// The key under which the number is stored.
pub open spec fn counter_key() -> Seq<char> {
    "value"@
}

/// How far an addition has come.
#[derive(Clone, Copy, Debug, PartialEq, Eq)]
pub enum AddPhase {
    /// The stored number was asked for.
    Reading,
    /// It was `current`; the swap for `candidate` was asked for.
    Swapping { current: usize, candidate: usize },
}

/// What a reply means to an addition.
#[derive(Clone, Copy, Debug, PartialEq, Eq)]
pub enum Added {
    /// Ask `want` of the key and go on in `phase`.
    Ask { phase: AddPhase, want: Want },
    /// The sum is stored: the number is now `value`.
    Done { value: usize },
    /// The swap was refused: read the number again.
    Again,
    /// The sum does not fit the machine's numbers.
    Overflow,
    /// The reply stops the task.
    Fail,
}

/// How a node adds `delta` to the stored number.
///
/// The number is read and the swap for the sum asked for. A swap that is
/// applied ends the addition; one that is refused sends the node back to
/// reading; one that is not answered stops it, as does a read that finds
/// nothing.
pub open spec fn add_next(delta: usize, phase: AddPhase, answer: Answer) -> Added {
    match phase {
        AddPhase::Reading => match answer {
            Answer::Value(current) => if current + delta <= usize::MAX {
                Added::Ask {
                    phase: AddPhase::Swapping { current, candidate: (current + delta) as usize },
                    want: Want::Cas { from: current, to: (current + delta) as usize },
                }
            } else {
                Added::Overflow
            },
            _ => Added::Fail,
        },
        AddPhase::Swapping { candidate, .. } => match answer {
            Answer::Swapped => Added::Done { value: candidate },
            Answer::Lost => Added::Fail,
            _ => Added::Again,
        },
    }
}

/// What a task of the counter is about.
#[derive(Clone, Copy, Debug)]
pub enum CounterJob {
    Add { delta: usize, phase: AddPhase },
    Read,
}

/// The work for one client request that is under way.
#[derive(Debug)]
pub struct CounterTask {
    origin: Message<()>,
    job: CounterJob,
}

/// The mathematical content of a [`CounterTask`]: the header of the reply
/// that the client is owed, and the job.
pub ghost struct CounterTaskView {
    pub origin: Envelope<()>,
    pub job: CounterJob,
}

impl View for CounterTask {
    type V = CounterTaskView;

    closed spec fn view(&self) -> CounterTaskView {
        CounterTaskView { origin: self.origin@, job: self.job }
    }
}

/// The step that asks the service for `record` on behalf of `node`.
pub open spec fn ask(node: Seq<char>, task: CounterTaskView, record: StorageRecord) -> StepView<
    CounterTaskView,
    CounterPayload,
> {
    StepView::AskStore { task, request: request_envelope(node, SEQUENTIAL_STORE_ADDRESS@, record) }
}

/// What a counter node named `node` does when `event` arrives: an `Add` and
/// a `Read` both begin by reading the stored number; everything else is
/// ignored.
pub open spec fn stepped(node: Seq<char>, event: EventView<CounterPayload, ()>) -> StepView<
    CounterTaskView,
    CounterPayload,
> {
    match event {
        EventView::Message(message) => match message.payload {
            CounterPayload::Add { delta } => ask(
                node,
                CounterTaskView {
                    origin: origin_of(message),
                    job: CounterJob::Add { delta, phase: AddPhase::Reading },
                },
                read_record(counter_key()),
            ),
            CounterPayload::Read => ask(
                node,
                CounterTaskView { origin: origin_of(message), job: CounterJob::Read },
                read_record(counter_key()),
            ),
            _ => StepView::Idle,
        },
        _ => StepView::Idle,
    }
}

/// What a counter node named `node` does when `reply` arrives for `task`.
///
/// An addition goes on as [`add_next`] says and is confirmed with `AddOk`
/// once the sum is stored. A read passes the stored number on to the client.
pub open spec fn resumed(
    node: Seq<char>,
    task: CounterTaskView,
    reply: ReplyView<CounterPayload>,
) -> StepView<CounterTaskView, CounterPayload> {
    match task.job {
        CounterJob::Add { delta, phase } => match add_next(delta, phase, answer_of(reply)) {
            Added::Ask { phase: next, want } => ask(
                node,
                CounterTaskView {
                    origin: task.origin,
                    job: CounterJob::Add { delta, phase: next },
                },
                record_of(want, counter_key()),
            ),
            Added::Done { .. } => StepView::Reply {
                message: answer_to(task.origin, CounterPayload::AddOk),
            },
            Added::Again => ask(
                node,
                CounterTaskView {
                    origin: task.origin,
                    job: CounterJob::Add { delta, phase: AddPhase::Reading },
                },
                read_record(counter_key()),
            ),
            Added::Overflow => StepView::Failed { error: Failure::Overflow },
            Added::Fail => StepView::Failed { error: failure_of(reply) },
        },
        CounterJob::Read => match answer_of(reply) {
            Answer::Value(value) => StepView::Reply {
                message: answer_to(task.origin, CounterPayload::ReadOk { value }),
            },
            _ => StepView::Failed { error: failure_of(reply) },
        },
    }
}

/// A node of the counter.
#[derive(Debug)]
pub struct CounterNode {
    storage: SequentialStore,
}

impl CounterNode {
    /// The node's name.
    pub closed spec fn name(&self) -> Seq<char> {
        self.storage.owner()
    }

    /// The key under which the number is stored.
    pub fn storage_key() -> (key: String)
        ensures
            key@ == counter_key(),
    {
        String::from_str("value")
    }

    /// The node that the handshake describes, and the message with which it
    /// stores zero as the number to start from. No reply is waited for.
    pub fn from_init(init: Init) -> (made: (Self, Message<StoragePayload>))
        ensures
            made.0.name() == init.node_id@,
            made.1@ == request_envelope(
                init.node_id@,
                SEQUENTIAL_STORE_ADDRESS@,
                write_record(counter_key(), Stored::Uint(0)),
            ),
    {
        let storage = SequentialStore::new(init.node_id);
        let write = storage.write(Self::storage_key(), StorageType::Uint(0));
        (CounterNode { storage }, write)
    }

    fn ask(&self, task: CounterTask, want: Want) -> (step: Step<CounterTask, CounterPayload>)
        ensures
            step@ == ask(self.name(), task@, record_of(want, counter_key())),
    {
        let request = match want {
            Want::Read => self.storage.read(Self::storage_key()),
            Want::Cas { from, to } => self.storage.compare_and_store(
                Self::storage_key(),
                StorageType::Uint(from),
                StorageType::Uint(to),
            ),
        };
        Step::AskStore { task, request }
    }

    /// Says how an addition of `delta` goes on after `reply`.
    pub fn add_to_current_value(
        delta: usize,
        phase: AddPhase,
        reply: &Reply<CounterPayload>,
    ) -> (next: Added)
        ensures
            next == add_next(delta, phase, answer_of(reply@)),
    {
        match phase {
            AddPhase::Reading => match reply.answer() {
                Answer::Value(current) => match current.checked_add(delta) {
                    Some(candidate) => Added::Ask {
                        phase: AddPhase::Swapping { current, candidate },
                        want: Want::Cas { from: current, to: candidate },
                    },
                    None => Added::Overflow,
                },
                _ => Added::Fail,
            },
            AddPhase::Swapping { candidate, .. } => match reply.answer() {
                Answer::Swapped => Added::Done { value: candidate },
                Answer::Lost => Added::Fail,
                _ => Added::Again,
            },
        }
    }

    /// Takes an event and says what is to be done for it.
    pub fn step(&self, event: Event<CounterPayload, ()>) -> (step: Step<
        CounterTask,
        CounterPayload,
    >)
        ensures
            step@ == stepped(self.name(), event@),
    {
        match event {
            Event::Message(message) => {
                let (origin, payload) = message.open_reply();
                match payload {
                    CounterPayload::Add { delta } => self.ask(
                        CounterTask {
                            origin,
                            job: CounterJob::Add { delta, phase: AddPhase::Reading },
                        },
                        Want::Read,
                    ),
                    CounterPayload::Read => self.ask(
                        CounterTask { origin, job: CounterJob::Read },
                        Want::Read,
                    ),
                    _ => Step::Idle,
                }
            },
            _ => Step::Idle,
        }
    }

    /// Takes the reply that `task` waited for and says what is to be done
    /// next.
    pub fn resume(&self, task: CounterTask, reply: Reply<CounterPayload>) -> (step: Step<
        CounterTask,
        CounterPayload,
    >)
        ensures
            step@ == resumed(self.name(), task@, reply@),
    {
        let CounterTask { origin, job } = task;
        match job {
            CounterJob::Add { delta, phase } => match Self::add_to_current_value(
                delta,
                phase,
                &reply,
            ) {
                Added::Ask { phase: next, want } => self.ask(
                    CounterTask { origin, job: CounterJob::Add { delta, phase: next } },
                    want,
                ),
                Added::Done { .. } => Step::Reply {
                    message: origin.carrying(CounterPayload::AddOk),
                },
                Added::Again => self.ask(
                    CounterTask {
                        origin,
                        job: CounterJob::Add { delta, phase: AddPhase::Reading },
                    },
                    Want::Read,
                ),
                Added::Overflow => Step::Failed { error: NodeError::Overflow },
                Added::Fail => Step::Failed { error: reply.into_error() },
            },
            CounterJob::Read => match reply.answer() {
                Answer::Value(value) => Step::Reply {
                    message: origin.carrying(CounterPayload::ReadOk { value }),
                },
                _ => Step::Failed { error: reply.into_error() },
            },
        }
    }
}

/// The request that an addition in `phase` waits on.
pub open spec fn awaited_add(phase: AddPhase) -> Want {
    match phase {
        AddPhase::Reading => Want::Read,
        AddPhase::Swapping { current, candidate } => Want::Cas { from: current, to: candidate },
    }
}

/// An addition that is told to ask something waits on just that request.
pub proof fn lemma_add_asks_what_it_awaits(delta: usize, phase: AddPhase, answer: Answer)
    ensures
        add_next(delta, phase, answer) matches Added::Ask { phase: next, want } ==> awaited_add(
            next,
        ) == want,
{
}

/// One addition among several that are under way.
pub ghost enum Adder {
    /// Under way, in this phase.
    Running(AddPhase),
    /// The sum is stored.
    Done,
    /// Given up.
    Stopped,
}

/// Additions that are under way against one stored number.
pub ghost struct Additions {
    /// What the key holds.
    pub cell: Option<usize>,
    /// What each addition adds.
    pub deltas: Seq<usize>,
    /// How far each addition has come.
    pub adders: Seq<Adder>,
}

/// The sum of the first `n` of `deltas` whose addition is done.
pub open spec fn applied(deltas: Seq<usize>, adders: Seq<Adder>, n: int) -> int
    decreases n,
{
    if n <= 0 {
        0
    } else {
        applied(deltas, adders, n - 1) + if adders[n - 1] is Done {
            deltas[n - 1] as int
        } else {
            0
        }
    }
}

/// The sum of the first `n` of `deltas`.
pub open spec fn total(deltas: Seq<usize>, n: int) -> int
    decreases n,
{
    if n <= 0 {
        0
    } else {
        total(deltas, n - 1) + deltas[n - 1]
    }
}

impl Additions {
    /// One addition for each of `deltas`, each having just asked for the
    /// stored number.
    pub open spec fn fresh(cell: Option<usize>, deltas: Seq<usize>) -> Additions {
        Additions {
            cell,
            deltas,
            adders: Seq::new(deltas.len(), |i: int| Adder::Running(AddPhase::Reading)),
        }
    }

    /// The service serves the request of the addition at position `i`, and
    /// the addition takes the answer.
    pub open spec fn step(self, i: int) -> Additions {
        if 0 <= i < self.adders.len() && self.adders[i] is Running {
            let phase = self.adders[i]->0;
            let (cell, answer) = served(self.cell, awaited_add(phase));
            let adder = match add_next(self.deltas[i], phase, answer) {
                Added::Ask { phase: next, .. } => Adder::Running(next),
                Added::Done { .. } => Adder::Done,
                Added::Again => Adder::Running(AddPhase::Reading),
                _ => Adder::Stopped,
            };
            Additions { cell, deltas: self.deltas, adders: self.adders.update(i, adder) }
        } else {
            self
        }
    }

    /// The additions take their turns in the order of `schedule`.
    pub open spec fn run(self, schedule: Seq<int>) -> Additions
        decreases schedule.len(),
    {
        if schedule.len() == 0 {
            self
        } else {
            self.run(schedule.drop_last()).step(schedule.last())
        }
    }

    /// The sum of what the additions that are done have added.
    pub open spec fn sum_done(self) -> int {
        applied(self.deltas, self.adders, self.adders.len() as int)
    }

    /// Whether every addition is done.
    pub open spec fn all_done(self) -> bool {
        forall|i: int| 0 <= i < self.adders.len() ==> (#[trigger] self.adders[i]) is Done
    }

    /// The key holds a number: what it held at the start, `base`, and what
    /// the additions that are done have added.
    pub open spec fn accounted_from(self, base: int) -> bool {
        &&& self.adders.len() == self.deltas.len()
        &&& self.cell is Some
        &&& held(self.cell) == base + self.sum_done()
        &&& forall|i: int|
            0 <= i < self.adders.len() ==> (#[trigger] self.adders[i] matches Adder::Running(
                AddPhase::Swapping { current, candidate },
            ) ==> candidate == current + self.deltas[i])
    }

    proof fn lemma_applied_update(
        deltas: Seq<usize>,
        adders: Seq<Adder>,
        i: int,
        adder: Adder,
        n: int,
    )
        requires
            0 <= i < adders.len(),
            0 <= n <= adders.len(),
            !(adders[i] is Done),
        ensures
            applied(deltas, adders.update(i, adder), n) == applied(deltas, adders, n) + if i < n
                && adder is Done {
                deltas[i] as int
            } else {
                0
            },
        decreases n,
    {
        if n > 0 {
            Self::lemma_applied_update(deltas, adders, i, adder, n - 1);
        }
    }

    /// One turn keeps the account.
    pub proof fn lemma_step_accounts(self, base: int, i: int)
        requires
            self.accounted_from(base),
        ensures
            self.step(i).accounted_from(base),
    {
        if 0 <= i < self.adders.len() && self.adders[i] is Running {
            let next = self.step(i);
            Self::lemma_applied_update(
                self.deltas,
                self.adders,
                i,
                next.adders[i],
                self.adders.len() as int,
            );
            assert(forall|k: int|
                0 <= k < next.adders.len() && k != i ==> next.adders[k] == self.adders[k]);
        }
    }

    /// Every schedule keeps the account.
    pub proof fn lemma_run_accounts(self, base: int, schedule: Seq<int>)
        requires
            self.accounted_from(base),
        ensures
            self.run(schedule).accounted_from(base),
            self.run(schedule).deltas == self.deltas,
        decreases schedule.len(),
    {
        if schedule.len() > 0 {
            self.lemma_run_accounts(base, schedule.drop_last());
            self.run(schedule.drop_last()).lemma_step_accounts(base, schedule.last());
        }
    }

    proof fn lemma_all_done_applies_all(deltas: Seq<usize>, adders: Seq<Adder>, n: int)
        requires
            0 <= n <= adders.len(),
            forall|i: int| 0 <= i < adders.len() ==> (#[trigger] adders[i]) is Done,
        ensures
            applied(deltas, adders, n) == total(deltas, n),
        decreases n,
    {
        if n > 0 {
            Self::lemma_all_done_applies_all(deltas, adders, n - 1);
        }
    }
}

/// No addition is lost.
///
/// Let any number of additions be under way against one stored number, and
/// let them and the storage service take their turns in any order, every
/// request being answered. Then the key holds, at every moment, what it held
/// at the start and the sum of what the additions that are done have added,
/// and that is what a read is answered with. Once all are done, it holds what
/// it held at the start and the sum of all that was to be added.
pub proof fn lemma_no_addition_is_lost(start: usize, deltas: Seq<usize>, schedule: Seq<int>)
    ensures
        ({
            let after = Additions::fresh(Some(start), deltas).run(schedule);
            &&& held(after.cell) == start + after.sum_done()
            &&& served(after.cell, Want::Read).1 == Answer::Value(
                (start + after.sum_done()) as usize,
            )
            &&& after.all_done() ==> held(after.cell) == start + total(deltas, deltas.len() as int)
        }),
{
    let begin = Additions::fresh(Some(start), deltas);
    assert(begin.sum_done() == 0) by {
        lemma_nothing_applied(begin.deltas, begin.adders, begin.adders.len() as int);
    }
    begin.lemma_run_accounts(start as int, schedule);
    let after = begin.run(schedule);
    if after.all_done() {
        Additions::lemma_all_done_applies_all(
            after.deltas,
            after.adders,
            after.adders.len() as int,
        );
    }
}

proof fn lemma_nothing_applied(deltas: Seq<usize>, adders: Seq<Adder>, n: int)
    requires
        0 <= n <= adders.len(),
        forall|i: int| 0 <= i < adders.len() ==> !((#[trigger] adders[i]) is Done),
    ensures
        applied(deltas, adders, n) == 0,
    decreases n,
{
    if n > 0 {
        lemma_nothing_applied(deltas, adders, n - 1);
    }
}

/// Increments are counted.
///
/// Where every addition adds one, the key holds, once all are done, what it
/// held at the start and the number of additions.
pub proof fn lemma_increments_are_counted(start: usize, deltas: Seq<usize>, schedule: Seq<int>)
    requires
        forall|i: int| 0 <= i < deltas.len() ==> #[trigger] deltas[i] == 1,
    ensures
        ({
            let after = Additions::fresh(Some(start), deltas).run(schedule);
            after.all_done() ==> held(after.cell) == start + deltas.len()
        }),
{
    lemma_no_addition_is_lost(start, deltas, schedule);
    lemma_total_of_ones(deltas, deltas.len() as int);
}

/// The sum of `n` additions of one is `n`.
pub proof fn lemma_total_of_ones(deltas: Seq<usize>, n: int)
    requires
        0 <= n <= deltas.len(),
        forall|i: int| 0 <= i < deltas.len() ==> #[trigger] deltas[i] == 1,
    ensures
        total(deltas, n) == n,
    decreases n,
{
    if n > 0 {
        lemma_total_of_ones(deltas, n - 1);
    }
}

} // verus!
