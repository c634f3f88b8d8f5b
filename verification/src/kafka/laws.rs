//! What holds of the commit log whatever the order in which its nodes and
//! the storage service take their turns.

use crate::kafka::model::{alloc_next, commit_next, Alloc, AppendPhase, CommitPhase, Raise};
use crate::task::{held, served, Answer, FetchPhase, Want};
use vstd::prelude::*;

verus! {

/// The request that an append in `phase` waits on, if it waits on one.
pub open spec fn awaited(phase: AppendPhase) -> Option<Want> {
    match phase {
        AppendPhase::Offset(FetchPhase::Reading) => Some(Want::Read),
        AppendPhase::Offset(FetchPhase::Creating) => Some(Want::Cas { from: 0, to: 0 }),
        AppendPhase::Swapping { current } => if current < usize::MAX {
            Some(Want::Cas { from: current, to: (current + 1) as usize })
        } else {
            None
        },
        AppendPhase::Writing { .. } => None,
    }
}

/// An append that is told to ask something waits on just that request.
pub proof fn lemma_alloc_asks_what_it_awaits(phase: AppendPhase, answer: Answer)
    ensures
        alloc_next(phase, answer) matches Alloc::Ask { phase: next, want } ==> awaited(next)
            == Some(want),
{
}

/// The appends that are under way for one topic at its leader, together with
/// the key that holds the topic's next free offset.
pub ghost struct Leader {
    /// What the key holds.
    pub cell: Option<usize>,
    /// The appends: how far each has come, or nothing where it has failed.
    pub senders: Seq<Option<AppendPhase>>,
    /// The offsets that were given out, in the order in which they were.
    pub granted: Seq<usize>,
}

impl Leader {
    /// `n` appends that have just asked for the next free offset.
    pub open spec fn fresh(cell: Option<usize>, n: nat) -> Leader {
        Leader {
            cell,
            senders: Seq::new(n, |i: int| Some(AppendPhase::Offset(FetchPhase::Reading))),
            granted: Seq::empty(),
        }
    }

    /// The service serves the request of the append at position `i`, and the
    /// append takes the answer.
    pub open spec fn step(self, i: int) -> Leader {
        if 0 <= i < self.senders.len() && self.senders[i] is Some && awaited(
            self.senders[i]->0,
        ) is Some {
            let phase = self.senders[i]->0;
            let (cell, answer) = served(self.cell, awaited(phase)->0);
            match alloc_next(phase, answer) {
                Alloc::Ask { phase: next, .. } => Leader {
                    cell,
                    senders: self.senders.update(i, Some(next)),
                    granted: self.granted,
                },
                Alloc::Taken { offset } => Leader {
                    cell,
                    senders: self.senders.update(i, Some(AppendPhase::Writing { offset })),
                    granted: self.granted.push(offset),
                },
                Alloc::Again => Leader {
                    cell,
                    senders: self.senders.update(
                        i,
                        Some(AppendPhase::Offset(FetchPhase::Reading)),
                    ),
                    granted: self.granted,
                },
                _ => Leader { cell, senders: self.senders.update(i, None), granted: self.granted },
            }
        } else {
            self
        }
    }

    /// The appends take their turns in the order of `schedule`.
    pub open spec fn run(self, schedule: Seq<int>) -> Leader
        decreases schedule.len(),
    {
        if schedule.len() == 0 {
            self
        } else {
            self.run(schedule.drop_last()).step(schedule.last())
        }
    }

    /// The key counts the offsets that were given out, and they were given
    /// out in order, starting from `base`.
    pub open spec fn counted_from(self, base: int) -> bool {
        &&& held(self.cell) == base + self.granted.len()
        &&& forall|j: int| 0 <= j < self.granted.len() ==> #[trigger] self.granted[j] == base + j
        &&& self.cell is None ==> forall|i: int|
            0 <= i < self.senders.len() && (#[trigger] self.senders[i]) is Some
                ==> self.senders[i]->0 is Offset
    }

    /// One turn keeps the count.
    pub proof fn lemma_step_counts(self, base: int, i: int)
        requires
            self.counted_from(base),
        ensures
            self.step(i).counted_from(base),
    {
        let next = self.step(i);
        if 0 <= i < self.senders.len() && self.senders[i] is Some && awaited(
            self.senders[i]->0,
        ) is Some {
            let phase = self.senders[i]->0;
            let (cell, answer) = served(self.cell, awaited(phase)->0);
            assert(forall|k: int|
                0 <= k < next.senders.len() && k != i ==> next.senders[k] == self.senders[k]);
        }
    }

    /// Every schedule keeps the count.
    pub proof fn lemma_run_counts(self, base: int, schedule: Seq<int>)
        requires
            self.counted_from(base),
        ensures
            self.run(schedule).counted_from(base),
        decreases schedule.len(),
    {
        if schedule.len() > 0 {
            self.lemma_run_counts(base, schedule.drop_last());
            self.run(schedule.drop_last()).lemma_step_counts(base, schedule.last());
        }
    }
}

/// Offsets are given out in order and without gaps.
///
/// Let any number of appends to one topic be under way at the topic's leader,
/// and let them and the storage service take their turns in any order, every
/// request being answered. Then the offsets that the leader gives out are, in
/// the order in which it gives them out, the number that the key held at the
/// start (zero where it was missing) and its successors: each offset is
/// larger by one than the one before it.
pub proof fn lemma_offsets_increase_without_gaps(cell: Option<usize>, n: nat, schedule: Seq<int>)
    ensures
        ({
            let after = Leader::fresh(cell, n).run(schedule);
            &&& forall|j: int|
                0 <= j < after.granted.len() ==> #[trigger] after.granted[j] == held(cell) + j
            &&& forall|j: int|
                0 < j < after.granted.len() ==> #[trigger] after.granted[j] == after.granted[j
                    - 1] + 1
            &&& held(after.cell) == held(cell) + after.granted.len()
        }),
{
    let start = Leader::fresh(cell, n);
    assert(start.counted_from(held(cell)));
    start.lemma_run_counts(held(cell), schedule);
}

/// The request that a commit in `stage` waits on.
pub open spec fn awaited_raise(proposed: usize, stage: CommitPhase) -> Want {
    match stage {
        CommitPhase::Current(FetchPhase::Reading) => Want::Read,
        CommitPhase::Current(FetchPhase::Creating) => Want::Cas { from: 0, to: 0 },
        CommitPhase::Raising { from } => Want::Cas { from, to: proposed },
    }
}

/// A commit that is told to ask something waits on just that request.
pub proof fn lemma_raise_asks_what_it_awaits(proposed: usize, stage: CommitPhase, answer: Answer)
    ensures
        commit_next(proposed, stage, answer) matches Raise::Ask { stage: next, want }
            ==> awaited_raise(proposed, next) == want,
{
}

/// What the key of a topic's commit holds after a commit of `proposed` has had
/// `turns` exchanges with the service, nobody interfering, and whether the
/// commit is through.
pub open spec fn commit_alone(
    cell: Option<usize>,
    proposed: usize,
    stage: CommitPhase,
    turns: nat,
) -> (Option<usize>, bool)
    decreases turns,
{
    if turns == 0 {
        (cell, false)
    } else {
        let (cell, answer) = served(cell, awaited_raise(proposed, stage));
        match commit_next(proposed, stage, answer) {
            Raise::Ask { stage: next, .. } => commit_alone(
                cell,
                proposed,
                next,
                (turns - 1) as nat,
            ),
            Raise::Settled => (cell, true),
            Raise::Again => commit_alone(
                cell,
                proposed,
                CommitPhase::Current(FetchPhase::Reading),
                (turns - 1) as nat,
            ),
            Raise::Fail => (cell, false),
        }
    }
}

/// What the key of a topic's commit holds after a commit of `proposed`.
pub open spec fn after_commit(cell: Option<usize>, proposed: usize) -> Option<usize> {
    commit_alone(cell, proposed, CommitPhase::Current(FetchPhase::Reading), 3).0
}

/// A commit stores the larger of the stored and the proposed offset.
///
/// A commit that nobody interferes with is through after three exchanges at
/// most, and the key then holds the proposed offset where that is above what
/// the key held, and what it held otherwise.
pub proof fn lemma_commit_stores_the_larger(cell: Option<usize>, proposed: usize)
    ensures
        commit_alone(cell, proposed, CommitPhase::Current(FetchPhase::Reading), 3).1,
        after_commit(cell, proposed) is Some,
        held(after_commit(cell, proposed)) == if held(cell) < proposed {
            proposed as int
        } else {
            held(cell)
        },
{
    reveal_with_fuel(commit_alone, 4);
}

/// A stored commit never goes back.
///
/// After a commit of `first`, a commit of a smaller offset `second` leaves the
/// stored commit as it is: at `first`, where the key held no more than that
/// before. And no commit makes the stored offset smaller.
pub proof fn lemma_commit_never_regresses(cell: Option<usize>, first: usize, second: usize)
    ensures
        second < first ==> after_commit(after_commit(cell, first), second) == after_commit(
            cell,
            first,
        ),
        second < first && held(cell) <= first ==> held(
            after_commit(after_commit(cell, first), second),
        ) == first,
        held(after_commit(cell, first)) >= held(cell),
{
    reveal_with_fuel(commit_alone, 4);
}

/// No exchange of a commit lowers what the key holds, whoever else is at the
/// key: a commit only ever asks to swap a smaller number for a larger one, or
/// zero for zero.
pub proof fn lemma_commit_turn_never_lowers(
    cell: Option<usize>,
    proposed: usize,
    stage: CommitPhase,
)
    requires
        stage matches CommitPhase::Raising { from } ==> from < proposed,
    ensures
        held(served(cell, awaited_raise(proposed, stage)).0) >= held(cell),
        commit_next(
            proposed,
            stage,
            served(cell, awaited_raise(proposed, stage)).1,
        ) matches Raise::Ask { stage: CommitPhase::Raising { from }, .. } ==> from < proposed,
{
}

} // verus!
