//! The timed step runner: repeats a labeled action a fixed number of times,
//! emitting one record per repetition.
//!
//! The waiting between repetitions is cooperative and belongs to the
//! embedding program: it suspends for one interval, then calls [`StepRunner::emit`]
//! and hands the record to the output sink. The runner itself holds the
//! verified emission logic — which record comes next and when the run is over.

use vstd::prelude::*;

use crate::record::{ActionLabel, Record};

verus! {

/// The records a runner configured with `label` and step count `total`
/// emits, in emission order: indices `1..=total`, all carrying `label`.
pub open spec fn runner_records(label: ActionLabel, total: u32) -> Seq<Record> {
    Seq::new(
        total as nat,
        |i: int|
            (Record { index: (i + 1) as u32, total: total, label: label }),
    )
}

/// A timed step runner in mid-run: it has emitted the first `emitted()`
/// of its `total()` records.
pub struct StepRunner {
    label: ActionLabel,
    total: u32,
    emitted: u32,
}

impl StepRunner {
    /// The label every emitted record carries.
    pub closed spec fn label(self) -> ActionLabel {
        self.label
    }

    /// The configured step count, fixed at configuration time.
    pub closed spec fn total(self) -> u32 {
        self.total
    }

    /// How many records have been emitted so far.
    pub closed spec fn emitted(self) -> nat {
        self.emitted as nat
    }

    /// A runner is well formed when its step count is positive and it has
    /// not emitted past it.
    pub open spec fn wf(self) -> bool {
        1 <= self.total() && self.emitted() <= self.total()
    }

    /// Configures a runner that has emitted nothing yet.
    pub fn new(label: ActionLabel, total: u32) -> (runner: StepRunner)
        requires
            1 <= total,
        ensures
            runner.wf(),
            runner.label() == label,
            runner.total() == total,
            runner.emitted() == 0,
    {
        StepRunner { label, total, emitted: 0 }
    }

    /// Whether every configured repetition has emitted its record.
    pub fn is_done(&self) -> (done: bool)
        ensures
            done == (self.emitted() == self.total()),
    {
        self.emitted == self.total
    }

    /// Performs the next repetition: emits the next record, `[emitted + 1 / total]`
    /// with the runner's label. The caller suspends for one interval before
    /// each call; the record itself is what an observer sees.
    pub fn emit(&mut self) -> (r: Record)
        requires
            old(self).wf(),
            old(self).emitted() < old(self).total(),
        ensures
            final(self).wf(),
            final(self).label() == old(self).label(),
            final(self).total() == old(self).total(),
            final(self).emitted() == old(self).emitted() + 1,
            r == runner_records(old(self).label(), old(self).total())[old(self).emitted() as int],
    {
        self.emitted = self.emitted + 1;
        Record { index: self.emitted, total: self.total, label: self.label }
    }

    /// Runs a fresh runner to completion in one go, collecting the records
    /// in emission order. This is the runner's observable behaviour with the
    /// waiting stripped out: exactly `total` records, indices `1..=total`.
    pub fn run_all(label: ActionLabel, total: u32) -> (out: Vec<Record>)
        requires
            1 <= total,
        ensures
            out@ == runner_records(label, total),
    {
        let mut runner = StepRunner::new(label, total);
        let mut out: Vec<Record> = Vec::new();
        let mut i: u32 = 0;
        while i < total
            invariant
                i <= total,
                runner.wf(),
                runner.label() == label,
                runner.total() == total,
                runner.emitted() == i,
                out@ == runner_records(label, total).take(i as int),
            decreases total - i,
        {
            let r = runner.emit();
            out.push(r);
            i = i + 1;
            proof {
                assert(runner_records(label, total).take(i as int) =~= runner_records(
                    label,
                    total,
                ).take(i - 1).push(runner_records(label, total)[i - 1]));
            }
        }
        proof {
            assert(runner_records(label, total).take(total as int) =~= runner_records(
                label,
                total,
            ));
        }
        out
    }
}

/// Law: for every step count `total >= 1`, a runner emits exactly `total`
/// records, with 1-based indices in strictly increasing order, each carrying
/// the configured label and step count.
pub proof fn lemma_runner_emits_exactly(label: ActionLabel, total: u32)
    requires
        1 <= total,
    ensures
        runner_records(label, total).len() == total,
        forall|i: int|
            0 <= i < total ==> (#[trigger] runner_records(label, total)[i]) == (Record {
                index: (i + 1) as u32,
                total: total,
                label: label,
            }),
        forall|i: int, j: int|
            0 <= i < j < total ==> runner_records(label, total)[i].index < runner_records(
                label,
                total,
            )[j].index,
{
}

} // verus!
