//! The two sequences built from the timed step runner.
//!
//! The song sequence runs a "learn song" runner for 5 repetitions and, upon
//! its completion, a runner for 3 repetitions labeled with the fixed song
//! title — learning the song produces the title, which is then sung. The two
//! phases are strictly sequential: no singing record is emitted before the
//! last learning record.
//!
//! The dance sequence runs a single "dance" runner for 10 repetitions and
//! shares no state with the song sequence.

use vstd::prelude::*;

use crate::record::{ActionLabel, Record};
use crate::runner::{runner_records, StepRunner};

verus! {

/// The records the song sequence emits, in emission order: 5 learning
/// records, then 3 title records.
pub open spec fn song_records() -> Seq<Record> {
    runner_records(ActionLabel::LearnSong, 5) + runner_records(ActionLabel::SongTitle, 3)
}

/// The records the dance sequence emits, in emission order: 10 dance
/// records.
pub open spec fn dance_records() -> Seq<Record> {
    runner_records(ActionLabel::Dance, 10)
}

/// Which phase the song sequence is in.
#[derive(Clone, Copy, PartialEq, Eq, Structural, Debug)]
enum SongPhase {
    /// Learning the song, 5 repetitions.
    Learning,
    /// Singing the learned title, 3 repetitions.
    Singing,
}

/// The song sequence in mid-run: a learning runner followed by a singing
/// runner, the second starting only once the first has completed.
pub struct SongSequence {
    phase: SongPhase,
    runner: StepRunner,
}

impl SongSequence {
    /// How many of the sequence's 8 records have been emitted so far.
    pub closed spec fn emitted(self) -> nat {
        match self.phase {
            SongPhase::Learning => self.runner.emitted(),
            SongPhase::Singing => 5 + self.runner.emitted(),
        }
    }

    /// The sequence is well formed when its current runner matches its
    /// phase: learning runs `[1/5] learn song` and hands over to singing as
    /// soon as its fifth record is out, so in the learning phase fewer than
    /// 5 records are emitted.
    pub closed spec fn wf(self) -> bool {
        self.runner.wf() && match self.phase {
            SongPhase::Learning => self.runner.label() == ActionLabel::LearnSong
                && self.runner.total() == 5 && self.runner.emitted() < 5,
            SongPhase::Singing => self.runner.label() == ActionLabel::SongTitle
                && self.runner.total() == 3,
        }
    }

    /// Configures a song sequence that has emitted nothing yet.
    pub fn new() -> (song: SongSequence)
        ensures
            song.wf(),
            song.emitted() == 0,
    {
        SongSequence { phase: SongPhase::Learning, runner: StepRunner::new(ActionLabel::LearnSong, 5) }
    }

    /// Whether all 8 records are out.
    pub fn is_done(&self) -> (done: bool)
        requires
            self.wf(),
        ensures
            done == (self.emitted() == song_records().len()),
    {
        match self.phase {
            SongPhase::Learning => false,
            SongPhase::Singing => self.runner.is_done(),
        }
    }

    /// Performs the next repetition and emits its record. When the learning
    /// phase completes, the fixed song title it produces becomes the label
    /// of the singing phase, which starts afresh at index 1.
    pub fn emit(&mut self) -> (r: Record)
        requires
            old(self).wf(),
            old(self).emitted() < song_records().len(),
        ensures
            final(self).wf(),
            final(self).emitted() == old(self).emitted() + 1,
            r == song_records()[old(self).emitted() as int],
    {
        match self.phase {
            SongPhase::Learning => {
                let r = self.runner.emit();
                if self.runner.is_done() {
                    self.runner = StepRunner::new(ActionLabel::SongTitle, 3);
                    self.phase = SongPhase::Singing;
                }
                r
            }
            SongPhase::Singing => self.runner.emit(),
        }
    }
}

/// The dance sequence in mid-run: one runner, independent of the song
/// sequence.
pub struct DanceSequence {
    runner: StepRunner,
}

impl DanceSequence {
    /// How many of the sequence's 10 records have been emitted so far.
    pub closed spec fn emitted(self) -> nat {
        self.runner.emitted()
    }

    /// The sequence is well formed when its runner is the configured
    /// 10-step dance runner.
    pub closed spec fn wf(self) -> bool {
        self.runner.wf() && self.runner.label() == ActionLabel::Dance && self.runner.total() == 10
    }

    /// Configures a dance sequence that has emitted nothing yet.
    pub fn new() -> (dance: DanceSequence)
        ensures
            dance.wf(),
            dance.emitted() == 0,
    {
        DanceSequence { runner: StepRunner::new(ActionLabel::Dance, 10) }
    }

    /// Whether all 10 records are out.
    pub fn is_done(&self) -> (done: bool)
        requires
            self.wf(),
        ensures
            done == (self.emitted() == dance_records().len()),
    {
        self.runner.is_done()
    }

    /// Performs the next repetition and emits its record.
    pub fn emit(&mut self) -> (r: Record)
        requires
            old(self).wf(),
            old(self).emitted() < dance_records().len(),
        ensures
            final(self).wf(),
            final(self).emitted() == old(self).emitted() + 1,
            r == dance_records()[old(self).emitted() as int],
    {
        self.runner.emit()
    }
}

/// Law: the song sequence emits exactly 5 learning records followed by
/// exactly 3 records labeled with the fixed song title; no title record
/// stands before the last learning record.
pub proof fn lemma_song_shape()
    ensures
        song_records().len() == 8,
        forall|i: int|
            0 <= i < 5 ==> (#[trigger] song_records()[i]) == (Record {
                index: (i + 1) as u32,
                total: 5,
                label: ActionLabel::LearnSong,
            }),
        forall|i: int|
            5 <= i < 8 ==> (#[trigger] song_records()[i]) == (Record {
                index: (i - 4) as u32,
                total: 3,
                label: ActionLabel::SongTitle,
            }),
{
}

/// Law: the dance sequence emits exactly 10 dance records, indices 1 to 10.
pub proof fn lemma_dance_shape()
    ensures
        dance_records().len() == 10,
        forall|i: int|
            0 <= i < 10 ==> (#[trigger] dance_records()[i]) == (Record {
                index: (i + 1) as u32,
                total: 10,
                label: ActionLabel::Dance,
            }),
{
}

} // verus!
