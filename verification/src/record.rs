//! The records that the step runners emit: an action label together with the
//! 1-based repetition index and the configured step count.

use vstd::prelude::*;

verus! {

/// Which action a repetition performs. The label is the only payload of an
/// action: there is no mutable state behind it.
#[derive(Clone, Copy, PartialEq, Eq, Structural, Debug)]
pub enum ActionLabel {
    /// A repetition of the learning phase of the song sequence.
    LearnSong,
    /// A repetition of the singing phase, labeled with the fixed song title
    /// that learning the song produces.
    SongTitle,
    /// A repetition of the dance sequence.
    Dance,
}

/// One observable record: emitted once per repetition, strictly ordered
/// within a single runner. `index` is 1-based and never exceeds `total`.
#[derive(Clone, Copy, PartialEq, Eq, Structural, Debug)]
pub struct Record {
    /// The 1-based repetition index.
    pub index: u32,
    /// The step count the runner was configured with.
    pub total: u32,
    /// The action the repetition performs.
    pub label: ActionLabel,
}

/// The text of a label, as ASCII bytes: `"learn song"`, `"Bury the Light"`
/// or `"dance"`.
pub open spec fn label_bytes(label: ActionLabel) -> Seq<u8> {
    match label {
        ActionLabel::LearnSong => seq![
            108u8, 101, 97, 114, 110, 32, 115, 111, 110, 103,
        ],
        ActionLabel::SongTitle => seq![
            66u8, 117, 114, 121, 32, 116, 104, 101, 32, 76, 105, 103, 104, 116,
        ],
        ActionLabel::Dance => seq![100u8, 97, 110, 99, 101],
    }
}

/// The text of a label, for building an output line.
pub fn label_text(label: ActionLabel) -> (v: Vec<u8>)
    ensures
        v@ == label_bytes(label),
{
    match label {
        ActionLabel::LearnSong => {
            let v: Vec<u8> = vec![108u8, 101, 97, 114, 110, 32, 115, 111, 110, 103];
            assert(v@ =~= label_bytes(label));
            v
        }
        ActionLabel::SongTitle => {
            let v: Vec<u8> = vec![
                66u8, 117, 114, 121, 32, 116, 104, 101, 32, 76, 105, 103, 104, 116,
            ];
            assert(v@ =~= label_bytes(label));
            v
        }
        ActionLabel::Dance => {
            let v: Vec<u8> = vec![100u8, 97, 110, 99, 101];
            assert(v@ =~= label_bytes(label));
            v
        }
    }
}

} // verus!
