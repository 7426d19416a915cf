//! Two independently paced step sequences — a song (learn, then sing) and a
//! dance — joined to completion on a cooperative scheduler.
//!
//! The library holds the verified logic: the timed step runner's emission
//! state machine, the two sequences built from it, the joint run over an
//! arbitrary interleaving schedule, and the rendering of each emitted record
//! as an output line. The timing itself (sleeping between repetitions and
//! printing the lines) is left to the embedding program, which drives the
//! state machines one step at a time.

pub mod record;
pub mod render;
pub mod runner;
pub mod sequence;
pub mod joiner;
