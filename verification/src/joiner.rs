//! The joiner: runs the song sequence and the dance sequence concurrently
//! and completes only when both have.
//!
//! The two sequences never share state, so the only freedom the scheduler
//! has is which sequence's pending wait resolves first. That choice is
//! modeled as a schedule: one boolean per tick saying which sequence
//! advances while both are still pending. [`run_joined`] runs both sequences
//! to completion under an arbitrary schedule and collects every record in
//! emission order; its contract pins down, for every schedule, that the
//! joint run carries each sequence's records complete and in order.

use vstd::prelude::*;

use crate::record::{ActionLabel, Record};
use crate::sequence::{dance_records, song_records, DanceSequence, SongSequence};

verus! {

/// Whether a record belongs to the song sequence (learning or singing).
pub open spec fn is_song_record(r: Record) -> bool {
    r.label == ActionLabel::LearnSong || r.label == ActionLabel::SongTitle
}

/// Whether a record belongs to the dance sequence.
pub open spec fn is_dance_record(r: Record) -> bool {
    r.label == ActionLabel::Dance
}

/// The subsequence of `s` whose records satisfy `pred`, in the order they
/// stand in `s`.
pub open spec fn part(s: Seq<Record>, pred: spec_fn(Record) -> bool) -> Seq<Record>
    decreases s.len(),
{
    if s.len() == 0 {
        Seq::empty()
    } else if pred(s.last()) {
        part(s.drop_last(), pred).push(s.last())
    } else {
        part(s.drop_last(), pred)
    }
}

/// The predicate selecting song records, as a value, so that every contract
/// speaks of one and the same projection.
pub open spec fn song_pred() -> spec_fn(Record) -> bool {
    |r: Record| is_song_record(r)
}

/// The predicate selecting dance records.
pub open spec fn dance_pred() -> spec_fn(Record) -> bool {
    |r: Record| is_dance_record(r)
}

/// The song sequence's records within a joint run, in order.
pub open spec fn song_part(s: Seq<Record>) -> Seq<Record> {
    part(s, song_pred())
}

/// The dance sequence's records within a joint run, in order.
pub open spec fn dance_part(s: Seq<Record>) -> Seq<Record> {
    part(s, dance_pred())
}

/// The rest of the joint run under the tick rule, starting after
/// `song_done` song records and `dance_done` dance records are already
/// out. At each tick — the tick number is the count of records already
/// emitted — the side that advances is: the song while the dance is
/// complete, the dance while the song is complete, and otherwise the
/// side the schedule's entry for that tick picks (`true` for the song),
/// with an exhausted schedule advancing the song.
pub open spec fn joined_merge_from(schedule: Seq<bool>, song_done: int, dance_done: int) -> Seq<
    Record,
>
    decreases 18 - song_done - dance_done,
        when 0 <= song_done <= 8 && 0 <= dance_done <= 10
{
    if song_done == 8 && dance_done == 10 {
        Seq::empty()
    } else {
        let tick = song_done + dance_done;
        let advance_song = if song_done == 8 {
            false
        } else if dance_done == 10 {
            true
        } else if tick < schedule.len() {
            schedule[tick]
        } else {
            true
        };
        if advance_song {
            seq![song_records()[song_done]] + joined_merge_from(
                schedule,
                song_done + 1,
                dance_done,
            )
        } else {
            seq![dance_records()[dance_done]] + joined_merge_from(
                schedule,
                song_done,
                dance_done + 1,
            )
        }
    }
}

/// The joint run a schedule produces, from the start: which record stands
/// at which position is a function of the schedule alone.
pub open spec fn joined_merge(schedule: Seq<bool>) -> Seq<Record> {
    joined_merge_from(schedule, 0, 0)
}

/// The schedule that reproduces a given run: at each tick, pick the side
/// whose record the run shows there.
pub open spec fn schedule_of(s: Seq<Record>) -> Seq<bool> {
    Seq::new(s.len(), |t: int| is_song_record(s[t]))
}

/// Appending one record extends the projection by that record exactly when
/// the record satisfies the predicate.
pub proof fn lemma_part_push(s: Seq<Record>, pred: spec_fn(Record) -> bool, r: Record)
    ensures
        part(s.push(r), pred) == if pred(r) {
            part(s, pred).push(r)
        } else {
            part(s, pred)
        },
{
    assert(s.push(r).drop_last() =~= s);
    assert(s.push(r).last() == r);
}

/// Every record of a projection stands in the underlying run and satisfies
/// the predicate.
pub proof fn lemma_part_elements(s: Seq<Record>, pred: spec_fn(Record) -> bool)
    ensures
        forall|r: Record| #[trigger] part(s, pred).contains(r) ==> s.contains(r) && pred(r),
    decreases s.len(),
{
    if s.len() > 0 {
        lemma_part_elements(s.drop_last(), pred);
        assert forall|r: Record| #[trigger] part(s, pred).contains(r) implies s.contains(r)
            && pred(r) by {
            if r == s.last() && pred(r) {
                assert(s[s.len() - 1] == r);
            } else {
                assert(part(s.drop_last(), pred).contains(r));
                let i = choose|i: int|
                    0 <= i < s.drop_last().len() && s.drop_last()[i] == r;
                assert(s[i] == r);
            }
        }
    }
}

/// Every record of the run that satisfies the predicate stands in the
/// projection.
pub proof fn lemma_part_membership(s: Seq<Record>, pred: spec_fn(Record) -> bool, i: int)
    requires
        0 <= i < s.len(),
        pred(s[i]),
    ensures
        part(s, pred).contains(s[i]),
    decreases s.len(),
{
    if i == s.len() - 1 {
        assert(part(s, pred).last() == s[i]);
    } else {
        lemma_part_membership(s.drop_last(), pred, i);
        let j = choose|j: int|
            0 <= j < part(s.drop_last(), pred).len() && part(s.drop_last(), pred)[j] == s[i];
        assert(part(s, pred)[j] == s[i]);
    }
}

/// Every record belongs to exactly one of the two sequences: the three
/// labels exhaust the sides and no label is on both.
pub proof fn lemma_record_sides(r: Record)
    ensures
        is_song_record(r) || is_dance_record(r),
        !(is_song_record(r) && is_dance_record(r)),
{
}

/// A run is exactly as long as its two projections together: no record is
/// counted twice or dropped.
pub proof fn lemma_part_partition(s: Seq<Record>)
    ensures
        s.len() == song_part(s).len() + dance_part(s).len(),
    decreases s.len(),
{
    if s.len() > 0 {
        lemma_part_partition(s.drop_last());
        lemma_record_sides(s.last());
    }
}

/// The projection of a prefix of the run is a prefix of the projection.
pub proof fn lemma_part_prefix(s: Seq<Record>, pred: spec_fn(Record) -> bool, k: int)
    requires
        0 <= k <= s.len(),
    ensures
        part(s.take(k), pred).len() <= part(s, pred).len(),
        part(s, pred).take(part(s.take(k), pred).len() as int) == part(s.take(k), pred),
    decreases s.len() - k,
{
    if k == s.len() {
        assert(s.take(k) =~= s);
        assert(part(s, pred).take(part(s, pred).len() as int) =~= part(s, pred));
    } else {
        lemma_part_prefix(s, pred, k + 1);
        assert(s.take(k + 1) =~= s.take(k).push(s[k]));
        lemma_part_push(s.take(k), pred, s[k]);
        let pk = part(s.take(k), pred);
        let pk1 = part(s.take(k + 1), pred);
        assert(pk1.take(pk.len() as int) =~= pk);
        assert(part(s, pred).take(pk.len() as int) =~= part(s, pred).take(
            pk1.len() as int,
        ).take(pk.len() as int));
    }
}

/// A record of the run that satisfies the predicate stands in the
/// projection exactly at the position given by how many such records
/// precede it.
pub proof fn lemma_part_at(s: Seq<Record>, pred: spec_fn(Record) -> bool, k: int)
    requires
        0 <= k < s.len(),
        pred(s[k]),
    ensures
        part(s.take(k), pred).len() < part(s, pred).len(),
        part(s.take(k + 1), pred).len() == part(s.take(k), pred).len() + 1,
        part(s, pred)[part(s.take(k), pred).len() as int] == s[k],
{
    lemma_part_prefix(s, pred, k + 1);
    assert(s.take(k + 1) =~= s.take(k).push(s[k]));
    lemma_part_push(s.take(k), pred, s[k]);
    let pk = part(s.take(k), pred);
    let pk1 = part(s.take(k + 1), pred);
    assert(part(s, pred).take(pk1.len() as int)[pk.len() as int] == s[k]);
}

/// Later positions in the run have at least as many preceding records of
/// either kind: projection positions never move backwards.
pub proof fn lemma_part_pos_mono(s: Seq<Record>, pred: spec_fn(Record) -> bool, a: int, b: int)
    requires
        0 <= a <= b <= s.len(),
    ensures
        part(s.take(a), pred).len() <= part(s.take(b), pred).len(),
    decreases b - a,
{
    if a < b {
        lemma_part_pos_mono(s, pred, a, b - 1);
        assert(s.take(b) =~= s.take(b - 1).push(s[b - 1]));
        lemma_part_push(s.take(b - 1), pred, s[b - 1]);
    }
}

/// The joiner. Starts a fresh song sequence and a fresh dance sequence,
/// advances them tick by tick until both complete, and collects every
/// emitted record in emission order. While both sequences are pending, the
/// schedule's next entry picks which advances (`true` for the song); a
/// schedule too short to cover a tick advances the song first, and once a
/// sequence completes the other runs alone. The run is exactly the merge
/// the schedule dictates — [`joined_merge`] — and so, for every schedule,
/// contains the full song sequence and the full dance sequence, each in
/// its own order: 18 records in all.
pub fn run_joined(schedule: &Vec<bool>) -> (out: Vec<Record>)
    ensures
        out@ == joined_merge(schedule@),
        out@.len() == 18,
        song_part(out@) == song_records(),
        dance_part(out@) == dance_records(),
{
    let mut song = SongSequence::new();
    let mut dance = DanceSequence::new();
    let mut out: Vec<Record> = Vec::new();
    let mut song_emitted: u32 = 0;
    let mut dance_emitted: u32 = 0;
    let mut tick: usize = 0;
    proof {
        assert(song_part(out@) =~= song_records().take(0));
        assert(dance_part(out@) =~= dance_records().take(0));
        assert(out@ + joined_merge_from(schedule@, 0, 0) =~= joined_merge(schedule@));
    }
    while song_emitted < 8 || dance_emitted < 10
        invariant
            song.wf(),
            dance.wf(),
            song_emitted <= 8,
            dance_emitted <= 10,
            song.emitted() == song_emitted,
            dance.emitted() == dance_emitted,
            song_part(out@) == song_records().take(song_emitted as int),
            dance_part(out@) == dance_records().take(dance_emitted as int),
            out@.len() == song_emitted + dance_emitted,
            tick == out@.len(),
            out@ + joined_merge_from(schedule@, song_emitted as int, dance_emitted as int)
                == joined_merge(schedule@),
        decreases 18 - song_emitted - dance_emitted,
    {
        let ghost sd = song_emitted as int;
        let ghost dd = dance_emitted as int;
        let advance_song: bool = if song_emitted == 8 {
            false
        } else if dance_emitted == 10 {
            true
        } else if tick < schedule.len() {
            schedule[tick]
        } else {
            true
        };
        tick = tick + 1;
        let ghost pre = out@;
        if advance_song {
            let r = song.emit();
            out.push(r);
            song_emitted = song_emitted + 1;
            proof {
                lemma_part_push(pre, song_pred(), r);
                lemma_part_push(pre, dance_pred(), r);
                assert(is_song_record(r));
                assert(song_records().take(song_emitted as int) =~= song_records().take(
                    song_emitted - 1,
                ).push(song_records()[song_emitted - 1]));
                assert(joined_merge_from(schedule@, sd, dd) == seq![song_records()[sd]]
                    + joined_merge_from(schedule@, sd + 1, dd));
                assert(pre + joined_merge_from(schedule@, sd, dd) =~= out@ + joined_merge_from(
                    schedule@,
                    sd + 1,
                    dd,
                ));
            }
        } else {
            let r = dance.emit();
            out.push(r);
            dance_emitted = dance_emitted + 1;
            proof {
                lemma_part_push(pre, song_pred(), r);
                lemma_part_push(pre, dance_pred(), r);
                assert(is_dance_record(r));
                assert(dance_records().take(dance_emitted as int) =~= dance_records().take(
                    dance_emitted - 1,
                ).push(dance_records()[dance_emitted - 1]));
                assert(joined_merge_from(schedule@, sd, dd) == seq![dance_records()[dd]]
                    + joined_merge_from(schedule@, sd, dd + 1));
                assert(pre + joined_merge_from(schedule@, sd, dd) =~= out@ + joined_merge_from(
                    schedule@,
                    sd,
                    dd + 1,
                ));
            }
        }
    }
    proof {
        assert(song_records().take(8) =~= song_records());
        assert(dance_records().take(10) =~= dance_records());
        assert(joined_merge_from(schedule@, 8, 10) =~= Seq::<Record>::empty());
        assert(out@ + joined_merge_from(schedule@, 8, 10) =~= out@);
    }
    out
}

/// Law: the joint run completes only once both sequences have emitted
/// their full record count — a run whose two projections are complete
/// holds exactly 8 + 10 = 18 records, no more and no fewer.
pub proof fn lemma_join_completion(s: Seq<Record>)
    requires
        song_part(s) == song_records(),
        dance_part(s) == dance_records(),
    ensures
        s.len() == 18,
{
    lemma_part_partition(s);
}

/// Law: dance records may interleave with the song arbitrarily, but never
/// out of order among themselves — within a run whose dance projection is
/// complete, any two dance records appear with strictly increasing
/// indices.
pub proof fn lemma_join_dance_order(s: Seq<Record>, k1: int, k2: int)
    requires
        dance_part(s) == dance_records(),
        0 <= k1 < k2 < s.len(),
        is_dance_record(s[k1]),
        is_dance_record(s[k2]),
    ensures
        s[k1].index < s[k2].index,
{
    lemma_part_at(s, dance_pred(), k1);
    lemma_part_at(s, dance_pred(), k2);
    lemma_part_pos_mono(s, dance_pred(), k1 + 1, k2);
    let p1 = part(s.take(k1), dance_pred()).len() as int;
    let p2 = part(s.take(k2), dance_pred()).len() as int;
    assert(dance_records()[p1] == s[k1]);
    assert(dance_records()[p2] == s[k2]);
}

/// Law: song records keep their own order within any joint run whose song
/// projection is complete — no title record stands before a learning
/// record, and records of one phase appear with strictly increasing
/// indices.
pub proof fn lemma_join_song_order(s: Seq<Record>, k1: int, k2: int)
    requires
        song_part(s) == song_records(),
        0 <= k1 < k2 < s.len(),
        is_song_record(s[k1]),
        is_song_record(s[k2]),
    ensures
        !(s[k1].label == ActionLabel::SongTitle && s[k2].label == ActionLabel::LearnSong),
        s[k1].label == s[k2].label ==> s[k1].index < s[k2].index,
{
    lemma_part_at(s, song_pred(), k1);
    lemma_part_at(s, song_pred(), k2);
    lemma_part_pos_mono(s, song_pred(), k1 + 1, k2);
    let p1 = part(s.take(k1), song_pred()).len() as int;
    let p2 = part(s.take(k2), song_pred()).len() as int;
    assert(song_records()[p1] == s[k1]);
    assert(song_records()[p2] == s[k2]);
    if p1 < 5 {
        assert(s[k1].label == ActionLabel::LearnSong && s[k1].index == p1 + 1);
    } else {
        assert(s[k1].label == ActionLabel::SongTitle && s[k1].index == p1 - 4);
    }
    if p2 < 5 {
        assert(s[k2].label == ActionLabel::LearnSong && s[k2].index == p2 + 1);
    } else {
        assert(s[k2].label == ActionLabel::SongTitle && s[k2].index == p2 - 4);
    }
}

/// From any mid-run point of a complete run, the merge under the run's own
/// schedule continues exactly as the run does.
proof fn lemma_merge_follows(s: Seq<Record>, t: int)
    requires
        song_part(s) == song_records(),
        dance_part(s) == dance_records(),
        0 <= t <= s.len(),
    ensures
        joined_merge_from(
            schedule_of(s),
            song_part(s.take(t)).len() as int,
            dance_part(s.take(t)).len() as int,
        ) == s.skip(t),
    decreases s.len() - t,
{
    lemma_part_partition(s);
    lemma_part_partition(s.take(t));
    lemma_part_prefix(s, song_pred(), t);
    lemma_part_prefix(s, dance_pred(), t);
    let sd = song_part(s.take(t)).len() as int;
    let dd = dance_part(s.take(t)).len() as int;
    if t == s.len() {
        assert(s.take(t) =~= s);
        assert(joined_merge_from(schedule_of(s), 8, 10) =~= s.skip(t));
    } else {
        lemma_merge_follows(s, t + 1);
        lemma_record_sides(s[t]);
        assert(s.take(t + 1) =~= s.take(t).push(s[t]));
        if is_song_record(s[t]) {
            lemma_part_at(s, song_pred(), t);
            lemma_part_push(s.take(t), dance_pred(), s[t]);
            assert(s[t] == song_records()[sd]);
            assert(joined_merge_from(schedule_of(s), sd, dd) == seq![s[t]] + joined_merge_from(
                schedule_of(s),
                sd + 1,
                dd,
            ));
        } else {
            lemma_part_at(s, dance_pred(), t);
            lemma_part_push(s.take(t), song_pred(), s[t]);
            assert(s[t] == dance_records()[dd]);
            assert(joined_merge_from(schedule_of(s), sd, dd) == seq![s[t]] + joined_merge_from(
                schedule_of(s),
                sd,
                dd + 1,
            ));
        }
        assert(s.skip(t) =~= seq![s[t]] + s.skip(t + 1));
    }
}

/// Law: the two sequences may interleave in any order relative to each
/// other — every run that carries both sequences complete and in order is
/// the joint run under some schedule, namely the one that picks at each
/// tick the side the run itself advances there.
pub proof fn lemma_any_interleaving_admissible(s: Seq<Record>)
    requires
        song_part(s) == song_records(),
        dance_part(s) == dance_records(),
    ensures
        joined_merge(schedule_of(s)) == s,
{
    lemma_merge_follows(s, 0);
    assert(s.take(0) =~= Seq::<Record>::empty());
    assert(part(Seq::<Record>::empty(), song_pred()) =~= Seq::<Record>::empty());
    assert(part(Seq::<Record>::empty(), dance_pred()) =~= Seq::<Record>::empty());
    assert(s.skip(0) =~= s);
}

/// Law: a complete joint run shows the last record of each sequence —
/// `[10/10] dance` and `[3/3] Bury the Light` — and no record oversteps
/// its configured step count: every index lies between 1 and its total.
pub proof fn lemma_join_final_records(s: Seq<Record>)
    requires
        song_part(s) == song_records(),
        dance_part(s) == dance_records(),
    ensures
        s.contains((Record { index: 10, total: 10, label: ActionLabel::Dance })),
        s.contains((Record { index: 3, total: 3, label: ActionLabel::SongTitle })),
        forall|k: int|
            0 <= k < s.len() ==> 1 <= (#[trigger] s[k]).index && s[k].index <= s[k].total,
{
    lemma_part_elements(s, dance_pred());
    lemma_part_elements(s, song_pred());
    assert(dance_records()[9] == (Record { index: 10, total: 10, label: ActionLabel::Dance }));
    assert(dance_part(s).contains((Record { index: 10, total: 10, label: ActionLabel::Dance })));
    assert(song_records()[7] == (Record { index: 3, total: 3, label: ActionLabel::SongTitle }));
    assert(song_part(s).contains((Record { index: 3, total: 3, label: ActionLabel::SongTitle })));
    assert forall|k: int| 0 <= k < s.len() implies 1 <= (#[trigger] s[k]).index && s[k].index
        <= s[k].total by {
        lemma_record_sides(s[k]);
        if is_song_record(s[k]) {
            lemma_part_membership(s, song_pred(), k);
            let j = choose|j: int|
                0 <= j < song_records().len() && song_records()[j] == s[k];
            if j < 5 {
                assert(s[k].index == j + 1 && s[k].total == 5);
            } else {
                assert(s[k].index == j - 4 && s[k].total == 3);
            }
        } else {
            lemma_part_membership(s, dance_pred(), k);
            let j = choose|j: int|
                0 <= j < dance_records().len() && dance_records()[j] == s[k];
            assert(s[k].index == j + 1 && s[k].total == 10);
        }
    }
}

} // verus!
