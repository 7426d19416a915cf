use song_and_dance::joiner::run_joined;
use song_and_dance::record::{ActionLabel, Record};

fn song_side(records: &[Record]) -> Vec<Record> {
    records
        .iter()
        .copied()
        .filter(|r| r.label != ActionLabel::Dance)
        .collect()
}

fn dance_side(records: &[Record]) -> Vec<Record> {
    records
        .iter()
        .copied()
        .filter(|r| r.label == ActionLabel::Dance)
        .collect()
}

fn expected_song() -> Vec<Record> {
    let mut v = Vec::new();
    for i in 1..=5 {
        v.push(Record { index: i, total: 5, label: ActionLabel::LearnSong });
    }
    for i in 1..=3 {
        v.push(Record { index: i, total: 3, label: ActionLabel::SongTitle });
    }
    v
}

fn expected_dance() -> Vec<Record> {
    (1..=10)
        .map(|i| Record { index: i, total: 10, label: ActionLabel::Dance })
        .collect()
}

#[test]
fn joined_run_has_eighteen_records() {
    let out = run_joined(&vec![true, false, true, false, true]);
    assert_eq!(out.len(), 18);
}

#[test]
fn joined_run_keeps_each_sequence_complete_and_ordered() {
    // An alternating schedule, the lock-step interleaving the fixed equal
    // intervals produce in practice.
    let alternating: Vec<bool> = (0..18).map(|t| t % 2 == 0).collect();
    let out = run_joined(&alternating);
    assert_eq!(song_side(&out), expected_song());
    assert_eq!(dance_side(&out), expected_dance());
}

#[test]
fn joined_run_contains_both_final_records() {
    let out = run_joined(&Vec::new());
    assert!(out.contains(&Record { index: 10, total: 10, label: ActionLabel::Dance }));
    assert!(out.contains(&Record { index: 3, total: 3, label: ActionLabel::SongTitle }));
    for r in &out {
        assert!(1 <= r.index && r.index <= r.total);
    }
}

#[test]
fn schedules_interleave_differently_but_project_equally() {
    // Song-first: the whole song before any dance record.
    let song_first = run_joined(&vec![true; 8]);
    // Dance-first: the whole dance before any song record.
    let dance_first = run_joined(&vec![false; 10]);
    assert_ne!(song_first, dance_first);
    assert_eq!(song_first[0].label, ActionLabel::LearnSong);
    assert_eq!(dance_first[0].label, ActionLabel::Dance);
    for out in [song_first, dance_first] {
        assert_eq!(out.len(), 18);
        assert_eq!(song_side(&out), expected_song());
        assert_eq!(dance_side(&out), expected_dance());
    }
}

#[test]
fn alternating_schedule_yields_lock_step_merge() {
    let alternating: Vec<bool> = (0..18).map(|t| t % 2 == 0).collect();
    let out = run_joined(&alternating);
    let learn = |i| Record { index: i, total: 5, label: ActionLabel::LearnSong };
    let title = |i| Record { index: i, total: 3, label: ActionLabel::SongTitle };
    let dance = |i| Record { index: i, total: 10, label: ActionLabel::Dance };
    // Song on even ticks, dance on odd ones; the song completes at tick 14,
    // after which the dance runs alone.
    let expected = vec![
        learn(1),
        dance(1),
        learn(2),
        dance(2),
        learn(3),
        dance(3),
        learn(4),
        dance(4),
        learn(5),
        dance(5),
        title(1),
        dance(6),
        title(2),
        dance(7),
        title(3),
        dance(8),
        dance(9),
        dance(10),
    ];
    assert_eq!(out, expected);
}

#[test]
fn short_schedule_still_completes_both() {
    let out = run_joined(&vec![false]);
    assert_eq!(out[0].label, ActionLabel::Dance);
    assert_eq!(out.len(), 18);
    assert_eq!(song_side(&out), expected_song());
    assert_eq!(dance_side(&out), expected_dance());
}
