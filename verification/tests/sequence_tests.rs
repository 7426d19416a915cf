use song_and_dance::record::{ActionLabel, Record};
use song_and_dance::sequence::{DanceSequence, SongSequence};

fn drive_song() -> Vec<Record> {
    let mut song = SongSequence::new();
    let mut out = Vec::new();
    while !song.is_done() {
        out.push(song.emit());
    }
    out
}

fn drive_dance() -> Vec<Record> {
    let mut dance = DanceSequence::new();
    let mut out = Vec::new();
    while !dance.is_done() {
        out.push(dance.emit());
    }
    out
}

#[test]
fn song_emits_five_learn_then_three_title() {
    let out = drive_song();
    assert_eq!(out.len(), 8);
    for i in 0..5u32 {
        assert_eq!(
            out[i as usize],
            Record { index: i + 1, total: 5, label: ActionLabel::LearnSong }
        );
    }
    for i in 0..3u32 {
        assert_eq!(
            out[5 + i as usize],
            Record { index: i + 1, total: 3, label: ActionLabel::SongTitle }
        );
    }
}

#[test]
fn song_title_starts_only_after_learning() {
    let out = drive_song();
    let first_title = out
        .iter()
        .position(|r| r.label == ActionLabel::SongTitle)
        .expect("the title is sung");
    let last_learn = out
        .iter()
        .rposition(|r| r.label == ActionLabel::LearnSong)
        .expect("the song is learned");
    assert!(last_learn < first_title);
    assert_eq!(out[last_learn].index, 5);
}

#[test]
fn dance_emits_ten_records() {
    let out = drive_dance();
    assert_eq!(out.len(), 10);
    for i in 0..10u32 {
        assert_eq!(
            out[i as usize],
            Record { index: i + 1, total: 10, label: ActionLabel::Dance }
        );
    }
}
