use song_and_dance::record::{label_text, ActionLabel, Record};
use song_and_dance::render::{render_line, u32_digits};

#[test]
fn labels_render_as_their_text() {
    assert_eq!(label_text(ActionLabel::LearnSong), b"learn song".to_vec());
    assert_eq!(label_text(ActionLabel::SongTitle), b"Bury the Light".to_vec());
    assert_eq!(label_text(ActionLabel::Dance), b"dance".to_vec());
}

#[test]
fn digits_render_in_decimal() {
    assert_eq!(u32_digits(0), b"0".to_vec());
    assert_eq!(u32_digits(7), b"7".to_vec());
    assert_eq!(u32_digits(10), b"10".to_vec());
    assert_eq!(u32_digits(407), b"407".to_vec());
    assert_eq!(u32_digits(u32::MAX), b"4294967295".to_vec());
}

#[test]
fn lines_render_index_total_and_label() {
    let learn = Record { index: 1, total: 5, label: ActionLabel::LearnSong };
    assert_eq!(render_line(&learn), b"[1/5] learn song".to_vec());
    let sing = Record { index: 3, total: 3, label: ActionLabel::SongTitle };
    assert_eq!(render_line(&sing), b"[3/3] Bury the Light".to_vec());
    let dance = Record { index: 10, total: 10, label: ActionLabel::Dance };
    assert_eq!(render_line(&dance), b"[10/10] dance".to_vec());
}

#[test]
fn wide_counts_render_every_digit() {
    let r = Record { index: 12, total: 345, label: ActionLabel::Dance };
    assert_eq!(render_line(&r), b"[12/345] dance".to_vec());
}
