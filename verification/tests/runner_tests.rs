use song_and_dance::record::{ActionLabel, Record};
use song_and_dance::runner::StepRunner;

#[test]
fn runner_emits_each_index_once() {
    let out = StepRunner::run_all(ActionLabel::Dance, 4);
    assert_eq!(out.len(), 4);
    for (i, r) in out.iter().enumerate() {
        assert_eq!(r.index, i as u32 + 1);
        assert_eq!(r.total, 4);
        assert_eq!(r.label, ActionLabel::Dance);
    }
}

#[test]
fn runner_indices_strictly_increase() {
    let out = StepRunner::run_all(ActionLabel::LearnSong, 7);
    for w in out.windows(2) {
        assert!(w[0].index < w[1].index);
    }
}

#[test]
fn runner_single_step() {
    let out = StepRunner::run_all(ActionLabel::SongTitle, 1);
    assert_eq!(
        out,
        vec![Record { index: 1, total: 1, label: ActionLabel::SongTitle }]
    );
}

#[test]
fn runner_step_by_step() {
    let mut runner = StepRunner::new(ActionLabel::Dance, 2);
    assert!(!runner.is_done());
    let first = runner.emit();
    assert_eq!(first, Record { index: 1, total: 2, label: ActionLabel::Dance });
    assert!(!runner.is_done());
    let second = runner.emit();
    assert_eq!(second, Record { index: 2, total: 2, label: ActionLabel::Dance });
    assert!(runner.is_done());
}
