use overmax::model::{Difficulty, Mode};
use overmax::record_changes::RecordChanges;

#[test]
fn changes_start_fully_dirty() {
    let mut c = RecordChanges::new();
    assert_eq!(c.data_revision(), 0);
    let (full, keys) = c.consume_dirty_info();
    assert!(full);
    assert!(keys.is_empty());
    let (full, keys) = c.consume_dirty_info();
    assert!(!full);
    assert!(keys.is_empty());
}

#[test]
fn marked_charts_are_reported_once_each() {
    let mut c = RecordChanges::new();
    let _ = c.consume_dirty_info();
    c.mark_dirty((7, Mode::B5, Difficulty::SC));
    c.mark_dirty((8, Mode::B4, Difficulty::NM));
    c.mark_dirty((7, Mode::B5, Difficulty::SC));
    assert_eq!(c.data_revision(), 3);
    let (full, keys) = c.consume_dirty_info();
    assert!(!full);
    assert_eq!(keys, vec![(7, Mode::B5, Difficulty::SC), (8, Mode::B4, Difficulty::NM)]);
    assert!(c.consume_dirty_info().1.is_empty());
    assert_eq!(c.data_revision(), 3);
}

#[test]
fn reload_marks_everything_and_forgets_single_charts() {
    let mut c = RecordChanges::new();
    let _ = c.consume_dirty_info();
    c.mark_dirty((1, Mode::B8, Difficulty::MX));
    c.mark_all_dirty();
    assert_eq!(c.data_revision(), 2);
    let (full, keys) = c.consume_dirty_info();
    assert!(full);
    assert!(keys.is_empty());
}
