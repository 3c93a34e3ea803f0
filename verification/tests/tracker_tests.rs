use falling_sand::tracker::MoveTracker;

#[test]
fn a_new_tracker_is_empty() {
    let tracker = MoveTracker::new();
    assert_eq!(tracker.len(), 0);
    assert!(!tracker.is_marked(0, 0));
    assert!(!tracker.is_marked(3, 4));
}

#[test]
fn mark_records_in_order() {
    let mut tracker = MoveTracker::new();
    tracker.mark(3, 4);
    tracker.mark(0, 9);
    tracker.mark(7, 7);
    assert_eq!(tracker.len(), 3);
    assert_eq!(tracker.mark_at(0), (3, 4));
    assert_eq!(tracker.mark_at(1), (0, 9));
    assert_eq!(tracker.mark_at(2), (7, 7));
    assert!(tracker.is_marked(3, 4));
    assert!(tracker.is_marked(0, 9));
    assert!(tracker.is_marked(7, 7));
}

#[test]
fn is_marked_tells_rows_from_columns() {
    let mut tracker = MoveTracker::new();
    tracker.mark(3, 4);
    assert!(tracker.is_marked(3, 4));
    assert!(!tracker.is_marked(4, 3));
    assert!(!tracker.is_marked(3, 3));
    assert!(!tracker.is_marked(4, 4));
}

#[test]
fn clear_forgets_everything() {
    let mut tracker = MoveTracker::new();
    tracker.mark(3, 4);
    tracker.mark(5, 6);
    tracker.clear();
    assert_eq!(tracker.len(), 0);
    assert!(!tracker.is_marked(3, 4));
    assert!(!tracker.is_marked(5, 6));
    tracker.mark(1, 2);
    assert_eq!(tracker.len(), 1);
    assert_eq!(tracker.mark_at(0), (1, 2));
}
