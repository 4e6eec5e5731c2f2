use ratchet_core::timers::TimerList;

#[test]
fn equal_deadlines_share_one_node() {
    let mut t = TimerList::new();
    assert!(t.insert(100, 1));
    assert!(!t.insert(100, 2));
    assert_eq!(t.len(), 1);
    let fired = t.pop_due(100).unwrap();
    assert_eq!(fired, vec![1, 2]);
    assert_eq!(t.len(), 0);
}

#[test]
fn nearer_deadline_wakes_the_timer_thread() {
    let mut t = TimerList::new();
    assert!(t.insert(50, 1));
    assert!(!t.insert(80, 2));
    assert!(t.insert(20, 3));
    assert_eq!(t.next_deadline(), Some(20));
    assert_eq!(t.len(), 3);
}

#[test]
fn deadlines_come_out_in_order() {
    let mut t = TimerList::new();
    t.insert(30, 1);
    t.insert(10, 2);
    t.insert(20, 3);
    t.insert(10, 4);
    assert_eq!(t.pop_due(5), None);
    assert_eq!(t.pop_due(100), Some(vec![2, 4]));
    assert_eq!(t.pop_due(100), Some(vec![3]));
    assert_eq!(t.pop_due(25), None);
    assert_eq!(t.pop_due(30), Some(vec![1]));
    assert_eq!(t.next_deadline(), None);
}
