use statusline::schedule::{Job, Schedule};

#[test]
fn pop_returns_earliest_of_any_push_order() {
    let mut s = Schedule::new();
    s.push_job(300, 0);
    s.push_job(100, 1);
    s.push_job(200, 2);
    s.push_job(50, 3);
    assert_eq!(s.next_timestamp(), Some(50));
    let mut seen = Vec::new();
    while let Some(j) = s.pop() {
        seen.push(j.timestamp);
    }
    assert_eq!(seen, vec![50, 100, 200, 300]);
}

#[test]
fn equal_due_times_pop_in_push_order() {
    let mut s = Schedule::new();
    s.push_job(10, 2);
    s.push_job(10, 0);
    s.push_job(5, 7);
    s.push_job(10, 1);
    assert_eq!(s.pop(), Some(Job { timestamp: 5, module_index: 7 }));
    assert_eq!(s.pop(), Some(Job { timestamp: 10, module_index: 2 }));
    assert_eq!(s.pop(), Some(Job { timestamp: 10, module_index: 0 }));
    assert_eq!(s.pop(), Some(Job { timestamp: 10, module_index: 1 }));
    assert_eq!(s.pop(), None);
}

#[test]
fn empty_schedule_has_nothing() {
    let mut s = Schedule::new();
    assert_eq!(s.next_timestamp(), None);
    assert_eq!(s.pop(), None);
}

#[test]
fn next_timestamp_does_not_remove() {
    let mut s = Schedule::new();
    s.push_job(u64::MAX, 0);
    s.push_job(0, 1);
    assert_eq!(s.next_timestamp(), Some(0));
    assert_eq!(s.next_timestamp(), Some(0));
    assert_eq!(s.pop(), Some(Job { timestamp: 0, module_index: 1 }));
    assert_eq!(s.next_timestamp(), Some(u64::MAX));
}
