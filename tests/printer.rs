use statusline::printer::{Printer, FLUSH_WINDOW_MS};

#[test]
fn window_is_one_hundred_ms() {
    assert_eq!(FLUSH_WINDOW_MS, 100);
}

#[test]
fn new_printer_is_dirty_and_prints_when_nothing_is_near() {
    let mut p = Printer::new(0);
    assert!(p.require_refresh(10, None, false));
    let mut q = Printer::new(0);
    assert!(q.require_refresh(10, Some(500), false));
    let mut r = Printer::new(0);
    assert!(!r.require_refresh(10, Some(50), false));
}

#[test]
fn unchanged_refresh_on_clean_printer_does_not_print() {
    let mut p = Printer::new(0);
    let line = p.output(&vec![String::from("a")]);
    assert_eq!(line, "a ");
    // clean, and the last dirty period began 50 ms ago
    assert!(!p.require_refresh(50, None, false));
    assert!(!p.require_refresh(100, Some(1000), false));
}

#[test]
fn clean_printer_with_old_dirty_start_stays_quiet() {
    let mut p = Printer::new(0);
    p.output(&vec![]);
    assert!(!p.require_refresh(500, Some(510), false));
    assert!(!p.require_refresh(1000, Some(5000), false));
    assert!(!p.require_refresh(2000, None, false));
}

#[test]
fn change_waits_no_longer_than_window() {
    let mut p = Printer::new(0);
    p.output(&vec![]);
    // a change at 1000 with another job due at 1050: defer
    assert!(!p.require_refresh(1000, Some(1050), true));
    // nothing changed at 1050, next job due at 1090: still within window
    assert!(!p.require_refresh(1050, Some(1090), false));
    // at 1101 the change has waited longer than the window
    assert!(p.require_refresh(1101, Some(1110), false));
}

#[test]
fn dirty_start_is_not_moved_by_later_changes() {
    let mut p = Printer::new(0);
    p.output(&vec![]);
    assert!(!p.require_refresh(1000, Some(1060), true));
    assert!(!p.require_refresh(1060, Some(1100), true));
    // dirty since 1000, not 1060
    assert!(p.require_refresh(1101, Some(1120), true));
}

#[test]
fn two_close_refreshes_print_once() {
    let mut p = Printer::new(0);
    p.output(&vec![]);
    let mut flushes = 0;
    if p.require_refresh(2000, Some(2040), true) {
        flushes += 1;
    }
    if p.require_refresh(2040, Some(3000), true) {
        flushes += 1;
    }
    assert_eq!(flushes, 1);
    let line = p.output(&vec![String::from(" 1.00MiB"), String::from("noon")]);
    assert_eq!(line, " 1.00MiB noon ");
}

#[test]
fn next_job_exactly_window_away_defers() {
    let mut p = Printer::new(0);
    p.output(&vec![]);
    assert!(!p.require_refresh(1000, Some(1100), true));
    let mut q = Printer::new(0);
    q.output(&vec![]);
    assert!(q.require_refresh(1000, Some(1101), true));
}

#[test]
fn output_joins_with_trailing_space() {
    let mut p = Printer::new(0);
    assert_eq!(p.output(&vec![]), "");
    assert_eq!(
        p.output(&vec![String::from("x"), String::new(), String::from("yz")]),
        "x  yz "
    );
}
