use statusline::driver::{complete_job, next_due};
use statusline::module::Module;
use statusline::printer::Printer;
use statusline::registry::{get_module, select_modules, AnyModule, SelectError};
use statusline::schedule::Schedule;

#[test]
fn next_due_on_time_keeps_cadence() {
    assert_eq!(next_due(1000, 900, 1000), 2000);
    assert_eq!(next_due(1000, 1000, 1000), 2000);
}

#[test]
fn next_due_far_behind_reanchors_to_now() {
    assert_eq!(next_due(0, 5000, 1000), 6000);
}

#[test]
fn next_due_slightly_late_keeps_cadence() {
    // late by less than an interval: one interval after the due time
    assert_eq!(next_due(0, 500, 1000), 1000);
    assert_eq!(next_due(0, 1000, 1000), 1000);
}

#[test]
fn single_module_due_times_step_by_interval() {
    let mut s = Schedule::new();
    let mut p = Printer::new(0);
    s.push_job(0, 0);
    let mut dues = Vec::new();
    for _ in 0..3 {
        let job = s.pop().unwrap();
        dues.push(job.timestamp);
        complete_job(&mut s, &mut p, job, job.timestamp, job.timestamp + 5, true, 1000);
    }
    assert_eq!(dues, vec![0, 1000, 2000]);
    assert_eq!(dues[1] - dues[0], 1000);
    assert_eq!(dues[2] - dues[1], 1000);
}

#[test]
fn memory_then_time_first_round_prints_once() {
    let mut modules = match select_modules(&vec![String::from("memory"), String::from("time")]) {
        Ok(m) => m,
        Err(_) => panic!("both names are known"),
    };
    let mut s = Schedule::new();
    let mut p = Printer::new(0);
    s.push_job(0, 0);
    s.push_job(0, 1);
    let mut lines = Vec::new();
    for _ in 0..2 {
        let job = s.pop().unwrap();
        assert_eq!(job.timestamp, 0);
        let status = match &mut modules[job.module_index] {
            AnyModule::Memory(m) => m.update(None),
            AnyModule::Time(t) => t.update_with(String::from("2024-05-01 12:00:00")),
            AnyModule::Cpu(c) => c.update(None),
        };
        let interval = modules[job.module_index].update_interval();
        if complete_job(&mut s, &mut p, job, 0, 0, status.bool(), interval) {
            let parts: Vec<String> =
                modules.iter().map(|m| String::from(m.get_string())).collect();
            lines.push(p.output(&parts));
        }
    }
    assert_eq!(lines, vec![String::from(" 2024-05-01 12:00:00 ")]);
    assert_eq!(s.pop().unwrap().timestamp, 1000);
    assert_eq!(s.pop().unwrap().timestamp, 2000);
}

#[test]
fn unknown_module_name_is_refused() {
    assert!(get_module("disk").is_none());
    match select_modules(&vec![String::from("memory"), String::from("disk"), String::from("x")]) {
        Err(SelectError::UnknownModule(n)) => assert_eq!(n, "disk"),
        Ok(_) => panic!("an unknown name must be refused"),
    }
}

#[test]
fn no_names_select_the_default_list() {
    let m = match select_modules(&vec![]) {
        Ok(m) => m,
        Err(_) => panic!("defaults are known"),
    };
    assert_eq!(m.len(), 3);
    assert!(matches!(m[0], AnyModule::Memory(_)));
    assert!(matches!(m[1], AnyModule::Cpu(_)));
    assert!(matches!(m[2], AnyModule::Time(_)));
    assert_eq!(m[0].update_interval(), 2000);
    assert_eq!(m[1].update_interval(), 1000);
    assert_eq!(m[2].update_interval(), 1000);
}

#[test]
fn names_keep_their_order() {
    let m = match select_modules(&vec![String::from("time"), String::from("cpu")]) {
        Ok(m) => m,
        Err(_) => panic!("both names are known"),
    };
    assert_eq!(m.len(), 2);
    assert!(matches!(m[0], AnyModule::Time(_)));
    assert!(matches!(m[1], AnyModule::Cpu(_)));
    assert!(matches!(get_module("memory"), Some(AnyModule::Memory(_))));
    assert!(get_module("Time").is_none());
    assert!(get_module("").is_none());
}
