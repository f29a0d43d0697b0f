use statusline::cpu::CpuModule;
use statusline::memory::{extract_from_lines, MemoryModule};
use statusline::module::{Module, UpdateStatus};
use statusline::text::{parse_i64, parse_u64, split_ascii_ws, starts_with};
use statusline::time::{TimeModule, LATEST_CLOCK_SECS};
use statusline::units::format_bytes;

fn lines(v: &[&str]) -> Vec<String> {
    v.iter().map(|s| String::from(*s)).collect()
}

#[test]
fn update_status_to_bool() {
    assert!(UpdateStatus::All.bool());
    assert!(UpdateStatus::Partial.bool());
    assert!(!UpdateStatus::Unchanged.bool());
    let b: bool = UpdateStatus::Unchanged.into();
    assert!(!b);
    assert!(bool::from(UpdateStatus::Partial));
}

#[test]
fn format_bytes_values() {
    assert_eq!(format_bytes(0), "0.00B");
    assert_eq!(format_bytes(1023), "1023.00B");
    assert_eq!(format_bytes(1024), "1.00KiB");
    assert_eq!(format_bytes(1536), "1.50KiB");
    assert_eq!(format_bytes(1152), "1.12KiB");
    assert_eq!(format_bytes(1048575), "1024.00KiB");
    assert_eq!(format_bytes(1048576), "1.00MiB");
    assert_eq!(format_bytes(8192000), "7.81MiB");
    assert_eq!(format_bytes(u64::MAX), "16.00EiB");
}

#[test]
fn parse_numbers() {
    assert_eq!(parse_u64("42"), Some(42));
    assert_eq!(parse_u64("+7"), Some(7));
    assert_eq!(parse_u64("-7"), None);
    assert_eq!(parse_u64(""), None);
    assert_eq!(parse_u64("1a"), None);
    assert_eq!(parse_u64("18446744073709551615"), Some(u64::MAX));
    assert_eq!(parse_u64("18446744073709551616"), None);
    assert_eq!(parse_i64("-9223372036854775808"), Some(i64::MIN));
    assert_eq!(parse_i64("9223372036854775807"), Some(i64::MAX));
    assert_eq!(parse_i64("9223372036854775808"), None);
    assert_eq!(parse_i64("-"), None);
    assert_eq!(parse_i64("-12"), Some(-12));
}

#[test]
fn split_and_prefix() {
    assert_eq!(split_ascii_ws("  MemTotal:\t 16 kB \n"), vec!["MemTotal:", "16", "kB"]);
    assert!(split_ascii_ws(" \t ").is_empty());
    assert!(starts_with("MemFree: 1", "MemFree:"));
    assert!(!starts_with("Mem", "MemFree:"));
}

#[test]
fn extract_reads_all_keys() {
    let src = lines(&["MemTotal: 16 kB", "Junk: 1", "MemFree: 4 kB"]);
    let keys = vec!["MemTotal:", "MemFree:"];
    let mut out = vec![-1i64, -1];
    assert_eq!(extract_from_lines(&src, &keys, &mut out), UpdateStatus::All);
    assert_eq!(out, vec![16, 4]);
}

#[test]
fn extract_partial_and_none() {
    let keys = vec!["MemTotal:", "MemFree:"];
    let mut out = vec![0i64, 0];
    let src = lines(&["MemFree: x kB", "MemFree: 9 kB"]);
    assert_eq!(extract_from_lines(&src, &keys, &mut out), UpdateStatus::Partial);
    assert_eq!(out, vec![0, 9]);
    let mut out2 = vec![3i64, 5];
    assert_eq!(extract_from_lines(&lines(&["a b"]), &keys, &mut out2), UpdateStatus::Unchanged);
    assert_eq!(out2, vec![3, 5]);
}

#[test]
fn extract_counts_each_key_once() {
    let keys = vec!["A:", "B:"];
    let mut out = vec![0i64, 0];
    let src = lines(&["A: 1", "A: 2"]);
    assert_eq!(extract_from_lines(&src, &keys, &mut out), UpdateStatus::Partial);
    assert_eq!(out, vec![2, 0]);
    let mut out2 = vec![0i64, 0];
    let src2 = lines(&["A: 1", "A: 2", "B: 3", "A: 4"]);
    assert_eq!(extract_from_lines(&src2, &keys, &mut out2), UpdateStatus::All);
    assert_eq!(out2, vec![2, 3]);
}

#[test]
fn extract_leaves_entries_past_the_keys() {
    let keys = vec!["A:"];
    let mut out = vec![0i64, 7, 8];
    assert_eq!(extract_from_lines(&lines(&["A: 5"]), &keys, &mut out), UpdateStatus::All);
    assert_eq!(out, vec![5, 7, 8]);
    let mut none = vec![1i64];
    assert_eq!(extract_from_lines(&lines(&["A: 5"]), &vec![], &mut none), UpdateStatus::Unchanged);
    assert_eq!(none, vec![1]);
}

#[test]
fn memory_module_shows_used_memory() {
    let mut m = MemoryModule::new();
    assert_eq!(m.get_string(), "");
    let src = lines(&[
        "MemTotal:       16000 kB",
        "MemFree:         4000 kB",
        "MemAvailable:    9000 kB",
        "Buffers:         1000 kB",
        "Cached:          3000 kB",
    ]);
    assert_eq!(m.update(Some(&src)), UpdateStatus::All);
    assert_eq!(m.get_string(), " 7.81MiB");
    assert_eq!(m.update_interval(), 2000);
}

#[test]
fn memory_module_partial_and_failed_reads() {
    let mut m = MemoryModule::new();
    assert_eq!(m.update(Some(&lines(&["MemTotal: 16000 kB"]))), UpdateStatus::Partial);
    assert_eq!(m.get_string(), " 15.62MiB");
    assert_eq!(m.update(None), UpdateStatus::Unchanged);
    assert_eq!(m.get_string(), " 15.62MiB");
    assert_eq!(m.update(Some(&lines(&[]))), UpdateStatus::Unchanged);
    assert_eq!(m.get_string(), " 15.62MiB");
}

#[test]
fn memory_module_negative_use_shows_zero() {
    let mut m = MemoryModule::new();
    let src = lines(&["MemTotal: 1 kB", "MemFree: 2 kB", "Buffers: 0 kB", "Cached: 0 kB"]);
    assert_eq!(m.update(Some(&src)), UpdateStatus::All);
    assert_eq!(m.get_string(), " 0.00B");
}

#[test]
fn cpu_module_load_between_readings() {
    let mut c = CpuModule::new();
    assert_eq!(c.get_string(), "");
    assert_eq!(c.update(Some("cpu  100 0 100 700 100 0 0 0 0 0")), UpdateStatus::All);
    assert_eq!(c.get_string(), " 20.00%");
    assert_eq!(c.update(Some("cpu  100 0 100 700 100 0 0 0 0 0")), UpdateStatus::Unchanged);
    assert_eq!(c.get_string(), " 20.00%");
    assert_eq!(c.update(Some("cpu  400 0 100 1400 100 0 0 0 0 0")), UpdateStatus::All);
    assert_eq!(c.get_string(), " 30.00%");
    assert_eq!(c.update_interval(), 1000);
}

#[test]
fn cpu_module_bad_lines() {
    let mut c = CpuModule::new();
    assert_eq!(c.update(None), UpdateStatus::Unchanged);
    assert_eq!(c.update(Some("cpu 1 2 3")), UpdateStatus::Unchanged);
    assert_eq!(c.get_string(), "");
    assert_eq!(CpuModule::get_status("cpu 1 x 2 3 4 5 6 7 8 9 10 11"), Some(vec![1, 2, 3, 4, 5, 6, 7, 8, 9, 10]));
    assert_eq!(CpuModule::get_status(""), None);
}

#[test]
fn time_module_shows_given_and_current_time() {
    let mut t = TimeModule::new();
    assert_eq!(t.get_string(), "");
    assert_eq!(t.update_with(String::from("noon")), UpdateStatus::All);
    assert_eq!(t.get_string(), "noon");
    assert_eq!(t.update(1_700_000_000, 0), UpdateStatus::All);
    assert!(t.get_string().len() > 10);
    assert!(t.get_string().starts_with("2023-11-1"));
    assert_eq!(t.update_interval(), 1000);
}

#[test]
fn time_module_refuses_out_of_range_clock() {
    let mut t = TimeModule::new();
    assert_eq!(t.update_with(String::from("noon")), UpdateStatus::All);
    assert_eq!(t.update(-1, 0), UpdateStatus::Unchanged);
    assert_eq!(t.get_string(), "noon");
    assert_eq!(t.update(LATEST_CLOCK_SECS + 1, 0), UpdateStatus::Unchanged);
    assert_eq!(t.update(0, 1_000_000_000), UpdateStatus::Unchanged);
    assert_eq!(t.get_string(), "noon");
    assert_eq!(t.update(LATEST_CLOCK_SECS, 999_999_999), UpdateStatus::All);
    assert!(!t.get_string().is_empty());
    assert_ne!(t.get_string(), "noon");
}
