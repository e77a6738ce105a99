use std::time::{Duration, Instant};

use snb::status::{parse_proc_status_bytes, BotStatus, MemoryStatus, PlatformStatus, UptimeClock};

fn platform() -> PlatformStatus {
    PlatformStatus { os: "linux", arch: "x86_64", family: "unix" }
}

#[test]
fn parses_proc_status_kib_fields() {
    let status = "Name:\ttest\nVmSize:\t  123 kB\nVmRSS:\t  45 kB\n";

    assert_eq!(parse_proc_status_bytes(status, "VmSize:"), Some(125_952));
    assert_eq!(parse_proc_status_bytes(status, "VmRSS:"), Some(46_080));
}

#[test]
fn bot_status_preserves_runtime_values() {
    let status = BotStatus::collect(Duration::from_secs(42), 7, platform(), MemoryStatus::unavailable());

    assert_eq!(status.uptime, Duration::from_secs(42));
    assert_eq!(status.plugin_count, 7);
    assert_eq!(status.platform, platform());
}

#[test]
fn memory_status_current_is_safe_to_collect() {
    let memory = MemoryStatus::from_proc_status("Name:\tsnb\nVmSize:\t  2048 kB\nVmRSS:\t  1024 kB\n");

    if let Some(resident_bytes) = memory.resident_bytes {
        assert!(resident_bytes > 0);
    }
    if let Some(virtual_bytes) = memory.virtual_bytes {
        assert!(virtual_bytes > 0);
    }
    assert!(memory.is_available());
}

#[test]
fn uptime_clock_reports_elapsed_time() {
    let clock = UptimeClock::with_started_at(Instant::now() - Duration::from_secs(5));

    assert!(clock.elapsed() >= Duration::from_secs(5));
    assert_eq!(clock.collect_status(3, platform(), MemoryStatus::default()).plugin_count, 3);
}

#[test]
fn proc_status_without_the_field_or_unit_gives_nothing() {
    let status = "VmRSS:\t  45 MB\nVmSize: abc kB\n";
    assert_eq!(parse_proc_status_bytes(status, "VmRSS:"), None);
    assert_eq!(parse_proc_status_bytes(status, "VmSize:"), None);
    assert_eq!(parse_proc_status_bytes(status, "VmPeak:"), None);
    let m = MemoryStatus::from_proc_status("");
    assert!(!m.is_available());
    assert_eq!(m, MemoryStatus::unavailable());
}

#[test]
fn proc_status_uses_the_first_matching_line() {
    let status = "VmRSS: 1 kB\r\nVmRSS: 2 kB\n";
    assert_eq!(parse_proc_status_bytes(status, "VmRSS:"), Some(1024));
}

#[test]
fn uptime_clock_keeps_its_start() {
    let start = Instant::now();
    let clock = UptimeClock::with_started_at(start);
    assert_eq!(clock.started_at(), start);
    let fresh = UptimeClock::started_now();
    assert!(fresh.elapsed() < Duration::from_secs(60));
}
