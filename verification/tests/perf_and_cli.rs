use cava_bg::cli::{Cli, Command};
use cava_bg::config_model::BarShape;
use cava_bg::geometry::vertices_per_bar;
use cava_bg::perf::{PerfMonitor, PerfStats};
use std::time::Instant;

fn stats(min: u128, max: u128, avg: u128, samples: usize) -> PerfStats {
    PerfStats { min_nanos: min, max_nanos: max, avg_nanos: avg, samples }
}

#[test]
fn empty_window_stats() {
    let m = PerfMonitor::new(0, 0, true);
    assert_eq!(m.stats(), stats(9_999_000_000_000, 0, 0, 0));
}

#[test]
fn stats_are_min_max_and_floor_mean() {
    let mut m = PerfMonitor::new(16, 5, true);
    m.record(16_000_000);
    m.record(17_000_000);
    m.record(20_000_001);
    assert_eq!(m.stats(), stats(16_000_000, 20_000_001, 17_666_667, 3));
}

#[test]
fn mean_lies_between_min_and_max() {
    let mut m = PerfMonitor::new(8, 1, true);
    for d in [5u128, 9, 1, 7, 3] {
        m.record(d);
    }
    let s = m.stats();
    assert!(s.min_nanos <= s.avg_nanos && s.avg_nanos <= s.max_nanos);
    assert_eq!(s, stats(1, 9, 5, 5));
}

#[test]
fn frames_beyond_u64_nanoseconds_are_recorded() {
    // A frame of `u64::MAX` seconds (the longest `Duration` in whole seconds).
    let long = std::time::Duration::from_secs(u64::MAX).as_nanos();
    let mut m = PerfMonitor::new(8, 1, true);
    m.record(long);
    assert_eq!(m.stats(), stats(9_999_000_000_000, long, long, 1));
}

#[test]
fn window_keeps_newest_frames() {
    // Fewer than eight slots are raised to eight.
    let mut m = PerfMonitor::new(2, 1, true);
    for d in 1u128..=10 {
        m.record(d);
    }
    // The window holds frames 3..=10.
    assert_eq!(m.stats(), stats(3, 10, 6, 8));
}

#[test]
fn disabled_monitor_records_nothing() {
    let mut m = PerfMonitor::new(8, 1, false);
    m.record(5);
    assert_eq!(m.stats().samples, 0);
    assert_eq!(m.maybe_log_at(10_000_000_000, Instant::now()), None);
}

#[test]
fn reconfigure_trims_oldest_frames() {
    let mut m = PerfMonitor::new(20, 1, true);
    for d in 1u128..=12 {
        m.record(d);
    }
    m.reconfigure(9, 1, true);
    assert_eq!(m.stats(), stats(4, 12, 8, 9));
}

#[test]
fn summary_waits_for_interval() {
    let mut m = PerfMonitor::new(8, 2, true);
    assert_eq!(m.maybe_log_at(5_000_000_000, Instant::now()), None);
    m.record(10);
    m.record(20);
    assert_eq!(m.maybe_log_at(1_999_999_999, Instant::now()), None);
    assert_eq!(m.maybe_log_at(2_000_000_000, Instant::now()), Some(stats(10, 20, 15, 2)));
}

#[test]
fn summary_from_clock_is_stats_or_nothing() {
    let mut m = PerfMonitor::new(8, 1, true);
    m.record(4);
    match m.maybe_log() {
        Some(s) => assert_eq!(s, stats(4, 4, 4, 1)),
        None => {}
    }
}

#[test]
fn vertex_counts_per_shape() {
    assert_eq!(vertices_per_bar(BarShape::Rectangle, 0), 6);
    assert_eq!(vertices_per_bar(BarShape::Line, 100), 6);
    assert_eq!(vertices_per_bar(BarShape::Triangle, 3), 9);
    assert_eq!(vertices_per_bar(BarShape::Circle, 3), 30);
    assert_eq!(vertices_per_bar(BarShape::Circle, 16), 54);
}

#[test]
fn cli_without_subcommand() {
    let cli = Cli::parse(None, None, true, Some("DP-1"), Some("/c.toml"));
    assert!(cli.command.is_none());
    assert!(cli.debug);
    assert_eq!(cli.output.as_deref(), Some("DP-1"));
    assert_eq!(cli.config.as_deref(), Some("/c.toml"));
}

#[test]
fn cli_subcommands_map_to_commands() {
    assert!(matches!(Cli::parse(Some("on"), None, false, None, None).command, Some(Command::On)));
    assert!(matches!(Cli::parse(Some("off"), None, false, None, None).command, Some(Command::Off)));
    assert!(matches!(Cli::parse(Some("kill"), None, false, None, None).command, Some(Command::Kill)));
    assert!(matches!(Cli::parse(Some("restart"), None, false, None, None).command, Some(Command::Restart)));
    assert!(matches!(Cli::parse(Some("status"), None, false, None, None).command, Some(Command::Status)));
    assert!(matches!(Cli::parse(Some("outputs"), None, false, None, None).command, Some(Command::Outputs)));
    assert!(matches!(Cli::parse(Some("gui"), None, false, None, None).command, Some(Command::Gui)));
    assert!(matches!(Cli::parse(Some("__run"), None, false, None, None).command, Some(Command::__Run)));
    assert!(matches!(Cli::parse(Some("__supervisor"), None, false, None, None).command, Some(Command::__Supervisor)));
    match Cli::parse(Some("output-on"), Some("HDMI-A-1"), false, None, None).command {
        Some(Command::OutputOn { output }) => assert_eq!(output, "HDMI-A-1"),
        _ => panic!("expected output-on"),
    }
    match Cli::parse(Some("output-off"), Some("DP-2"), false, None, None).command {
        Some(Command::OutputOff { output }) => assert_eq!(output, "DP-2"),
        _ => panic!("expected output-off"),
    }
}
