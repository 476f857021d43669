use cava_bg::daemon::{
    child_args, daemon_args, pid_file_text, child_log_line, daemon_log_path, daemon_status, default_config_path, escalation_after_look,
    is_cava_bg_cmdline, is_daemon_pid_file_name, is_supervisor_cmdline, legacy_pid_file_paths,
    log_needs_rotation, output_of_pid_file, parse_i32, parse_pid_text, pid_file_path, pid_file_verdict,
    ps_output_pids, rotated_log_path, runtime_color_socket_path, runtime_outputs_path, split_cmdline,
    stat_is_zombie, stop_outcome, systemctl_reports_active, DaemonStatus, EscalationAction, PidFileError,
    PidFileVerdict, StopOutcome,
};

fn strings(v: &[&str]) -> Vec<String> {
    v.iter().map(|s| s.to_string()).collect()
}

#[test]
fn parse_i32_like_std() {
    assert_eq!(parse_i32("1234"), Some(1234));
    assert_eq!(parse_i32("+7"), Some(7));
    assert_eq!(parse_i32("-2147483648"), Some(i32::MIN));
    assert_eq!(parse_i32("2147483647"), Some(i32::MAX));
    assert_eq!(parse_i32("2147483648"), None);
    assert_eq!(parse_i32(""), None);
    assert_eq!(parse_i32("-"), None);
    assert_eq!(parse_i32("12a"), None);
    assert_eq!(parse_i32(" 12"), None);
}

#[test]
fn pid_file_contents() {
    assert_eq!(parse_pid_text("4242\n"), Ok(Some(4242)));
    assert_eq!(parse_pid_text("  \n"), Ok(None));
    assert_eq!(parse_pid_text(""), Ok(None));
    assert_eq!(parse_pid_text("abc"), Err(PidFileError::InvalidPid));
}

#[test]
fn cmdline_bytes_split_at_nul() {
    let bytes = b"cava-bg\0on\0\0--config\0/x\0";
    assert_eq!(split_cmdline(bytes), strings(&["cava-bg", "on", "--config", "/x"]));
    // Pieces that are not UTF-8 are dropped.
    assert_eq!(split_cmdline(b"a\0\xff\xfe\0b"), strings(&["a", "b"]));
    assert_eq!(split_cmdline(b""), Vec::<String>::new());
}

#[test]
fn daemon_command_lines() {
    assert!(is_cava_bg_cmdline(&strings(&["cava-bg", "on"])));
    assert!(is_cava_bg_cmdline(&strings(&["/usr/bin/cava-bg", "__run", "--supervised"])));
    assert!(!is_cava_bg_cmdline(&strings(&["cava-bg", "off"])));
    assert!(!is_cava_bg_cmdline(&strings(&["cava-bg", "on", "status"])));
    assert!(!is_cava_bg_cmdline(&strings(&["on"])));
    assert!(!is_cava_bg_cmdline(&strings(&["vim", "notes"])));
}

#[test]
fn supervisor_command_lines() {
    assert!(is_supervisor_cmdline(&strings(&["cava-bg", "__supervisor", "--config", "/c"])));
    assert!(!is_supervisor_cmdline(&strings(&["__supervisor"])));
    assert!(!is_supervisor_cmdline(&strings(&["cava-bg", "on"])));
}

#[test]
fn zombie_state_is_third_field() {
    assert!(stat_is_zombie("1234 (cava-bg) Z 1 1 1"));
    assert!(!stat_is_zombie("1234 (cava-bg) S 1 1 1"));
    assert!(!stat_is_zombie("1234 (cava-bg)"));
}

#[test]
fn single_instance_verdicts() {
    assert_eq!(pid_file_verdict(Some(5), true, true), PidFileVerdict::AnotherInstance);
    assert_eq!(pid_file_verdict(Some(5), true, false), PidFileVerdict::RemoveForeign);
    assert_eq!(pid_file_verdict(Some(5), false, true), PidFileVerdict::RemoveDead);
    assert_eq!(pid_file_verdict(None, true, true), PidFileVerdict::RemoveEmpty);
}

#[test]
fn off_outcomes() {
    assert_eq!(stop_outcome(true, 3), StopOutcome::Stopped);
    assert_eq!(stop_outcome(false, 1), StopOutcome::SomeFailed);
    assert_eq!(stop_outcome(false, 0), StopOutcome::NothingRunning);
}

#[test]
fn systemctl_active_reply() {
    assert!(systemctl_reports_active("active\n"));
    assert!(!systemctl_reports_active("inactive\n"));
    assert!(!systemctl_reports_active("activating"));
}

#[test]
fn daemon_file_locations() {
    assert_eq!(pid_file_path("/home/u", None), "/home/u/.config/cava-bg/daemon.pid");
    assert_eq!(pid_file_path("/home/u", Some("DP-1")), "/home/u/.config/cava-bg/daemon.DP-1.pid");
    assert_eq!(daemon_log_path("/home/u", None), "/home/u/.config/cava-bg/daemon.log");
    assert_eq!(daemon_log_path("/home/u", Some("HDMI-A-1")), "/home/u/.config/cava-bg/daemon.HDMI-A-1.log");
    assert_eq!(default_config_path("/home/u"), "/home/u/.config/cava-bg/config.toml");
    assert_eq!(
        legacy_pid_file_paths("/home/u"),
        strings(&["/home/u/.config/cava-bg/cava-bg.pid", "/tmp/cava-bg.pid"])
    );
    assert_eq!(rotated_log_path("/l/daemon.log"), "/l/daemon.log.old");
    assert_ne!(pid_file_path("/h", Some("DP-1")), pid_file_path("/h", Some("DP-2")));
    assert_ne!(pid_file_path("/h", Some("")), pid_file_path("/h", None));
}

#[test]
fn runtime_files_sit_beside_config() {
    assert_eq!(runtime_outputs_path("/home/u/.config/cava-bg/config.toml"), "/home/u/.config/cava-bg/runtime-outputs.json");
    assert_eq!(runtime_color_socket_path("/etc/c.toml"), "/etc/runtime-color-update.sock");
    assert_eq!(runtime_outputs_path("/"), "/tmp/runtime-outputs.json");
    assert_eq!(runtime_outputs_path("config.toml"), "runtime-outputs.json");
}

#[test]
fn per_output_pid_file_names() {
    assert!(is_daemon_pid_file_name("daemon.DP-1.pid"));
    assert!(is_daemon_pid_file_name("daemon.pid"));
    assert!(!is_daemon_pid_file_name("daemon.log"));
    assert_eq!(output_of_pid_file("daemon.DP-1.pid"), Some("DP-1".to_string()));
    assert_eq!(output_of_pid_file("daemon.pid"), None);
    assert_eq!(output_of_pid_file("daemon..pid"), Some(String::new()));
    assert_eq!(output_of_pid_file("cava-bg.pid"), None);
}

#[test]
fn log_rotation_threshold() {
    assert!(!log_needs_rotation(1_048_576));
    assert!(log_needs_rotation(1_048_577));
}

#[test]
fn ps_lines_give_daemon_pids() {
    let out = "USER PID %CPU\n\
               u 100 0.0 cava-bg on\n\
               u 101 0.0 grep cava-bg\n\
               u 102 0.0 cava-bg off\n\
               u 100 0.0 cava-bg __run\n\
               u 7 0.0 /usr/bin/cava-bg __supervisor\n\
               u x 0.0 cava-bg on\n\
               u 55 0.0 cava-bg gui\n\
               u 0 0.0 cava-bg on\n";
    assert_eq!(ps_output_pids(out, 55), vec![100, 7]);
    assert_eq!(ps_output_pids("", 1), Vec::<i32>::new());
}

#[test]
fn stop_escalation_schedule() {
    assert_eq!(escalation_after_look(0, false), EscalationAction::Stopped);
    assert_eq!(escalation_after_look(0, true), EscalationAction::Wait);
    assert_eq!(escalation_after_look(19, true), EscalationAction::WaitThenKill);
    assert_eq!(escalation_after_look(20, true), EscalationAction::Wait);
    assert_eq!(escalation_after_look(29, true), EscalationAction::WaitThenGiveUp);
    assert_eq!(escalation_after_look(29, false), EscalationAction::Stopped);
}

#[test]
fn status_summary() {
    assert_eq!(daemon_status(Some(9), true, true, false), DaemonStatus::Supervisor(9));
    assert_eq!(daemon_status(Some(9), true, false, true), DaemonStatus::Daemon(9));
    assert_eq!(daemon_status(Some(9), false, true, true), DaemonStatus::PerOutputOnly);
    assert_eq!(daemon_status(None, false, false, false), DaemonStatus::Stopped);
}

#[test]
fn supervised_child_arguments() {
    assert_eq!(
        child_args("/c.toml", "DP-1", false),
        strings(&["__run", "--supervised", "--config", "/c.toml", "--output", "DP-1"])
    );
    assert_eq!(
        child_args("/c.toml", "DP-1", true),
        strings(&["__run", "--supervised", "--config", "/c.toml", "--output", "DP-1", "--systemd"])
    );
}

#[test]
fn child_lines_are_tagged_with_output() {
    assert_eq!(
        child_log_line("DP-1", "[2024 INFO cava_bg] started] ok"),
        "[2024 INFO cava_bg] [DP-1] started] ok"
    );
    assert_eq!(child_log_line("DP-1", "plain line"), "[DP-1] plain line");
    assert_eq!(child_log_line("DP-1", ""), "[DP-1] ");
}

#[test]
fn pid_file_text_reads_back() {
    assert_eq!(pid_file_text(4242), "4242\n");
    assert_eq!(pid_file_text(0), "0\n");
    assert_eq!(parse_pid_text(&pid_file_text(4242)), Ok(Some(4242)));
    assert_eq!(parse_pid_text(&pid_file_text(2147483647)), Ok(Some(i32::MAX)));
    // A process id beyond i32 does not read back.
    assert_eq!(parse_pid_text(&pid_file_text(2147483648)), Err(PidFileError::InvalidPid));
}

#[test]
fn background_daemon_arguments() {
    assert_eq!(daemon_args("/c.toml", Some("DP-1"), true), strings(&["__run", "--config", "/c.toml", "--output", "DP-1"]));
    assert_eq!(daemon_args("/c.toml", None, true), strings(&["__supervisor", "--config", "/c.toml"]));
    assert_eq!(daemon_args("/c.toml", None, false), strings(&["__run", "--config", "/c.toml"]));
}
