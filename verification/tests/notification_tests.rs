use cmux_win::notification::{
    chrono_now, epoch_secs, format_duration, send_notification, Notification, NotificationConfig, NotificationService,
    NotificationUrgency,
};

fn service() -> NotificationService {
    NotificationService::try_new(NotificationConfig::default()).expect("fixed patterns compile")
}

#[test]
fn default_config_values() {
    let c = NotificationConfig::default();
    assert!(c.enabled);
    assert!(c.sound_enabled);
    assert_eq!(c.min_duration_secs, 5);
    assert_eq!(c.watch_patterns, vec![r"\$\s*$", r"%\s*$", r">\s*$", r"PS [^>]*>\s*$"]);
}

#[test]
fn format_duration_units() {
    assert_eq!(format_duration(0), "0s");
    assert_eq!(format_duration(59), "59s");
    assert_eq!(format_duration(60), "1m 0s");
    assert_eq!(format_duration(3599), "59m 59s");
    assert_eq!(format_duration(3600), "1h 0m");
    assert_eq!(format_duration(3725), "1h 2m");
    assert_eq!(format_duration(90061), "25h 1m");
}

#[test]
fn send_notification_succeeds() {
    let n = Notification {
        title: "t".to_string(),
        body: "b".to_string(),
        icon: None,
        urgency: NotificationUrgency::Critical,
        terminal_id: "x".to_string(),
        timestamp: 0,
    };
    assert_eq!(send_notification(&n), Ok(()));
}

#[test]
fn chrono_now_is_after_2020() {
    assert!(chrono_now() > 1_577_836_800);
}

#[test]
fn untracked_terminal_gets_nothing() {
    let mut s = service();
    assert!(s.process_output("t1", "\x07").is_none());
}

#[test]
fn bell_notifies() {
    let mut s = service();
    s.register_terminal("t1".to_string());
    let n = s.process_output_at("t1", "ding\x07", 0, 42).unwrap();
    assert_eq!(n.title, "Terminal Alert");
    assert_eq!(n.body, "Terminal t1 sent a bell signal");
    assert_eq!(n.urgency, NotificationUrgency::Normal);
    assert_eq!(n.terminal_id, "t1");
    assert_eq!(n.timestamp, 42);
    assert!(n.icon.is_none());
}

#[test]
fn progress_sequence_reports_bell_first() {
    let mut s = service();
    s.register_terminal("t1".to_string());
    let n = s.process_output_at("t1", "\x1b]9;4;3;50", 0, 7);
    assert!(n.is_none());
    let n = s.process_output_at("t1", "\x1b]9;4;3;50\x07", 0, 7).unwrap();
    assert_eq!(n.title, "Terminal Alert");
}

#[test]
fn plain_output_is_silent() {
    let mut s = service();
    s.register_terminal("t1".to_string());
    assert!(s.process_output_at("t1", "done", 0, 7).is_none());
}

#[test]
fn long_command_notifies_on_prompt() {
    let mut s = service();
    s.register_terminal_at("t1".to_string(), 0);
    assert!(s.process_output_at("t1", "make all\n", 1_000_000_000, 1).is_none());
    let n = s.process_output_at("t1", "built\nuser@host $ ", 8_500_000_000, 2).unwrap();
    assert_eq!(n.title, "Command Complete");
    assert_eq!(n.body, "Finished in 7s");
    assert_eq!(n.timestamp, 2);
    assert_eq!(n.urgency, NotificationUrgency::Normal);
}

#[test]
fn short_command_is_silent() {
    let mut s = service();
    s.register_terminal_at("t1".to_string(), 0);
    assert!(s.process_output_at("t1", "ls\n", 1_000_000_000, 1).is_none());
    assert!(s.process_output_at("t1", "a b c\n$ ", 2_000_000_000, 2).is_none());
    // the prompt ended the command: a later prompt does not notify
    assert!(s.process_output_at("t1", "$ ", 90_000_000_000, 3).is_none());
}

#[test]
fn blank_output_does_not_start_a_command() {
    let mut s = service();
    s.register_terminal_at("t1".to_string(), 0);
    assert!(s.process_output_at("t1", "   \n\t\n", 1_000_000_000, 1).is_none());
    assert!(s.process_output_at("t1", "$ ", 90_000_000_000, 2).is_none());
}

#[test]
fn disabled_service_is_silent() {
    let mut cfg = NotificationConfig::default();
    cfg.enabled = false;
    let mut s = NotificationService::try_new(cfg).unwrap();
    s.register_terminal("t1".to_string());
    assert!(s.process_output("t1", "\x07").is_none());
}

#[test]
fn unregister_stops_notifications() {
    let mut s = service();
    s.register_terminal("t1".to_string());
    s.unregister_terminal("t1");
    assert!(s.process_output("t1", "\x07").is_none());
    s.unregister_terminal("never");
}

#[test]
fn invalid_prompt_patterns_are_refused() {
    let mut cfg = NotificationConfig::default();
    cfg.watch_patterns = vec!["(".to_string()];
    let mut s = NotificationService::try_new(cfg).unwrap();
    assert!(!s.try_register_terminal("t1".to_string()));
    assert!(s.process_output("t1", "\x07").is_none());
}

#[test]
fn update_and_get_config() {
    let mut s = service();
    let mut cfg = NotificationConfig::default();
    cfg.min_duration_secs = 60;
    cfg.sound_enabled = false;
    s.update_config(cfg);
    assert_eq!(s.get_config().min_duration_secs, 60);
    assert!(!s.get_config().sound_enabled);
}

#[test]
fn prompt_on_a_later_line_ends_the_command() {
    // lines are split at "\r\n" and "\n"; the prompt line is found after
    // the command's own output
    let mut s = service();
    s.register_terminal_at("t1".to_string(), 0);
    assert!(s.process_output_at("t1", "cargo build\r\n", 0, 1).is_none());
    let n = s.process_output_at("t1", "Compiling\r\nFinished\r\nC:\\> ", 61_000_000_000, 2).unwrap();
    assert_eq!(n.body, "Finished in 1m 1s");
}

#[test]
fn clock_before_epoch_stamps_zero() {
    assert_eq!(epoch_secs(None), 0);
    assert_eq!(epoch_secs(Some(1_700_000_000)), 1_700_000_000);
}
