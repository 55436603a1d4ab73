use std::time::Duration;

use chrono::{Timelike, Utc};
use ironclaw::heartbeat::{
    alert_text, build_heartbeat_messages, classify_reply, gate_checklist, notify_user,
    quiet_window_contains, resolve_max_tokens, FailureTracker, HeartbeatConfig, HeartbeatResult,
    HeartbeatStep,
};
use ironclaw::llm::Role;

#[test]
fn test_heartbeat_config_defaults() {
    let config = HeartbeatConfig::default();
    assert!(config.enabled);
    assert_eq!(config.interval, Duration::from_secs(30 * 60));
    assert_eq!(config.max_failures, 3);
}

#[test]
fn test_heartbeat_config_builders() {
    let config = HeartbeatConfig::default()
        .with_interval(Duration::from_secs(60))
        .with_notify("user1", "telegram");

    assert_eq!(config.interval, Duration::from_secs(60));
    assert_eq!(config.notify_user_id, Some("user1".to_string()));
    assert_eq!(config.notify_channel, Some("telegram".to_string()));

    let disabled = HeartbeatConfig::default().disabled();
    assert!(!disabled.enabled);
}

#[test]
fn test_quiet_hours_inside() {
    let now_utc = Utc::now();
    let hour = now_utc.hour();
    let start = hour;
    let end = (hour + 1) % 24;

    let config = HeartbeatConfig {
        quiet_hours_start: Some(start),
        quiet_hours_end: Some(end),
        timezone: Some("UTC".to_string()),
        ..HeartbeatConfig::default()
    };
    assert!(config.is_quiet_hours());
}

#[test]
fn test_quiet_hours_outside() {
    let now_utc = Utc::now();
    let hour = now_utc.hour();
    let start = (hour + 1) % 24;
    let end = (hour + 2) % 24;

    let config = HeartbeatConfig {
        quiet_hours_start: Some(start),
        quiet_hours_end: Some(end),
        timezone: Some("UTC".to_string()),
        ..HeartbeatConfig::default()
    };
    assert!(!config.is_quiet_hours());
}

#[test]
fn test_quiet_hours_wraparound_excludes_now() {
    let now_utc = Utc::now();
    let hour = now_utc.hour();
    let start = (hour + 1) % 24;
    let end = hour;

    let config = HeartbeatConfig {
        quiet_hours_start: Some(start),
        quiet_hours_end: Some(end),
        timezone: Some("UTC".to_string()),
        ..HeartbeatConfig::default()
    };
    assert!(!config.is_quiet_hours());
}

#[test]
fn test_quiet_hours_none_configured() {
    let config = HeartbeatConfig::default();
    assert!(!config.is_quiet_hours());
}

#[test]
fn test_quiet_hours_same_start_end() {
    let config = HeartbeatConfig {
        quiet_hours_start: Some(10),
        quiet_hours_end: Some(10),
        timezone: Some("UTC".to_string()),
        ..HeartbeatConfig::default()
    };
    assert!(!config.is_quiet_hours());
}

#[test]
fn quiet_window_plain_and_wrapping() {
    assert!(quiet_window_contains(9, 17, 9));
    assert!(quiet_window_contains(9, 17, 16));
    assert!(!quiet_window_contains(9, 17, 17));
    assert!(!quiet_window_contains(9, 17, 3));
    assert!(quiet_window_contains(22, 6, 23));
    assert!(quiet_window_contains(22, 6, 0));
    assert!(quiet_window_contains(22, 6, 5));
    assert!(!quiet_window_contains(22, 6, 6));
    assert!(!quiet_window_contains(22, 6, 12));
    assert!(!quiet_window_contains(10, 10, 10));
}

#[test]
fn quiet_hours_unknown_zone_falls_back_to_utc() {
    let hour = Utc::now().hour();
    let config = HeartbeatConfig {
        quiet_hours_start: Some(hour),
        quiet_hours_end: Some((hour + 1) % 24),
        timezone: Some("Not/AZone".to_string()),
        ..HeartbeatConfig::default()
    };
    // Falls back to UTC; the window holds the current UTC hour unless the
    // hour turned between the two clock reads.
    let after = Utc::now().hour();
    if after == hour {
        assert!(config.is_quiet_hours());
    }
}

#[test]
fn classify_reply_cases() {
    assert!(matches!(classify_reply(Ok("HEARTBEAT_OK")), HeartbeatResult::AllOk));
    assert!(matches!(
        classify_reply(Ok("  all good: HEARTBEAT_OK  ")),
        HeartbeatResult::AllOk
    ));
    match classify_reply(Ok("   \n  ")) {
        HeartbeatResult::Failed(e) => assert_eq!(e, "LLM returned empty content."),
        _ => panic!("expected failure"),
    }
    match classify_reply(Ok("  Disk is 95% full\n")) {
        HeartbeatResult::NeedsAttention(m) => assert_eq!(m, "Disk is 95% full"),
        _ => panic!("expected finding"),
    }
    match classify_reply(Err("timeout")) {
        HeartbeatResult::Failed(e) => assert_eq!(e, "LLM call failed: timeout"),
        _ => panic!("expected failure"),
    }
}

#[test]
fn gate_checklist_cases() {
    assert_eq!(
        gate_checklist(Ok(Some("- [ ] check mail".to_string())), false).ok(),
        Some("- [ ] check mail".to_string())
    );
    assert!(matches!(
        gate_checklist(Ok(Some("# Title".to_string())), true),
        Err(HeartbeatResult::Skipped)
    ));
    assert!(matches!(gate_checklist(Ok(None), false), Err(HeartbeatResult::Skipped)));
    match gate_checklist(Err("disk error".to_string()), false) {
        Err(HeartbeatResult::Failed(e)) => assert_eq!(e, "Failed to read checklist: disk error"),
        _ => panic!("expected failure"),
    }
}

#[test]
fn heartbeat_messages_with_and_without_system_prompt() {
    let expected = "Read the HEARTBEAT.md checklist below and follow it strictly. \
         Do not infer or repeat old tasks. Check each item and report findings.\n\
         \n\
         If nothing needs attention, reply EXACTLY with: HEARTBEAT_OK\n\
         \n\
         If something needs attention, provide a concise summary of what needs action.\n\
         \n\
         ## HEARTBEAT.md\n\
         \n\
         - [ ] item";
    let with = build_heartbeat_messages(Ok("You are helpful.".to_string()), "- [ ] item");
    assert_eq!(with.len(), 2);
    assert_eq!(with[0].role, Role::System);
    assert_eq!(with[0].content, "You are helpful.");
    assert_eq!(with[1].role, Role::User);
    assert_eq!(with[1].content, expected);

    let empty = build_heartbeat_messages(Ok(String::new()), "- [ ] item");
    assert_eq!(empty.len(), 1);
    assert_eq!(empty[0].content, expected);

    let failed = build_heartbeat_messages(Err("no workspace".to_string()), "- [ ] item");
    assert_eq!(failed.len(), 1);
    assert_eq!(failed[0].role, Role::User);
}

#[test]
fn max_tokens_from_context_length() {
    assert_eq!(resolve_max_tokens::<()>(Ok(Some(128_000))), 64_000);
    assert_eq!(resolve_max_tokens::<()>(Ok(Some(4_000))), 4096);
    assert_eq!(resolve_max_tokens::<()>(Ok(Some(8_192))), 4096);
    assert_eq!(resolve_max_tokens::<()>(Ok(Some(8_194))), 4097);
    assert_eq!(resolve_max_tokens::<()>(Ok(None)), 4096);
    assert_eq!(resolve_max_tokens(Err("offline")), 4096);
}

#[test]
fn alert_and_notify_target() {
    assert_eq!(alert_text("check disk"), "🔔 *Heartbeat Alert*\n\ncheck disk");
    let config = HeartbeatConfig::default();
    assert_eq!(notify_user(&config), "default");
    let config = HeartbeatConfig::default().with_notify("alice", "slack");
    assert_eq!(notify_user(&config), "alice");
}

#[test]
fn failure_tracker_stops_after_max_consecutive_failures() {
    let mut t = FailureTracker::new(3);
    assert!(matches!(t.handle_result(HeartbeatResult::Failed("a".into())), HeartbeatStep::Continue));
    assert!(matches!(t.handle_result(HeartbeatResult::Skipped), HeartbeatStep::Continue));
    assert_eq!(t.consecutive_failures, 1);
    assert!(matches!(t.handle_result(HeartbeatResult::Failed("b".into())), HeartbeatStep::Continue));
    assert!(matches!(t.handle_result(HeartbeatResult::Failed("c".into())), HeartbeatStep::Stop));
    assert_eq!(t.consecutive_failures, 3);
}

#[test]
fn failure_tracker_resets_on_success_and_finding() {
    let mut t = FailureTracker::new(2);
    t.handle_result(HeartbeatResult::Failed("a".into()));
    assert!(matches!(t.handle_result(HeartbeatResult::AllOk), HeartbeatStep::Continue));
    assert_eq!(t.consecutive_failures, 0);
    t.handle_result(HeartbeatResult::Failed("b".into()));
    match t.handle_result(HeartbeatResult::NeedsAttention("look".into())) {
        HeartbeatStep::Notify(m) => assert_eq!(m, "look"),
        _ => panic!("expected notification"),
    }
    assert_eq!(t.consecutive_failures, 0);
    assert!(matches!(t.handle_result(HeartbeatResult::Failed("c".into())), HeartbeatStep::Continue));
    assert!(matches!(t.handle_result(HeartbeatResult::Failed("d".into())), HeartbeatStep::Stop));
}

#[test]
fn config_clone_keeps_interval() {
    let config = HeartbeatConfig::default().with_interval(Duration::from_secs(90));
    let copy = config.clone();
    assert_eq!(copy.interval, Duration::from_secs(90));
    assert_eq!(copy.max_failures, config.max_failures);
}

#[test]
fn quiet_hours_at_reads_the_hour_in_the_configured_zone() {
    // 2023-11-14T22:13:20Z is 17:13 in New York.
    let now = 1_700_000_000;
    let mut config = HeartbeatConfig::default();
    config.quiet_hours_start = Some(22);
    config.quiet_hours_end = Some(6);
    assert!(config.is_quiet_hours_at(now));
    config.timezone = Some("America/New_York".to_string());
    assert!(!config.is_quiet_hours_at(now));
    config.quiet_hours_start = Some(17);
    config.quiet_hours_end = Some(18);
    assert!(config.is_quiet_hours_at(now));
    config.timezone = Some("Not/AZone".to_string());
    assert!(!config.is_quiet_hours_at(now));
    config.quiet_hours_end = None;
    assert!(!config.is_quiet_hours_at(now));
}
