use ironclaw::routine::engine::finish_manual_fire;
use ironclaw::routine::engine::plan_full_job;
use ironclaw::dispatcher::pipeline::{can_auto_approve, ApprovalRequirement};
use ironclaw::json::{JsonNumber, JsonValue};
use ironclaw::llm::Role;
use ironclaw::routine::engine::{
    build_lightweight_prompt, check_concurrent, check_cooldown, check_lightweight_tool,
    check_manual_fire, context_part, event_message_matches, filters_match, full_job_summary,
    handle_text_response, initial_messages, lightweight_iterations, next_consecutive_failures,
    notification_text, resolve_max_tokens, routine_state_path, run_message, sanitize_routine_name,
    should_notify, status_icon, system_event_detail, system_event_matches, truncate, user_matches,
    validation_detail, EventPattern, FinishReason, RoutineSummary, RunSlots, RunStatus, TokenTotals,
    cron_first_gate, cron_last_gate, event_first_gate, event_last_gate, GateStep,
    RoutineConfig, RoutineGuardrails,
};
use ironclaw::routine::trigger::Trigger;
use ironclaw::routine::RoutineError;

fn obj(entries: Vec<(&str, JsonValue)>) -> JsonValue {
    JsonValue::Object(entries.into_iter().map(|(k, v)| (k.to_string(), v)).collect())
}

#[test]
fn test_notification_gating() {
    // on_success = false means an Ok status should not notify.
    assert!(!should_notify(RunStatus::Succeeded, false, true, true));
    assert!(should_notify(RunStatus::Failed, false, true, true));
    assert!(should_notify(RunStatus::Attention, false, true, true));
    assert!(!should_notify(RunStatus::Running, true, true, true));
}

#[test]
fn test_run_status_icons() {
    for status in [
        RunStatus::Succeeded,
        RunStatus::Attention,
        RunStatus::Failed,
        RunStatus::Running,
    ] {
        assert!(!status_icon(status).is_empty());
    }
    assert_eq!(status_icon(RunStatus::Succeeded), "✅");
    assert_eq!(status_icon(RunStatus::Attention), "🔔");
    assert_eq!(status_icon(RunStatus::Failed), "❌");
    assert_eq!(status_icon(RunStatus::Running), "⏳");
}

#[test]
fn test_sanitize_routine_name_replaces_special_chars() {
    let test_cases = vec![
        ("valid-routine", "valid-routine"),
        ("routine_with_underscore", "routine_with_underscore"),
        ("Routine With Spaces", "Routine_With_Spaces"),
        ("routine/with/slashes", "routine_with_slashes"),
        ("routine@with#symbols", "routine_with_symbols"),
    ];

    for (input, expected) in test_cases {
        let result = sanitize_routine_name(input);
        assert_eq!(
            result, expected,
            "sanitize_routine_name({}) should be {}",
            input, expected
        );
    }
}

#[test]
fn test_sanitize_routine_name_preserves_alphanumeric_dash_underscore() {
    let names = vec!["routine123", "routine-name", "routine_name", "ROUTINE"];
    for name in names {
        let result = sanitize_routine_name(name);
        assert_eq!(result, name, "Should preserve {}", name);
    }
}

#[test]
fn sanitize_replaces_non_ascii_and_dots() {
    assert_eq!(sanitize_routine_name("../état"), "____tat");
    assert_eq!(routine_state_path("my routine"), "routines/my_routine/state.md");
}

#[test]
fn test_routine_sentinel_detection_exact_match() {
    let test_cases = vec![
        ("ROUTINE_OK", true),
        ("  ROUTINE_OK  ", true),
        ("something ROUTINE_OK something", true),
        ("ROUTINE_OK is done", true),
        ("done ROUTINE_OK", true),
        ("no sentinel here", false),
    ];

    for (content, should_match) in test_cases {
        let outcome = handle_text_response(content, FinishReason::Stop, 1, 2).unwrap();
        let matches = outcome.0 == RunStatus::Succeeded;
        assert_eq!(
            matches, should_match,
            "Content '{}' sentinel detection should be {}, got {}",
            content, should_match, matches
        );
    }
}

#[test]
fn test_approval_requirement_pattern_matching() {
    let requirements = vec![
        (ApprovalRequirement::Never, "auto-approved"),
        (ApprovalRequirement::UnlessAutoApproved, "auto-approved"),
        (ApprovalRequirement::Always, "blocks"),
    ];

    for (req, expected) in requirements {
        let label = if can_auto_approve(req) {
            "auto-approved"
        } else {
            "blocks"
        };
        assert_eq!(label, expected, "Approval pattern should match");
    }
}

#[test]
fn test_empty_response_handling() {
    assert!(matches!(
        handle_text_response("", FinishReason::Length, 0, 0),
        Err(RoutineError::TruncatedResponse)
    ));
    assert!(matches!(
        handle_text_response("   ", FinishReason::Stop, 0, 0),
        Err(RoutineError::EmptyResponse)
    ));
    assert_ne!(FinishReason::Length, FinishReason::Stop);
}

#[test]
fn text_response_reports_summary_and_tokens() {
    let (status, summary, tokens) =
        handle_text_response("  Two PRs need review\n", FinishReason::Stop, 100, 23).unwrap();
    assert_eq!(status, RunStatus::Attention);
    assert_eq!(summary.as_deref(), Some("Two PRs need review"));
    assert_eq!(tokens, Some(123));
    let (status, summary, _) = handle_text_response("ROUTINE_OK", FinishReason::Stop, 1, 1).unwrap();
    assert_eq!(status, RunStatus::Succeeded);
    assert_eq!(summary, None);
}

#[test]
fn lightweight_prompt_assembly() {
    let tail = "\n\n---\n\nIf nothing needs attention, reply EXACTLY with: ROUTINE_OK\n\
                If something needs attention, provide a concise summary.";
    assert_eq!(build_lightweight_prompt("Check", &vec![], None), format!("Check{tail}"));
    let parts = vec![context_part("a.md", "alpha"), context_part("b.md", "beta")];
    assert_eq!(parts[0], "## a.md\n\nalpha");
    assert_eq!(
        build_lightweight_prompt("Check", &parts, Some("last: ok")),
        format!(
            "Check\n\n---\n\n# Context\n\n## a.md\n\nalpha\n\n## b.md\n\nbeta\
             \n\n---\n\n# Previous State\n\nlast: ok{tail}"
        )
    );
}

#[test]
fn lightweight_messages_and_budget() {
    let m = initial_messages("", "do it");
    assert_eq!(m.len(), 1);
    assert_eq!(m[0].role, Role::User);
    let m = initial_messages("sys", "do it");
    assert_eq!(m.len(), 2);
    assert_eq!(m[0].role, Role::System);
    assert_eq!(m[1].content, "do it");
    assert_eq!(resolve_max_tokens::<()>(Ok(Some(100_000)), 4096), 50_000);
    assert_eq!(resolve_max_tokens::<()>(Ok(Some(4_000)), 4096), 4096);
    assert_eq!(resolve_max_tokens::<()>(Ok(None), 1024), 1024);
    assert_eq!(resolve_max_tokens(Err("x"), 1024), 1024);
}

#[test]
fn lightweight_iteration_cap_and_totals() {
    assert_eq!(lightweight_iterations(3), 3);
    assert_eq!(lightweight_iterations(10), 5);
    let mut t = TokenTotals::new();
    t.add(10, 5);
    t.add(1, 2);
    assert_eq!((t.input, t.output), (11, 7));
}

#[test]
fn lightweight_tool_gate_messages() {
    assert_eq!(
        check_lightweight_tool("shell", false, true, None).as_deref(),
        Some("Tool 'shell' not found")
    );
    assert_eq!(
        check_lightweight_tool("shell", true, false, None).as_deref(),
        Some("Tool 'shell' requires manual approval and cannot be used in lightweight routines")
    );
    let detail = validation_detail("path", "required");
    assert_eq!(
        check_lightweight_tool("read", true, true, Some(&detail)).as_deref(),
        Some("Invalid tool parameters: path: required")
    );
    assert_eq!(check_lightweight_tool("read", true, true, None), None);
}

#[test]
fn run_slots_respect_limit() {
    let mut slots = RunSlots::new(2);
    assert!(slots.try_reserve());
    assert!(slots.try_reserve());
    assert!(!slots.try_reserve());
    assert_eq!(slots.running, 2);
    slots.release();
    assert!(slots.try_reserve());
    assert_eq!(slots.running, 2);
}

#[test]
fn cooldown_and_concurrency() {
    assert!(check_cooldown(None, 1_000, 300));
    assert!(!check_cooldown(Some(900), 1_000, 300));
    assert!(check_cooldown(Some(700), 1_000, 300));
    // An unrepresentable cooldown falls back to five minutes.
    assert!(check_cooldown(Some(700), 1_000, u64::MAX));
    assert!(!check_cooldown(Some(800), 1_000, u64::MAX));
    assert!(check_concurrent::<()>(Ok(0), 1));
    assert!(!check_concurrent::<()>(Ok(1), 1));
    assert!(!check_concurrent(Err("db"), 5));
}

#[test]
fn manual_fire_checks_in_order() {
    let summary = RoutineSummary {
        owner: "alice".to_string(),
        name: "daily".to_string(),
        enabled: true,
    };
    assert!(matches!(
        check_manual_fire("r1", &None, None, true),
        Err(RoutineError::NotFound { id }) if id == "r1"
    ));
    assert!(matches!(
        check_manual_fire("r1", &Some(summary), Some("bob"), true),
        Err(RoutineError::NotAuthorized { .. })
    ));
    let disabled = RoutineSummary {
        owner: "alice".to_string(),
        name: "daily".to_string(),
        enabled: false,
    };
    assert!(matches!(
        check_manual_fire("r1", &Some(disabled), Some("alice"), true),
        Err(RoutineError::Disabled { name }) if name == "daily"
    ));
    let enabled = RoutineSummary {
        owner: "alice".to_string(),
        name: "daily".to_string(),
        enabled: true,
    };
    assert!(matches!(
        check_manual_fire("r1", &Some(enabled), None, false),
        Err(RoutineError::MaxConcurrent { .. })
    ));
    let enabled = RoutineSummary {
        owner: "alice".to_string(),
        name: "daily".to_string(),
        enabled: true,
    };
    assert!(check_manual_fire("r1", &Some(enabled), Some("alice"), true).is_ok());
}

#[test]
fn system_event_matching() {
    let trigger = Trigger::SystemEvent {
        source: "GitHub".to_string(),
        event_type: "Issue.Opened".to_string(),
        filters: vec![
            ("repo".to_string(), "Nearai/IronClaw".to_string()),
            ("number".to_string(), "7".to_string()),
        ],
    };
    let payload = obj(vec![
        ("repo", JsonValue::String("nearai/ironclaw".to_string())),
        (
            "number",
            JsonValue::Number(JsonNumber {
                as_u64: Some(7),
                text: "7".to_string(),
            }),
        ),
    ]);
    assert!(system_event_matches(&trigger, "u1", "github", "issue.opened", &payload, None));
    assert!(system_event_matches(&trigger, "u1", "github", "issue.opened", &payload, Some("u1")));
    assert!(!system_event_matches(&trigger, "u1", "github", "issue.opened", &payload, Some("u2")));
    assert!(!system_event_matches(&trigger, "u1", "gitlab", "issue.opened", &payload, None));
    let missing = obj(vec![("repo", JsonValue::String("nearai/ironclaw".to_string()))]);
    assert!(!system_event_matches(&trigger, "u1", "github", "issue.opened", &missing, None));
    assert!(!system_event_matches(&Trigger::Manual, "u1", "github", "issue.opened", &payload, None));
    assert!(filters_match(&vec![], &JsonValue::Null));
    assert!(user_matches("a", None));
    assert!(!user_matches("a", Some("b")));
}

#[test]
fn event_trigger_matching() {
    let trigger = Trigger::Event {
        channel: Some("telegram".to_string()),
        pattern: r"deploy\s+\w+".to_string(),
    };
    let pattern = EventPattern::compile(r"deploy\s+\w+").expect("valid regex");
    assert!(event_message_matches(&trigger, &pattern, "telegram", "please deploy prod"));
    assert!(!event_message_matches(&trigger, &pattern, "slack", "please deploy prod"));
    assert!(!event_message_matches(&trigger, &pattern, "telegram", "deploy"));
    assert!(EventPattern::compile("(unclosed").is_none());
}

#[test]
fn truncate_at_char_boundary() {
    assert_eq!(truncate("short", 200), "short");
    assert_eq!(truncate("abcdef", 3), "abc...");
    // "é" is two bytes: cutting at 3 bytes keeps "aé".
    assert_eq!(truncate("aéé", 3), "aé...");
    assert_eq!(truncate("aéé", 2), "a...");
    assert_eq!(truncate("aéé", 5), "aéé");
    let long = "x".repeat(250);
    assert_eq!(truncate(&long, 200), format!("{}...", "x".repeat(200)));
    assert_eq!(system_event_detail("github", "push"), "github:push");
}

#[test]
fn run_bookkeeping_texts() {
    assert_eq!(next_consecutive_failures(RunStatus::Failed, 2), 3);
    assert_eq!(next_consecutive_failures(RunStatus::Attention, 2), 0);
    assert_eq!(
        notification_text(RunStatus::Attention, "attention", "daily", Some("2 PRs")),
        "🔔 *Routine 'daily'*: attention\n\n2 PRs"
    );
    assert_eq!(
        notification_text(RunStatus::Failed, "failed", "daily", None),
        "❌ *Routine 'daily'*: failed"
    );
    assert_eq!(run_message("cron", "ok", Some("done")), "[cron] ok: done");
    assert_eq!(run_message("manual", "running", None), "[manual] running");
    assert_eq!(
        full_job_summary("job-1", 7),
        "Dispatched job job-1 for full execution with tool access (max_iterations: 7)"
    );
}

#[test]
fn cron_gates_reserve_first_and_roll_back() {
    let mut slots = RunSlots::new(2);
    // In cooldown: the reserved slot is given back.
    assert_eq!(cron_first_gate(&mut slots, false), GateStep::Skip);
    assert_eq!(slots.running, 0);
    // Passes the cooldown but its own runs are at the limit: rolled back.
    assert_eq!(cron_first_gate(&mut slots, true), GateStep::AskConcurrency);
    assert_eq!(slots.running, 1);
    assert_eq!(cron_last_gate(&mut slots, false), GateStep::Skip);
    assert_eq!(slots.running, 0);
    // Two fire and keep their slots; the third stops the tick.
    for _ in 0..2 {
        assert_eq!(cron_first_gate(&mut slots, true), GateStep::AskConcurrency);
        assert_eq!(cron_last_gate(&mut slots, true), GateStep::Fire);
    }
    assert_eq!(slots.running, 2);
    assert_eq!(cron_first_gate(&mut slots, true), GateStep::StopTick);
    assert_eq!(slots.running, 2);
}

#[test]
fn event_gates_check_cooldown_then_concurrency_then_capacity() {
    let mut slots = RunSlots::new(1);
    assert_eq!(event_first_gate(false), GateStep::Skip);
    assert_eq!(event_first_gate(true), GateStep::AskConcurrency);
    assert_eq!(event_last_gate(&mut slots, false), GateStep::Skip);
    assert_eq!(slots.running, 0);
    assert_eq!(event_last_gate(&mut slots, true), GateStep::Fire);
    assert_eq!(slots.running, 1);
    assert_eq!(event_last_gate(&mut slots, true), GateStep::Skip);
    assert_eq!(slots.running, 1);
}

#[test]
fn manual_runs_take_a_slot_beyond_the_limit() {
    let mut slots = RunSlots::new(0);
    slots.reserve_manual();
    assert_eq!(slots.running, 1);
    slots.release();
    assert_eq!(slots.running, 0);
}

#[test]
fn test_run_status_display_parse() {
    for status in [
        RunStatus::Running,
        RunStatus::Succeeded,
        RunStatus::Attention,
        RunStatus::Failed,
    ] {
        let s = status.as_str();
        let parsed: RunStatus = RunStatus::parse_label(s).expect("parse status");
        assert_eq!(parsed, status);
    }
    assert_eq!(RunStatus::parse_label("bogus"), None);
}

#[test]
fn test_guardrails_default() {
    let g = RoutineGuardrails::default();
    assert_eq!(g.cooldown.as_secs(), 300);
    assert_eq!(g.max_concurrent, 1);
    assert!(g.dedup_window.is_none());
}

#[test]
fn test_routine_config_lightweight_tools_enabled_default() {
    let config = RoutineConfig::default();
    assert!(
        config.lightweight_tools_enabled,
        "Tools should be enabled by default"
    );
}

#[test]
fn test_routine_config_lightweight_max_iterations_default() {
    let config = RoutineConfig::default();
    assert_eq!(
        config.lightweight_max_iterations, 3,
        "Default should be 3 iterations"
    );
}

#[test]
fn test_routine_config_can_hold_uncapped_max_iterations() {
    // The struct holds a value above the cap; lightweight_iterations caps it.
    let config = RoutineConfig {
        lightweight_max_iterations: 10,
        ..RoutineConfig::default()
    };
    assert_eq!(
        config.lightweight_max_iterations, 10,
        "Config struct should store the provided value"
    );
    assert_eq!(lightweight_iterations(config.lightweight_max_iterations), 5);
}

#[test]
fn manual_fire_rolls_back_its_slot_when_the_run_is_not_recorded() {
    let mut slots = RunSlots::new(1);
    slots.reserve_manual();
    let r: Result<String, String> = finish_manual_fire(&mut slots, Err("db".to_string()));
    assert!(r.is_err());
    assert_eq!(slots.running, 0);
    slots.reserve_manual();
    let r: Result<String, String> = finish_manual_fire(&mut slots, Ok("run-1".to_string()));
    assert_eq!(r.unwrap(), "run-1");
    assert_eq!(slots.running, 1);
}

#[test]
fn full_job_carries_budget_notify_and_permissions() {
    assert!(matches!(
        plan_full_job(false, 5, &None, "u", &vec![]),
        Err(RoutineError::SchedulerUnavailable)
    ));
    let plan = plan_full_job(true, 5, &Some("telegram".to_string()), "u1", &vec!["shell".to_string()])
        .unwrap();
    match &plan.metadata {
        JsonValue::Object(e) => {
            assert_eq!(e.len(), 3);
            assert!(matches!(&e[0], (k, JsonValue::Number(n)) if k == "max_iterations" && n.as_u64 == Some(5) && n.text == "5"));
            assert!(matches!(&e[1], (k, JsonValue::String(v)) if k == "notify_channel" && v == "telegram"));
            assert!(matches!(&e[2], (k, JsonValue::String(v)) if k == "notify_user" && v == "u1"));
        }
        other => panic!("unexpected {other:?}"),
    }
    assert_eq!(plan.approval.permitted_tools, vec!["shell".to_string()]);
}
