use ironclaw::routine::trigger::LAST_REPRESENTABLE_SECOND;
use ironclaw::json::{JsonNumber, JsonValue};
use ironclaw::routine::action::RoutineAction;
use ironclaw::routine::trigger::{next_cron_fire, next_cron_fire_at, Trigger};
use ironclaw::timezone::effective_zone_name;
use ironclaw::routine::RoutineError;

fn s(v: &str) -> JsonValue {
    JsonValue::String(v.to_string())
}

fn obj(entries: Vec<(&str, JsonValue)>) -> JsonValue {
    JsonValue::Object(entries.into_iter().map(|(k, v)| (k.to_string(), v)).collect())
}

#[test]
fn test_trigger_roundtrip() {
    let trigger = Trigger::Cron {
        schedule: "0 9 * * MON-FRI".to_string(),
        timezone: None,
    };
    let json = trigger.to_config_json();
    let parsed = Trigger::from_db("cron", json).expect("parse cron");
    assert!(matches!(parsed, Trigger::Cron { schedule, .. } if schedule == "0 9 * * MON-FRI"));
}

#[test]
fn test_event_trigger_roundtrip() {
    let trigger = Trigger::Event {
        channel: Some("telegram".to_string()),
        pattern: r"deploy\s+\w+".to_string(),
    };
    let json = trigger.to_config_json();
    let parsed = Trigger::from_db("event", json).expect("parse event");
    assert!(matches!(parsed, Trigger::Event { channel, pattern }
        if channel == Some("telegram".to_string()) && pattern == r"deploy\s+\w+"));
}

#[test]
fn test_system_event_trigger_roundtrip() {
    let filters = vec![
        ("repo".to_string(), "nearai/ironclaw".to_string()),
        ("action".to_string(), "opened".to_string()),
    ];
    let trigger = Trigger::SystemEvent {
        source: "github".to_string(),
        event_type: "issue".to_string(),
        filters: filters.clone(),
    };
    let json = trigger.to_config_json();
    let parsed = Trigger::from_db("system_event", json).expect("parse system_event");
    let Trigger::SystemEvent {
        source,
        event_type,
        filters: f,
    } = parsed
    else {
        panic!("expected SystemEvent trigger");
    };
    assert_eq!(source, "github");
    assert_eq!(event_type, "issue");
    assert_eq!(f, filters);
}

#[test]
fn test_action_lightweight_roundtrip() {
    let action = RoutineAction::Lightweight {
        prompt: "Check PRs".to_string(),
        context_paths: vec!["context/priorities.md".to_string()],
        max_tokens: 2048,
    };
    let json = action.to_config_json();
    let parsed = RoutineAction::from_db("lightweight", json).expect("parse lightweight");
    let RoutineAction::Lightweight {
        prompt,
        context_paths,
        max_tokens,
    } = parsed
    else {
        panic!("expected Lightweight action");
    };
    assert_eq!(prompt, "Check PRs");
    assert_eq!(context_paths.len(), 1);
    assert_eq!(max_tokens, 2048);
}

#[test]
fn test_action_full_job_roundtrip() {
    let action = RoutineAction::FullJob {
        title: "Deploy review".to_string(),
        description: "Review and deploy pending changes".to_string(),
        max_iterations: 5,
        tool_permissions: vec!["shell".to_string()],
    };
    let json = action.to_config_json();
    let parsed = RoutineAction::from_db("full_job", json).expect("parse full_job");
    let RoutineAction::FullJob {
        title,
        max_iterations,
        tool_permissions,
        ..
    } = parsed
    else {
        panic!("expected FullJob action");
    };
    assert_eq!(title, "Deploy review");
    assert_eq!(max_iterations, 5);
    assert_eq!(tool_permissions, vec!["shell".to_string()]);
}

#[test]
fn test_next_cron_fire_valid() {
    let next = next_cron_fire("* * * * * *", None).expect("valid cron");
    assert!(next.is_some());
}

#[test]
fn test_next_cron_fire_invalid() {
    let result = next_cron_fire("not a cron", None);
    assert!(result.is_err());
}

#[test]
fn next_cron_fire_invalid_carries_reason() {
    match next_cron_fire("not a cron", None) {
        Err(RoutineError::InvalidCron { reason }) => assert!(!reason.is_empty()),
        other => panic!("expected InvalidCron, got {other:?}"),
    }
}

#[test]
fn test_trigger_cron_timezone_roundtrip() {
    let trigger = Trigger::Cron {
        schedule: "0 9 * * MON-FRI".to_string(),
        timezone: Some("America/New_York".to_string()),
    };
    let json = trigger.to_config_json();
    let parsed = Trigger::from_db("cron", json).expect("parse cron");
    assert!(matches!(parsed, Trigger::Cron { schedule, timezone }
            if schedule == "0 9 * * MON-FRI"
            && timezone.as_deref() == Some("America/New_York")));
}

#[test]
fn test_trigger_cron_no_timezone_backward_compat() {
    let json = obj(vec![("schedule", s("0 9 * * *"))]);
    let parsed = Trigger::from_db("cron", json).expect("parse cron");
    assert!(matches!(parsed, Trigger::Cron { timezone, .. } if timezone.is_none()));
}

#[test]
fn test_trigger_cron_invalid_timezone_coerced_to_none() {
    let json = obj(vec![("schedule", s("0 9 * * *")), ("timezone", s("Fake/Zone"))]);
    let parsed = Trigger::from_db("cron", json).expect("parse cron");
    assert!(
        matches!(parsed, Trigger::Cron { timezone, .. } if timezone.is_none()),
        "invalid timezone should be coerced to None"
    );
}

#[test]
fn test_next_cron_fire_with_timezone() {
    let next_utc = next_cron_fire("0 0 9 * * * *", None)
        .expect("valid cron")
        .expect("has next");
    let next_est = next_cron_fire("0 0 9 * * * *", Some("America/New_York"))
        .expect("valid cron")
        .expect("has next");
    assert_ne!(next_utc, next_est, "timezone should shift the fire time");
}

#[test]
fn next_cron_fire_unknown_zone_uses_utc() {
    let utc = next_cron_fire("0 0 9 * * * *", None).unwrap().unwrap();
    let unknown = next_cron_fire("0 0 9 * * * *", Some("Fake/Zone")).unwrap().unwrap();
    assert_eq!(utc, unknown);
}

#[test]
fn test_trigger_type_tag() {
    assert_eq!(
        Trigger::Cron {
            schedule: String::new(),
            timezone: None,
        }
        .type_tag(),
        "cron"
    );
    assert_eq!(
        Trigger::Event {
            channel: None,
            pattern: String::new()
        }
        .type_tag(),
        "event"
    );
    assert_eq!(
        Trigger::SystemEvent {
            source: String::new(),
            event_type: String::new(),
            filters: Vec::new(),
        }
        .type_tag(),
        "system_event"
    );
    assert_eq!(Trigger::Manual.type_tag(), "manual");
}

#[test]
fn trigger_from_db_errors() {
    match Trigger::from_db("weekly", obj(vec![])) {
        Err(RoutineError::UnknownTriggerType { trigger_type }) => assert_eq!(trigger_type, "weekly"),
        other => panic!("unexpected {other:?}"),
    }
    match Trigger::from_db("event", obj(vec![("channel", s("slack"))])) {
        Err(RoutineError::MissingField { context, field }) => {
            assert_eq!(context, "event trigger");
            assert_eq!(field, "pattern");
        }
        other => panic!("unexpected {other:?}"),
    }
    match Trigger::from_db("system_event", obj(vec![("source", s("github"))])) {
        Err(RoutineError::MissingField { field, .. }) => assert_eq!(field, "event_type"),
        other => panic!("unexpected {other:?}"),
    }
    assert!(matches!(Trigger::from_db("manual", JsonValue::Null), Ok(Trigger::Manual)));
}

#[test]
fn system_event_filters_keep_scalars_only() {
    let filters = obj(vec![
        ("repo", s("a/b")),
        (
            "count",
            JsonValue::Number(JsonNumber {
                as_u64: Some(3),
                text: "3".to_string(),
            }),
        ),
        ("draft", JsonValue::Bool(false)),
        ("labels", JsonValue::Array(vec![s("x")])),
        ("meta", JsonValue::Null),
    ]);
    let config = obj(vec![
        ("source", s("github")),
        ("event_type", s("pr")),
        ("filters", filters),
    ]);
    match Trigger::from_db("system_event", config) {
        Ok(Trigger::SystemEvent { filters, .. }) => assert_eq!(
            filters,
            vec![
                ("repo".to_string(), "a/b".to_string()),
                ("count".to_string(), "3".to_string()),
                ("draft".to_string(), "false".to_string()),
            ]
        ),
        other => panic!("unexpected {other:?}"),
    }
}

#[test]
fn trigger_config_json_shape() {
    let t = Trigger::Event {
        channel: None,
        pattern: "x".to_string(),
    };
    match t.to_config_json() {
        JsonValue::Object(entries) => {
            assert_eq!(entries.len(), 2);
            assert_eq!(entries[0].0, "pattern");
            assert!(matches!(&entries[1], (k, JsonValue::Null) if k == "channel"));
        }
        other => panic!("unexpected {other:?}"),
    }
    assert!(matches!(Trigger::Manual.to_config_json(), JsonValue::Object(e) if e.is_empty()));
}

// 2023-11-14T22:13:20Z
const NOW: i64 = 1_700_000_000;

#[test]
fn next_cron_fire_at_uses_the_zone() {
    let utc = next_cron_fire_at("0 0 9 * * * *", None, NOW).unwrap();
    assert_eq!(utc, Some(1_700_038_800)); // 2023-11-15T09:00Z
    let ny = next_cron_fire_at("0 0 9 * * * *", Some("America/New_York"), NOW).unwrap();
    assert_eq!(ny, Some(1_700_056_800)); // 09:00 EST
    let unknown = next_cron_fire_at("0 0 9 * * * *", Some("Fake/Zone"), NOW).unwrap();
    assert_eq!(unknown, utc);
    assert!(matches!(
        next_cron_fire_at("not a cron", None, NOW),
        Err(RoutineError::InvalidCron { .. })
    ));
}

#[test]
fn effective_zone_falls_back_to_utc() {
    assert_eq!(effective_zone_name(Some("Europe/Paris")), "Europe/Paris");
    assert_eq!(effective_zone_name(Some("Mars/Olympus")), "UTC");
    assert_eq!(effective_zone_name(None), "UTC");
}

#[test]
fn next_cron_fire_at_end_of_time_is_none() {
    let last = LAST_REPRESENTABLE_SECOND;
    assert_eq!(next_cron_fire_at("* * * * * *", None, last).unwrap(), None);
    assert_eq!(next_cron_fire_at("* * * * * *", Some("Asia/Tokyo"), last).unwrap(), None);
    assert_eq!(next_cron_fire_at("* * * * * *", None, last - 1).unwrap(), None);
    assert_eq!(next_cron_fire_at("* * * * * *", None, i64::MAX).unwrap(), None);
    assert_eq!(next_cron_fire_at("* * * * * *", None, i64::MIN).unwrap(), None);
}
