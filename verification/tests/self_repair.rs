use ironclaw::self_repair::{
    build_result, duration_since, invalid_tool_name, recovery_outcome, stuck_job_notification,
    tool_repair_notification, BrokenTool, BuildOutcome, DefaultSelfRepair, JobSnapshot,
    RepairError, RepairNotification, RepairResult, StuckJob, StuckRepairPlan, ToolRepairAction,
    ToolRepairEvent, ToolRepairPlan, ToolRepairStage,
};

fn job(id: &str, attempts: u32, secs: u64) -> StuckJob {
    StuckJob {
        job_id: id.to_string(),
        last_activity: 1_000,
        stuck_duration: secs,
        last_error: None,
        repair_attempts: attempts,
    }
}

fn tool(name: &str, attempts: u32) -> BrokenTool {
    BrokenTool {
        name: name.to_string(),
        failure_count: 10,
        last_error: Some("crash".to_string()),
        first_failure: 0,
        last_failure: 10,
        last_build_result: None,
        repair_attempts: attempts,
    }
}

#[test]
fn test_repair_result_variants() {
    let success = RepairResult::Success {
        message: "OK".to_string(),
    };
    assert!(matches!(success, RepairResult::Success { .. }));

    let manual = RepairResult::ManualRequired {
        message: "Help needed".to_string(),
    };
    assert!(matches!(manual, RepairResult::ManualRequired { .. }));
}

#[test]
fn duration_since_never_negative() {
    let s = 1_000_000_000i64;
    assert_eq!(duration_since(100 * s, 40 * s), 60);
    assert_eq!(duration_since(40 * s, 100 * s), 0);
    assert_eq!(duration_since(5, 5), 0);
    // 9.8 s to 10.2 s is less than a whole second.
    assert_eq!(duration_since(10_200_000_000, 9_800_000_000), 0);
    assert_eq!(duration_since(61 * s - 1, 0), 60);
    assert_eq!(duration_since(i64::MAX, i64::MIN), 18_446_744_073);
}

#[test]
fn detect_no_stuck_jobs_when_all_healthy() {
    let repair = DefaultSelfRepair::new(60, 3);
    let snaps = vec![JobSnapshot {
        job_id: "job-1".to_string(),
        is_stuck: false,
        stuck_since: None,
        repair_attempts: 0,
    }];
    assert!(repair.detect_stuck_jobs(1_000, &snaps).is_empty());
}

#[test]
fn detect_stuck_job_finds_stuck_state() {
    let repair = DefaultSelfRepair::new(0, 3);
    let snaps = vec![JobSnapshot {
        job_id: "job-7".to_string(),
        is_stuck: true,
        stuck_since: Some(1_000),
        repair_attempts: 1,
    }];
    let stuck = repair.detect_stuck_jobs(1_000, &snaps);
    assert_eq!(stuck.len(), 1);
    assert_eq!(stuck[0].job_id, "job-7");
    assert_eq!(stuck[0].repair_attempts, 1);
    assert_eq!(stuck[0].last_error, None);
}

#[test]
fn detect_stuck_jobs_uses_stuck_threshold_from_latest_stuck_transition() {
    let repair = DefaultSelfRepair::new(60, 3);
    let s = 1_000_000_000i64;
    let now = 10_000 * s;
    let recent = vec![JobSnapshot {
        job_id: "j".to_string(),
        is_stuck: true,
        stuck_since: Some(now - 30 * s),
        repair_attempts: 0,
    }];
    assert!(repair.detect_stuck_jobs(now, &recent).is_empty());

    let old = vec![
        JobSnapshot {
            job_id: "j".to_string(),
            is_stuck: true,
            stuck_since: Some(now - 120 * s),
            repair_attempts: 0,
        },
        JobSnapshot {
            job_id: "no-transition".to_string(),
            is_stuck: true,
            stuck_since: None,
            repair_attempts: 0,
        },
    ];
    let stuck = repair.detect_stuck_jobs(now, &old);
    assert_eq!(stuck.len(), 1);
    assert_eq!(stuck[0].last_activity, now - 120 * s);
    assert_eq!(stuck[0].stuck_duration, 120);
}

#[test]
fn repair_stuck_job_returns_manual_when_limit_exceeded() {
    let repair = DefaultSelfRepair::new(60, 2);
    match repair.plan_stuck_job_repair(&job("abc", 2, 300)) {
        StuckRepairPlan::Done(RepairResult::ManualRequired { message }) => {
            assert_eq!(message, "Job abc has exceeded maximum repair attempts (2)")
        }
        _ => panic!("expected manual intervention"),
    }
    assert!(matches!(
        repair.plan_stuck_job_repair(&job("abc", 1, 300)),
        StuckRepairPlan::AttemptRecovery
    ));
}

#[test]
fn recovery_outcomes() {
    let j = job("abc", 0, 120);
    match recovery_outcome(&j, Ok(Ok(()))) {
        Ok(RepairResult::Success { message }) => {
            assert_eq!(message, "Job abc recovered and will be retried")
        }
        _ => panic!("expected success"),
    }
    match recovery_outcome(&j, Ok(Err("bad state".to_string()))) {
        Ok(RepairResult::Retry { message }) => assert_eq!(message, "Recovery attempt failed: bad state"),
        _ => panic!("expected retry"),
    }
    match recovery_outcome(&j, Err("no such job".to_string())) {
        Err(RepairError::Failed {
            target_type,
            target_id,
            reason,
        }) => {
            assert_eq!(target_type, "job");
            assert_eq!(target_id, "abc");
            assert_eq!(reason, "no such job");
        }
        _ => panic!("expected error"),
    }
}

#[test]
fn detect_broken_tools_returns_empty_without_store() {
    let repair = DefaultSelfRepair::new(60, 3);
    assert!(repair.detect_broken_tools(Ok(vec![tool("t", 0)])).is_empty());
    let with_store = DefaultSelfRepair::new(60, 3).with_store();
    assert_eq!(with_store.detect_broken_tools(Ok(vec![tool("t", 0)])).len(), 1);
    assert!(with_store.detect_broken_tools(Err("db down".to_string())).is_empty());
}

#[test]
fn repair_broken_tool_returns_manual_without_builder() {
    let repair = DefaultSelfRepair::new(60, 3);
    match repair.plan_tool_repair(&tool("test-tool", 0)) {
        ToolRepairPlan::Done(RepairResult::ManualRequired { message }) => {
            assert_eq!(message, "Builder not available for repairing tool 'test-tool'")
        }
        _ => panic!("expected manual intervention"),
    }
}

#[test]
fn tool_repair_plan_order() {
    let no_store = DefaultSelfRepair::new(60, 3).with_builder();
    match no_store.plan_tool_repair(&tool("t", 0)) {
        ToolRepairPlan::Done(RepairResult::ManualRequired { message }) => {
            assert_eq!(message, "Store not available for tracking repair")
        }
        _ => panic!("expected manual intervention"),
    }
    let full = DefaultSelfRepair::new(60, 3).with_builder().with_store();
    match full.plan_tool_repair(&tool("t", 3)) {
        ToolRepairPlan::Done(RepairResult::ManualRequired { message }) => {
            assert_eq!(message, "Tool 't' exceeded max repair attempts (3)")
        }
        _ => panic!("expected manual intervention"),
    }
    match full.plan_tool_repair(&tool("t", 1)) {
        ToolRepairPlan::Rebuild { description } => assert_eq!(
            description,
            "Repair broken WASM tool.\n\nTool name: t\nPrevious error: crash\nFailure count: 10\n\n\
             Analyze the error, fix the implementation, and rebuild."
        ),
        _ => panic!("expected rebuild"),
    }
    let mut unknown = tool("u", 0);
    unknown.last_error = None;
    match full.plan_tool_repair(&unknown) {
        ToolRepairPlan::Rebuild { description } => {
            assert!(description.contains("Previous error: Unknown error\n"))
        }
        _ => panic!("expected rebuild"),
    }
}

#[test]
fn build_results() {
    let t = tool("t", 1);
    match build_result(
        &t,
        BuildOutcome::Completed {
            success: true,
            iterations: 4,
            error: None,
        },
    ) {
        RepairResult::Success { message } => {
            assert_eq!(message, "Tool 't' repaired successfully after 4 iterations")
        }
        _ => panic!("expected success"),
    }
    match build_result(
        &t,
        BuildOutcome::Completed {
            success: false,
            iterations: 2,
            error: Some("link error".to_string()),
        },
    ) {
        RepairResult::Retry { message } => {
            assert_eq!(message, "Repair attempt 2 for 't' failed: link error")
        }
        _ => panic!("expected retry"),
    }
    match build_result(
        &t,
        BuildOutcome::Completed {
            success: false,
            iterations: 2,
            error: None,
        },
    ) {
        RepairResult::Retry { message } => {
            assert_eq!(message, "Repair attempt 2 for 't' failed: Unknown error")
        }
        _ => panic!("expected retry"),
    }
    match build_result(&t, BuildOutcome::Errored("sandbox down".to_string())) {
        RepairResult::Retry { message } => assert_eq!(message, "Repair build error: sandbox down"),
        _ => panic!("expected retry"),
    }
    let RepairError::Failed {
        target_type,
        target_id,
        reason,
    } = invalid_tool_name(&t, "bad chars");
    assert_eq!(target_type, "tool");
    assert_eq!(target_id, "00000000-0000-0000-0000-000000000000");
    assert_eq!(reason, "invalid tool name 't' for repair build: bad chars");
}

#[test]
fn notifications_follow_outcomes() {
    let j = job("j1", 0, 90);
    let ok: Result<RepairResult, RepairError> = Ok(RepairResult::Success {
        message: "fine".to_string(),
    });
    assert_eq!(
        stuck_job_notification(&j, &ok),
        Some(RepairNotification {
            message: "Job j1 was stuck for 90s, recovery succeeded: fine".to_string()
        })
    );
    let failed = Ok(RepairResult::Failed {
        message: "gone".to_string(),
    });
    assert_eq!(
        stuck_job_notification(&j, &failed).unwrap().message,
        "Job j1 was stuck for 90s, recovery failed permanently: gone"
    );
    let manual = Ok(RepairResult::ManualRequired {
        message: "help".to_string(),
    });
    assert_eq!(
        stuck_job_notification(&j, &manual).unwrap().message,
        "Job j1 needs manual intervention: help"
    );
    let retry = Ok(RepairResult::Retry {
        message: "again".to_string(),
    });
    assert_eq!(stuck_job_notification(&j, &retry), None);

    let t = tool("t", 0);
    assert_eq!(
        tool_repair_notification(&t, &ok).unwrap().message,
        "Tool 't' repaired: fine"
    );
    assert_eq!(tool_repair_notification(&t, &manual), None);
    let err: Result<RepairResult, RepairError> = Err(RepairError::Failed {
        target_type: "tool".to_string(),
        target_id: "x".to_string(),
        reason: "r".to_string(),
    });
    assert_eq!(tool_repair_notification(&t, &err), None);
}

#[test]
fn repair_stuck_job_succeeds_within_limit() {
    let repair = DefaultSelfRepair::new(60, 3);
    let j = job("job-9", 0, 120);
    assert!(matches!(
        repair.plan_stuck_job_repair(&j),
        StuckRepairPlan::AttemptRecovery
    ));
    assert!(matches!(
        recovery_outcome(&j, Ok(Ok(()))),
        Ok(RepairResult::Success { .. })
    ));
}

#[test]
fn tool_repair_counts_attempt_then_checks_name_then_builds() {
    let repair = DefaultSelfRepair::new(60, 3).with_store().with_builder();
    let t = tool("weather", 1);
    let (stage, action) = repair.repair_step(&t, ToolRepairStage::Start, ToolRepairEvent::Begin);
    assert!(matches!(action, ToolRepairAction::IncrementAttempts));
    let (stage, action) = repair.repair_step(&t, stage, ToolRepairEvent::AttemptCounted);
    assert!(matches!(action, ToolRepairAction::CheckName));
    let (stage, action) = repair.repair_step(&t, stage, ToolRepairEvent::NameChecked(Ok(())));
    match action {
        ToolRepairAction::Build { description } => {
            assert!(description.starts_with("Repair broken WASM tool.\n\nTool name: weather\n"))
        }
        other => panic!("unexpected {other:?}"),
    }
    let outcome = BuildOutcome::Completed { success: true, iterations: 4, error: None };
    let (stage, action) = repair.repair_step(&t, stage, ToolRepairEvent::Built(outcome));
    assert!(matches!(action, ToolRepairAction::MarkRepaired));
    let (stage, action) = repair.repair_step(&t, stage, ToolRepairEvent::MarkedRepaired);
    assert!(matches!(stage, ToolRepairStage::Done));
    match action {
        ToolRepairAction::Finish(Ok(RepairResult::Success { message })) => {
            assert_eq!(message, "Tool 'weather' repaired successfully after 4 iterations")
        }
        other => panic!("unexpected {other:?}"),
    }
}

#[test]
fn tool_repair_refuses_bad_name_before_building() {
    let repair = DefaultSelfRepair::new(60, 3).with_store().with_builder();
    let t = tool("Bad Name", 0);
    let (stage, _) = repair.repair_step(&t, ToolRepairStage::Start, ToolRepairEvent::Begin);
    let (stage, _) = repair.repair_step(&t, stage, ToolRepairEvent::AttemptCounted);
    let (stage, action) =
        repair.repair_step(&t, stage, ToolRepairEvent::NameChecked(Err("bad".to_string())));
    assert!(matches!(stage, ToolRepairStage::Done));
    match action {
        ToolRepairAction::Finish(Err(RepairError::Failed { reason, .. })) => {
            assert_eq!(reason, "invalid tool name 'Bad Name' for repair build: bad")
        }
        other => panic!("unexpected {other:?}"),
    }
}

#[test]
fn tool_repair_without_builder_or_after_max_attempts_needs_a_human() {
    let no_builder = DefaultSelfRepair::new(60, 3).with_store();
    let (stage, action) =
        no_builder.repair_step(&tool("x", 0), ToolRepairStage::Start, ToolRepairEvent::Begin);
    assert!(matches!(stage, ToolRepairStage::Done));
    assert!(matches!(action, ToolRepairAction::Finish(Ok(RepairResult::ManualRequired { .. }))));
    let full = DefaultSelfRepair::new(60, 3).with_store().with_builder();
    let (_, action) = full.repair_step(&tool("x", 3), ToolRepairStage::Start, ToolRepairEvent::Begin);
    match action {
        ToolRepairAction::Finish(Ok(RepairResult::ManualRequired { message })) => {
            assert_eq!(message, "Tool 'x' exceeded max repair attempts (3)")
        }
        other => panic!("unexpected {other:?}"),
    }
    // A failed build is a retry, with no marking.
    let (stage, _) = full.repair_step(&tool("x", 1), ToolRepairStage::Start, ToolRepairEvent::Begin);
    let (stage, _) = full.repair_step(&tool("x", 1), stage, ToolRepairEvent::AttemptCounted);
    let (stage, _) = full.repair_step(&tool("x", 1), stage, ToolRepairEvent::NameChecked(Ok(())));
    let outcome = BuildOutcome::Completed { success: false, iterations: 2, error: None };
    let (stage, action) = full.repair_step(&tool("x", 1), stage, ToolRepairEvent::Built(outcome));
    assert!(matches!(stage, ToolRepairStage::Done));
    match action {
        ToolRepairAction::Finish(Ok(RepairResult::Retry { message })) => {
            assert_eq!(message, "Repair attempt 2 for 'x' failed: Unknown error")
        }
        other => panic!("unexpected {other:?}"),
    }
}
