use ironclaw::scheduler::{stop_step, StopAction, StopError, StopEvent, StopStage};
use ironclaw::dispatcher::pipeline::ApprovalRequirement;
use ironclaw::scheduler::{gate_tool_task, ApprovalContext, ToolTaskGate};
use ironclaw::json::{JsonNumber, JsonValue};
use ironclaw::scheduler::{
    admit_job, batch_slot_result, budget_to_apply, effective_max_tokens, plan_dispatch,
    requested_max_tokens, route_subtask, should_remove_job, should_remove_subtask, Admission,
    BatchSlot, SubtaskRoute, TaskKind, WorkerMessage,
};

fn number(n: u64) -> JsonValue {
    JsonValue::Number(JsonNumber {
        as_u64: Some(n),
        text: n.to_string(),
    })
}

#[test]
fn token_budget_is_capped_by_config() {
    assert_eq!(effective_max_tokens(Some(500_000), 100_000), 100_000);
    assert_eq!(effective_max_tokens(Some(50_000), 100_000), 50_000);
    assert_eq!(effective_max_tokens(None, 100_000), 100_000);
    // A limit of 0 is "unlimited": the user's value is used as is.
    assert_eq!(effective_max_tokens(Some(500_000), 0), 500_000);
    assert_eq!(effective_max_tokens(None, 0), 0);
    assert_eq!(budget_to_apply(0), None);
    assert_eq!(budget_to_apply(42), Some(42));
}

#[test]
fn requested_tokens_from_metadata() {
    let meta = JsonValue::Object(vec![("max_tokens".to_string(), number(2048))]);
    assert_eq!(requested_max_tokens(&Some(meta)), Some(2048));
    let meta = JsonValue::Object(vec![(
        "max_tokens".to_string(),
        JsonValue::String("2048".to_string()),
    )]);
    assert_eq!(requested_max_tokens(&Some(meta)), None);
    assert_eq!(requested_max_tokens(&None), None);
}

#[test]
fn admission_respects_parallel_limit() {
    assert!(matches!(admit_job(true, 5, 1), Admission::AlreadyScheduled));
    assert!(matches!(admit_job(false, 1, 1), Admission::MaxJobsExceeded { max: 1 }));
    assert!(matches!(admit_job(false, 0, 1), Admission::Admit));
}

#[test]
fn cleanup_decisions() {
    assert!(should_remove_job(None));
    assert!(should_remove_job(Some((true, false))));
    assert!(!should_remove_job(Some((true, true))));
    assert!(!should_remove_job(Some((false, false))));
    assert!(should_remove_subtask(None));
    assert!(should_remove_subtask(Some(true)));
    assert!(!should_remove_subtask(Some(false)));
}

#[test]
fn batch_slots() {
    assert_eq!(batch_slot_result(BatchSlot::Answered(3)), Ok(3));
    assert_eq!(
        batch_slot_result::<u8>(BatchSlot::ChannelClosed),
        Err("Subtask channel closed unexpectedly")
    );
    assert_eq!(batch_slot_result::<u8>(BatchSlot::NotSpawned), Err("Subtask failed to spawn"));
}

#[test]
fn worker_messages() {
    let m = WorkerMessage::UserMessage("follow up".to_string());
    assert!(matches!(m, WorkerMessage::UserMessage(ref s) if s == "follow up"));
    assert!(matches!(WorkerMessage::Start, WorkerMessage::Start));
    assert!(matches!(WorkerMessage::Stop, WorkerMessage::Stop));
    assert!(matches!(WorkerMessage::Ping, WorkerMessage::Ping));
}

#[test]
fn dispatch_applies_metadata_and_budget_in_one_update() {
    let meta = JsonValue::Object(vec![("max_tokens".to_string(), number(5000))]);
    let plan = plan_dispatch(Some(meta), 1000, true);
    assert!(plan.save_before_schedule);
    let update = plan.update.expect("metadata is applied");
    assert_eq!(update.max_tokens, Some(1000));
    assert!(matches!(update.metadata, Some(JsonValue::Object(ref e)) if e.len() == 1));

    // Unlimited config: the user's value is used as is.
    let meta = JsonValue::Object(vec![("max_tokens".to_string(), number(5000))]);
    let plan = plan_dispatch(Some(meta), 0, false);
    assert!(!plan.save_before_schedule);
    assert_eq!(plan.update.unwrap().max_tokens, Some(5000));

    // No metadata: the configured budget alone, or nothing at all.
    let plan = plan_dispatch(None, 300, false);
    let update = plan.update.unwrap();
    assert!(update.metadata.is_none());
    assert_eq!(update.max_tokens, Some(300));
    assert!(plan_dispatch(None, 0, true).update.is_none());

    // Metadata without a budget still gets applied.
    let plan = plan_dispatch(Some(JsonValue::Object(vec![])), 0, false);
    let update = plan.update.unwrap();
    assert!(update.metadata.is_some());
    assert_eq!(update.max_tokens, None);
}

#[test]
fn jobs_are_refused_as_subtasks() {
    match route_subtask(TaskKind::Job) {
        SubtaskRoute::Refused(m) => {
            assert_eq!(m, "Use schedule() for Job tasks, not spawn_subtask()")
        }
        other => panic!("unexpected {other:?}"),
    }
    assert!(matches!(route_subtask(TaskKind::ToolExec), SubtaskRoute::RunTool));
    assert!(matches!(route_subtask(TaskKind::Background), SubtaskRoute::RunBackground));
}

#[test]
fn stop_cancels_then_saves_then_removes() {
    let (st, a) = stop_step(StopStage::Start, StopEvent::LookedUp { registered: false }).unwrap();
    assert_eq!(st, StopStage::Done);
    assert_eq!(a, StopAction::Finish(Err(StopError::NotFound)));

    let (st, a) = stop_step(StopStage::Start, StopEvent::LookedUp { registered: true }).unwrap();
    assert_eq!(a, StopAction::SignalAndWait);
    let (st, a) = stop_step(st, StopEvent::Waited).unwrap();
    assert_eq!(a, StopAction::Cancel);
    // A completed job refuses the cancellation: nothing is saved.
    let refused = StopError::InvalidTransition { from_state: "completed".to_string() };
    let (done, a) = stop_step(StopStage::Cancelling, StopEvent::Cancelled(Err(refused))).unwrap();
    assert_eq!(done, StopStage::Done);
    assert!(matches!(a, StopAction::Finish(Err(StopError::InvalidTransition { .. }))));

    let (st, a) = stop_step(st, StopEvent::Cancelled(Ok(()))).unwrap();
    assert_eq!(a, StopAction::PinAndAbort);
    let (st, a) = stop_step(st, StopEvent::Pinned).unwrap();
    assert_eq!(a, StopAction::Persist);
    let (_, a) = stop_step(StopStage::Persisting, StopEvent::Persisted(Err("db down".to_string()))).unwrap();
    assert_eq!(a, StopAction::Finish(Err(StopError::Persistence { reason: "db down".to_string() })));
    let (st, a) = stop_step(st, StopEvent::Persisted(Ok(()))).unwrap();
    assert_eq!(a, StopAction::Finalize);
    let (st, a) = stop_step(st, StopEvent::Finalized).unwrap();
    assert_eq!(st, StopStage::Done);
    assert_eq!(a, StopAction::Finish(Ok(())));
    assert!(stop_step(StopStage::Done, StopEvent::Waited).is_none());
}

#[test]
fn tool_task_gating_follows_approval_context() {
    let soft = ApprovalRequirement::UnlessAutoApproved;
    let hard = ApprovalRequirement::Always;
    // Blocked without context.
    assert_eq!(gate_tool_task(false, soft, &None, "soft_gate"), ToolTaskGate::AuthRequired);
    assert_eq!(gate_tool_task(false, hard, &None, "hard_gate"), ToolTaskGate::AuthRequired);
    // Autonomous unblocks soft only.
    let ctx = Some(ApprovalContext::autonomous());
    assert_eq!(gate_tool_task(false, soft, &ctx, "soft_gate"), ToolTaskGate::Run);
    assert_eq!(gate_tool_task(false, hard, &ctx, "hard_gate"), ToolTaskGate::AuthRequired);
    // Explicit permission unblocks hard.
    let ctx = Some(ApprovalContext::autonomous_with_tools(vec!["hard_gate".to_string()]));
    assert_eq!(gate_tool_task(false, soft, &ctx, "soft_gate"), ToolTaskGate::Run);
    assert_eq!(gate_tool_task(false, hard, &ctx, "hard_gate"), ToolTaskGate::Run);
    assert_eq!(gate_tool_task(true, ApprovalRequirement::Never, &ctx, "x"), ToolTaskGate::JobCancelled);
}
