//! Job scheduling decisions: worker messages, token budgets, admission of
//! new jobs under the parallelism limit, and cleanup of finished entries.

use vstd::prelude::*;

use crate::dispatcher::pipeline::ApprovalRequirement;

use crate::json::{json_get, json_u64, JsonValue};

verus! {

/// Message to send to a worker.
#[derive(Debug)]
pub enum WorkerMessage {
    /// Start working on the job.
    Start,
    /// Stop the job.
    Stop,
    /// Check health.
    Ping,
    /// Inject a follow-up user message into the worker's reasoning context.
    UserMessage(String),
}

/// The token budget of a new job: the user's `max_tokens` capped at the
/// configured limit, or the limit when the user gave none. A limit of 0
/// means unlimited: the user's value is used as is.
pub open spec fn job_token_budget(user_max: Option<u64>, config_max: u64) -> u64 {
    match user_max {
        Some(u) => if config_max == 0 {
            u
        } else if u < config_max {
            u
        } else {
            config_max
        },
        None => config_max,
    }
}

/// Compute the token budget of a new job.
pub fn effective_max_tokens(user_max: Option<u64>, config_max: u64) -> (r: u64)
    ensures
        r == job_token_budget(user_max, config_max),
{
    match user_max {
        Some(u) => if config_max == 0 {
            u
        } else if u < config_max {
            u
        } else {
            config_max
        },
        None => config_max,
    }
}

/// The `max_tokens` a job's metadata asks for, when it holds an unsigned
/// integer there.
pub fn requested_max_tokens(metadata: &Option<JsonValue>) -> (r: Option<u64>)
    ensures
        r == match metadata {
            Some(m) => json_u64(json_get(*m, "max_tokens"@)),
            None => None,
        },
{
    match metadata {
        Some(m) => match m.get("max_tokens") {
            Some(v) => v.as_u64(),
            None => None,
        },
        None => None,
    }
}

/// A configured limit caps every job's budget: when the limit is set, no
/// job is given more than it, whatever the user asked for.
pub proof fn lemma_budget_capped(user_max: Option<u64>, config_max: u64)
    requires
        config_max > 0,
    ensures
        0 < job_token_budget(user_max, config_max) <= config_max || (user_max == Some(0u64)
            && job_token_budget(user_max, config_max) == 0),
{
}

/// With a configured limit, a job's budget is the smaller of the user's
/// request and the limit: it never exceeds what the user asked for nor the
/// limit, and it is one of the two.
pub proof fn lemma_budget_is_min(u: u64, config_max: u64)
    requires
        config_max > 0,
    ensures
        job_token_budget(Some(u), config_max) <= u,
        job_token_budget(Some(u), config_max) <= config_max,
        job_token_budget(Some(u), config_max) == u || job_token_budget(Some(u), config_max)
            == config_max,
{
}

/// Without a limit the user's request is used as is; without a request
/// the limit is used.
pub proof fn lemma_budget_defaults(u: u64, config_max: u64)
    ensures
        job_token_budget(Some(u), 0) == u,
        job_token_budget(None, config_max) == config_max,
{
}

/// The budget written to a job's context: only a positive budget is
/// applied; zero leaves the context's own default.
pub fn budget_to_apply(max_tokens: u64) -> (r: Option<u64>)
    ensures
        r == if max_tokens > 0 {
            Some(max_tokens)
        } else {
            None::<u64>
        },
{
    if max_tokens > 0 {
        Some(max_tokens)
    } else {
        None
    }
}

/// One update of a new job's context, applied at once so that no worker
/// sees the metadata without the budget or the other way round.
#[derive(Debug)]
pub struct ContextUpdate {
    /// The metadata to set, when the request carried some.
    pub metadata: Option<JsonValue>,
    /// The budget to set, when it is positive.
    pub max_tokens: Option<u64>,
}

/// How a created job is prepared before it is scheduled.
#[derive(Debug)]
pub struct DispatchPlan {
    /// The single context update to apply, if any.
    pub update: Option<ContextUpdate>,
    /// Whether the job is saved to the store before it is scheduled (so
    /// that the worker's references to it are valid).
    pub save_before_schedule: bool,
}

/// Prepare a created job: its metadata and its budget (the user's
/// `max_tokens` capped by the configured limit) go into one context
/// update; with a store the job is saved before it is scheduled.
pub fn plan_dispatch(metadata: Option<JsonValue>, config_max: u64, has_store: bool) -> (r: DispatchPlan)
    ensures
        r.save_before_schedule == has_store,
        ({
            let budget = job_token_budget(
                match metadata {
                    Some(m) => json_u64(json_get(m, "max_tokens"@)),
                    None => None,
                },
                config_max,
            );
            let applied = if budget > 0 {
                Some(budget)
            } else {
                None::<u64>
            };
            match metadata {
                Some(m) => r.update matches Some(u) && u.metadata == Some(m) && u.max_tokens
                    == applied,
                None => match applied {
                    Some(b) => r.update matches Some(u) && u.metadata is None && u.max_tokens
                        == Some(b),
                    None => r.update is None,
                },
            }
        }),
{
    let requested = requested_max_tokens(&metadata);
    let budget = effective_max_tokens(requested, config_max);
    let applied = budget_to_apply(budget);
    let update = match metadata {
        Some(m) => Some(ContextUpdate { metadata: Some(m), max_tokens: applied }),
        None => match applied {
            Some(b) => Some(ContextUpdate { metadata: None, max_tokens: Some(b) }),
            None => None,
        },
    };
    DispatchPlan { update, save_before_schedule: has_store }
}

/// Whether a job may be scheduled now.
#[derive(Debug)]
pub enum Admission {
    /// The job is already running; scheduling it again does nothing.
    AlreadyScheduled,
    /// As many jobs as allowed are running.
    MaxJobsExceeded { max: usize },
    /// Start a worker for the job.
    Admit,
}

/// Decide whether to schedule a job, given whether it is already running,
/// how many jobs run, and how many may run in parallel.
pub fn admit_job(already_running: bool, running: usize, max_parallel: usize) -> (r: Admission)
    ensures
        already_running ==> r is AlreadyScheduled,
        !already_running && running >= max_parallel ==> (r matches Admission::MaxJobsExceeded { max }
            && max == max_parallel),
        !already_running && running < max_parallel ==> r is Admit,
{
    if already_running {
        Admission::AlreadyScheduled
    } else if running >= max_parallel {
        Admission::MaxJobsExceeded { max: max_parallel }
    } else {
        Admission::Admit
    }
}

/// Admitting jobs one at a time never lets more than `max_parallel` run:
/// a job is added only when fewer than the limit run.
pub proof fn lemma_admission_bounded(already_running: bool, running: usize, max_parallel: usize)
    requires
        running <= max_parallel,
    ensures
        ({
            let after = if !already_running && running < max_parallel {
                running + 1
            } else {
                running as int
            };
            after <= max_parallel
        }),
{
}

/// Whether the cleanup loop drops a job's entry: once the entry is gone,
/// or its worker has finished and no cancellation is waiting to be
/// persisted.
pub fn should_remove_job(entry: Option<(bool, bool)>) -> (r: bool)
    ensures
        r == match entry {
            Some((finished, pending_cancel_persist)) => finished && !pending_cancel_persist,
            None => true,
        },
{
    match entry {
        Some((finished, pending)) => finished && !pending,
        None => true,
    }
}

/// Whether the cleanup loop drops a sub-task's entry: once it is gone or
/// finished.
pub fn should_remove_subtask(finished: Option<bool>) -> (r: bool)
    ensures
        r == match finished {
            Some(f) => f,
            None => true,
        },
{
    match finished {
        Some(f) => f,
        None => true,
    }
}

/// Reason given when a full job is handed to the sub-task path.
pub const JOB_AS_SUBTASK_REASON: &'static str = "Use schedule() for Job tasks, not spawn_subtask()";

/// The kind of task handed to the scheduler.
#[derive(Clone, Copy, PartialEq, Eq, Structural, Debug)]
pub enum TaskKind {
    /// A full job, with its own lifecycle.
    Job,
    /// A single tool execution.
    ToolExec,
    /// A background computation.
    Background,
}

/// How a sub-task request is handled.
#[derive(Debug)]
pub enum SubtaskRoute {
    /// Refused: a job goes through `schedule`, not the sub-task path; the
    /// context error's reason.
    Refused(String),
    /// Run the tool execution.
    RunTool,
    /// Run the background handler.
    RunBackground,
}

/// Route a sub-task request: a job is refused with the reason that jobs
/// are scheduled, other tasks run as sub-tasks.
pub fn route_subtask(kind: TaskKind) -> (r: SubtaskRoute)
    ensures
        match kind {
            TaskKind::Job => r matches SubtaskRoute::Refused(m) && m@ == JOB_AS_SUBTASK_REASON@,
            TaskKind::ToolExec => r is RunTool,
            TaskKind::Background => r is RunBackground,
        },
{
    match kind {
        TaskKind::Job => SubtaskRoute::Refused(JOB_AS_SUBTASK_REASON.to_owned()),
        TaskKind::ToolExec => SubtaskRoute::RunTool,
        TaskKind::Background => SubtaskRoute::RunBackground,
    }
}

/// Reason given when a batch member could not be spawned.
pub const SUBTASK_SPAWN_FAILED: &'static str = "Subtask failed to spawn";

/// Reason given when a sub-task's result channel closed.
pub const SUBTASK_CHANNEL_CLOSED: &'static str = "Subtask channel closed unexpectedly";

/// What a batch member came to: spawned and answered, spawned but its
/// channel closed, or never spawned.
#[derive(Debug)]
pub enum BatchSlot<T> {
    Answered(T),
    ChannelClosed,
    NotSpawned,
}

/// The result of a batch member: its own result when it answered, else an
/// error naming what went wrong.
pub fn batch_slot_result<T>(slot: BatchSlot<T>) -> (r: Result<T, &'static str>)
    ensures
        match slot {
            BatchSlot::Answered(t) => r == Ok::<T, &'static str>(t),
            BatchSlot::ChannelClosed => r matches Err(e) && e@ == SUBTASK_CHANNEL_CLOSED@,
            BatchSlot::NotSpawned => r matches Err(e) && e@ == SUBTASK_SPAWN_FAILED@,
        },
{
    match slot {
        BatchSlot::Answered(t) => Ok(t),
        BatchSlot::ChannelClosed => Err(SUBTASK_CHANNEL_CLOSED),
        BatchSlot::NotSpawned => Err(SUBTASK_SPAWN_FAILED),
    }
}

/// Why stopping a job failed.
#[derive(Debug, PartialEq, Eq)]
pub enum StopError {
    /// The scheduler does not run the job.
    NotFound,
    /// The job's state does not allow cancelling it (a completed job, say);
    /// the state it is in.
    InvalidTransition { from_state: String },
    /// The cancellation could not be saved; the store's error.
    Persistence { reason: String },
    /// The job's context could not be updated; the error.
    Context { reason: String },
}

/// How far stopping a job has come.
#[derive(Debug, PartialEq, Eq)]
pub enum StopStage {
    /// The job is looked up among the running jobs.
    Start,
    /// The stop signal was sent and the grace period is running.
    Signalled,
    /// The job's context is being moved to the cancelled state.
    Cancelling,
    /// The job is marked as awaiting its saved cancellation and its worker
    /// aborted.
    Pinned,
    /// The cancellation is being saved.
    Persisting,
    /// The job is being removed from the running jobs.
    Finalizing,
    /// Stopping is over.
    Done,
}

/// What the driver of a stop reports back.
#[derive(Debug)]
pub enum StopEvent {
    /// Whether the scheduler runs the job.
    LookedUp { registered: bool },
    /// The stop signal was sent (or timed out) and the grace period ended.
    Waited,
    /// The move to the cancelled state: done (or the job was cancelled
    /// already), or the error.
    Cancelled(Result<(), StopError>),
    /// The job was marked and its worker aborted.
    Pinned,
    /// Saving the cancellation: done (also when there is no store), or the
    /// store's error.
    Persisted(Result<(), String>),
    /// The job was removed from the running jobs.
    Finalized,
}

/// What the driver of a stop does next.
#[derive(Debug, PartialEq, Eq)]
pub enum StopAction {
    /// Send the stop signal to the worker, then wait the grace period.
    SignalAndWait,
    /// Move the job's context to the cancelled state.
    Cancel,
    /// Mark the job as awaiting its saved cancellation and abort its worker.
    PinAndAbort,
    /// Save the cancelled status.
    Persist,
    /// Remove the job from the running jobs.
    Finalize,
    /// Stopping is over, with this answer.
    Finish(Result<(), StopError>),
}

/// One step of stopping a job: an unknown job is refused; otherwise the
/// worker is signalled, the context cancelled (a refusal, such as for a
/// completed job, ends the stop with that error and nothing is saved),
/// the job marked and aborted, the cancellation saved (a store failure
/// ends the stop with a persistence error and keeps the job), and only
/// then the job removed.
pub open spec fn stop_step_spec(stage: StopStage, event: StopEvent) -> Option<(StopStage, StopAction)> {
    match (stage, event) {
        (StopStage::Start, StopEvent::LookedUp { registered }) => if registered {
            Some((StopStage::Signalled, StopAction::SignalAndWait))
        } else {
            Some((StopStage::Done, StopAction::Finish(Err(StopError::NotFound))))
        },
        (StopStage::Signalled, StopEvent::Waited) => Some((StopStage::Cancelling, StopAction::Cancel)),
        (StopStage::Cancelling, StopEvent::Cancelled(r)) => match r {
            Ok(()) => Some((StopStage::Pinned, StopAction::PinAndAbort)),
            Err(e) => Some((StopStage::Done, StopAction::Finish(Err(e)))),
        },
        (StopStage::Pinned, StopEvent::Pinned) => Some((StopStage::Persisting, StopAction::Persist)),
        (StopStage::Persisting, StopEvent::Persisted(r)) => match r {
            Ok(()) => Some((StopStage::Finalizing, StopAction::Finalize)),
            Err(reason) => Some(
                (StopStage::Done, StopAction::Finish(Err(StopError::Persistence { reason }))),
            ),
        },
        (StopStage::Finalizing, StopEvent::Finalized) => Some(
            (StopStage::Done, StopAction::Finish(Ok(()))),
        ),
        _ => None,
    }
}

/// One step of stopping a job (see `stop_step_spec`); `None` when the
/// event does not belong to the stage.
pub fn stop_step(stage: StopStage, event: StopEvent) -> (r: Option<(StopStage, StopAction)>)
    ensures
        r == stop_step_spec(stage, event),
{
    match (stage, event) {
        (StopStage::Start, StopEvent::LookedUp { registered }) => if registered {
            Some((StopStage::Signalled, StopAction::SignalAndWait))
        } else {
            Some((StopStage::Done, StopAction::Finish(Err(StopError::NotFound))))
        },
        (StopStage::Signalled, StopEvent::Waited) => Some((StopStage::Cancelling, StopAction::Cancel)),
        (StopStage::Cancelling, StopEvent::Cancelled(r)) => match r {
            Ok(()) => Some((StopStage::Pinned, StopAction::PinAndAbort)),
            Err(e) => Some((StopStage::Done, StopAction::Finish(Err(e)))),
        },
        (StopStage::Pinned, StopEvent::Pinned) => Some((StopStage::Persisting, StopAction::Persist)),
        (StopStage::Persisting, StopEvent::Persisted(r)) => match r {
            Ok(()) => Some((StopStage::Finalizing, StopAction::Finalize)),
            Err(reason) => Some(
                (StopStage::Done, StopAction::Finish(Err(StopError::Persistence { reason }))),
            ),
        },
        (StopStage::Finalizing, StopEvent::Finalized) => Some(
            (StopStage::Done, StopAction::Finish(Ok(()))),
        ),
        _ => None,
    }
}

/// A stop saves the cancellation only after the context was cancelled and
/// the job marked, and removes the job only after the cancellation was
/// saved; a refused cancellation (a completed job) saves nothing.
pub proof fn lemma_stop_order(stage: StopStage, event: StopEvent)
    ensures
        stop_step_spec(stage, event) matches Some((_, StopAction::Persist)) ==> stage
            == StopStage::Pinned,
        stop_step_spec(stage, event) matches Some((_, StopAction::PinAndAbort)) ==> event matches StopEvent::Cancelled(Ok(())),
        stop_step_spec(stage, event) matches Some((_, StopAction::Finalize)) ==> event matches StopEvent::Persisted(Ok(())),
        event matches StopEvent::Cancelled(Err(_)) ==> (stop_step_spec(stage, event) is None
            || stop_step_spec(stage, event) matches Some((StopStage::Done, StopAction::Finish(Err(_))))),
{
}

/// How the graceful stop of one job went during shutdown.
#[derive(Debug)]
pub enum ShutdownStop {
    /// The job stopped in time; the cancellation is saved next.
    Stopped,
    /// Stopping failed; nothing more is done for the job.
    Failed,
    /// Stopping did not end in time; the job is cancelled by force.
    TimedOut,
}

/// What shutdown does for one job after its graceful stop: a stopped job
/// has its cancellation saved, then is removed; a timed-out job is
/// cancelled by force first (and left alone when that is refused); a
/// failed stop is only reported.
#[derive(Debug, PartialEq, Eq)]
pub enum ShutdownPlan {
    SaveThenRemove,
    ForceCancelThenSaveThenRemove,
    Report,
}

/// Plan the rest of a job's shutdown from how its graceful stop went.
pub fn shutdown_plan(stop: ShutdownStop) -> (r: ShutdownPlan)
    ensures
        r == match stop {
            ShutdownStop::Stopped => ShutdownPlan::SaveThenRemove,
            ShutdownStop::TimedOut => ShutdownPlan::ForceCancelThenSaveThenRemove,
            ShutdownStop::Failed => ShutdownPlan::Report,
        },
{
    match stop {
        ShutdownStop::Stopped => ShutdownPlan::SaveThenRemove,
        ShutdownStop::TimedOut => ShutdownPlan::ForceCancelThenSaveThenRemove,
        ShutdownStop::Failed => ShutdownPlan::Report,
    }
}

/// The approval a background job's tools run under: autonomous
/// execution, which clears tools that only need approval unless
/// auto-approved, plus the tools that are explicitly permitted although
/// they always need approval.
#[derive(Debug)]
pub struct ApprovalContext {
    pub permitted_tools: Vec<String>,
}

impl ApprovalContext {
    /// Autonomous execution with no explicitly permitted tool.
    pub fn autonomous() -> (c: Self)
        ensures
            c.permitted_tools@.len() == 0,
    {
        ApprovalContext { permitted_tools: Vec::new() }
    }

    /// Autonomous execution that also permits `tools`.
    pub fn autonomous_with_tools(tools: Vec<String>) -> (c: Self)
        ensures
            c.permitted_tools == tools,
    {
        ApprovalContext { permitted_tools: tools }
    }

    /// Whether `name` is explicitly permitted.
    pub open spec fn permits(self, name: Seq<char>) -> bool {
        exists|i: int| 0 <= i < self.permitted_tools@.len() && (#[trigger] self.permitted_tools@[i])@ == name
    }

    fn permits_tool(&self, name: &str) -> (b: bool)
        ensures
            b == self.permits(name@),
    {
        let n = self.permitted_tools.len();
        let mut i: usize = 0;
        while i < n
            invariant
                n == self.permitted_tools@.len(),
                i <= n,
                forall|j: int| 0 <= j < i ==> (#[trigger] self.permitted_tools@[j])@ != name@,
            decreases n - i,
        {
            if crate::text::str_eq(self.permitted_tools[i].as_str(), name) {
                return true;
            }
            i = i + 1;
        }
        false
    }
}

/// Whether a scheduler tool task is blocked for want of approval: without
/// an approval context every tool that needs approval is blocked; under
/// an autonomous context only a tool that always needs approval is, unless
/// it is explicitly permitted.
pub open spec fn tool_task_blocked(req: ApprovalRequirement, ctx: Option<ApprovalContext>, name: Seq<char>) -> bool {
    match req {
        ApprovalRequirement::Never => false,
        ApprovalRequirement::UnlessAutoApproved => ctx is None,
        ApprovalRequirement::Always => match ctx {
            None => true,
            Some(c) => !c.permits(name),
        },
    }
}

/// A tool that never needs approval is never blocked, whatever the
/// approval context; one that needs approval unless auto-approved runs
/// under any approval context.
pub proof fn lemma_never_is_never_blocked(ctx: Option<ApprovalContext>, name: Seq<char>)
    ensures
        !tool_task_blocked(ApprovalRequirement::Never, ctx, name),
        ctx is Some ==> !tool_task_blocked(ApprovalRequirement::UnlessAutoApproved, ctx, name),
{
}

/// What happens to a tool task of a job.
#[derive(Debug, PartialEq, Eq)]
pub enum ToolTaskGate {
    /// The job is cancelled: the task fails.
    JobCancelled,
    /// The tool needs an approval the context does not give.
    AuthRequired,
    /// The tool runs.
    Run,
}

/// Decide whether a job's tool task runs: never for a cancelled job, then
/// by the approval the tool needs under the job's approval context.
pub fn gate_tool_task(job_cancelled: bool, req: ApprovalRequirement, ctx: &Option<ApprovalContext>, name: &str) -> (r:
    ToolTaskGate)
    ensures
        r == if job_cancelled {
            ToolTaskGate::JobCancelled
        } else if tool_task_blocked(req, *ctx, name@) {
            ToolTaskGate::AuthRequired
        } else {
            ToolTaskGate::Run
        },
{
    if job_cancelled {
        return ToolTaskGate::JobCancelled;
    }
    let blocked = match req {
        ApprovalRequirement::Never => false,
        ApprovalRequirement::UnlessAutoApproved => ctx.is_none(),
        ApprovalRequirement::Always => match ctx {
            None => true,
            Some(c) => !c.permits_tool(name),
        },
    };
    if blocked {
        ToolTaskGate::AuthRequired
    } else {
        ToolTaskGate::Run
    }
}

} // verus!
