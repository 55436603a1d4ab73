//! Self-repair for stuck jobs and broken tools: which jobs count as stuck,
//! when a repair is attempted, how its outcome is reported, and which
//! outcomes are worth a notification.
//!
//! Job and tool state come from the job context manager and the store;
//! times are Unix timestamps in seconds and spans are whole seconds.

use vstd::prelude::*;

use crate::text::{decimal, push_decimal, push_str};

verus! {

/// A job that has been detected as stuck.
#[derive(Debug, Clone)]
pub struct StuckJob {
    pub job_id: String,
    /// When the job became stuck (Unix nanoseconds).
    pub last_activity: i64,
    /// How long the job has been stuck, in seconds.
    pub stuck_duration: u64,
    pub last_error: Option<String>,
    pub repair_attempts: u32,
}

/// A tool that has been detected as broken.
#[derive(Debug, Clone)]
pub struct BrokenTool {
    pub name: String,
    pub failure_count: u32,
    pub last_error: Option<String>,
    /// First recorded failure (Unix seconds).
    pub first_failure: i64,
    /// Latest recorded failure (Unix seconds).
    pub last_failure: i64,
    /// The last build result, as JSON text.
    pub last_build_result: Option<String>,
    pub repair_attempts: u32,
}

/// Result of a repair attempt.
#[derive(Debug)]
pub enum RepairResult {
    /// Repair was successful.
    Success { message: String },
    /// Repair failed but can be retried.
    Retry { message: String },
    /// Repair failed permanently.
    Failed { message: String },
    /// Manual intervention required.
    ManualRequired { message: String },
}

/// Content of a repair result.
pub enum RepairResultView {
    Success { message: Seq<char> },
    Retry { message: Seq<char> },
    Failed { message: Seq<char> },
    ManualRequired { message: Seq<char> },
}

impl RepairResult {
    /// Content of this result.
    pub open spec fn model(self) -> RepairResultView {
        match self {
            RepairResult::Success { message } => RepairResultView::Success { message: message@ },
            RepairResult::Retry { message } => RepairResultView::Retry { message: message@ },
            RepairResult::Failed { message } => RepairResultView::Failed { message: message@ },
            RepairResult::ManualRequired { message } => RepairResultView::ManualRequired {
                message: message@,
            },
        }
    }
}

/// An error raised while repairing.
#[derive(Debug)]
pub enum RepairError {
    /// Repairing `target_id` (a job or a tool) failed.
    Failed { target_type: String, target_id: String, reason: String },
}

/// Notification emitted by the background repair loop.
#[derive(Debug, Clone, PartialEq, Eq)]
pub struct RepairNotification {
    pub message: String,
}

/// Failures after which the store reports a tool as broken.
pub const BROKEN_TOOL_FAILURE_THRESHOLD: u32 = 5;

/// The id used for a repair target that has none (the nil UUID).
pub const NIL_TARGET_ID: &'static str = "00000000-0000-0000-0000-000000000000";

/// Default self-repair policy: when a job counts as stuck, how many repairs
/// are tried, and whether a store (for tool failure tracking) and a builder
/// (for rebuilding tools) are available.
#[derive(Debug)]
pub struct DefaultSelfRepair {
    /// How long a job must have been stuck before it is repaired, in seconds.
    pub stuck_threshold: u64,
    pub max_repair_attempts: u32,
    pub has_store: bool,
    pub has_builder: bool,
}

impl DefaultSelfRepair {
    /// Create a new self-repair policy, with no store and no builder.
    pub fn new(stuck_threshold: u64, max_repair_attempts: u32) -> (r: Self)
        ensures
            r.stuck_threshold == stuck_threshold,
            r.max_repair_attempts == max_repair_attempts,
            !r.has_store,
            !r.has_builder,
    {
        DefaultSelfRepair { stuck_threshold, max_repair_attempts, has_store: false, has_builder: false }
    }

    /// Add a store for tool failure tracking.
    pub fn with_store(self) -> (r: Self)
        ensures
            r == (DefaultSelfRepair { has_store: true, ..self }),
    {
        DefaultSelfRepair { has_store: true, ..self }
    }

    /// Add a builder (and tool registry) for automatic tool repair.
    pub fn with_builder(self) -> (r: Self)
        ensures
            r == (DefaultSelfRepair { has_builder: true, ..self }),
    {
        DefaultSelfRepair { has_builder: true, ..self }
    }
}

/// Nanoseconds in a second.
pub const NANOS_PER_SEC: u64 = 1_000_000_000;

/// The whole seconds from `start` to `now` (Unix nanoseconds), truncated,
/// and zero when `start` is later.
pub open spec fn seconds_between(now: int, start: int) -> int {
    if now > start {
        (now - start) / (NANOS_PER_SEC as int)
    } else {
        0
    }
}

/// Whole seconds elapsed from `start` to `now`, both Unix nanoseconds:
/// the exact difference truncated to whole seconds, never negative.
pub fn duration_since(now: i64, start: i64) -> (r: u64)
    ensures
        r == seconds_between(now as int, start as int),
{
    if now > start {
        let d: i128 = (now as i128) - (start as i128);
        let du: u128 = d as u128;
        let q: u128 = du / (NANOS_PER_SEC as u128);
        assert(q <= du);
        q as u64
    } else {
        0
    }
}

/// What the context manager reports about a job it lists as stuck.
#[derive(Debug)]
pub struct JobSnapshot {
    pub job_id: String,
    /// Whether the job is in the stuck state.
    pub is_stuck: bool,
    /// When the job last entered the stuck state (Unix nanoseconds), if
    /// it did.
    pub stuck_since: Option<i64>,
    pub repair_attempts: u32,
}

/// The stuck job reported for a snapshot at time `now` (Unix nanoseconds),
/// when the job is in the stuck state and has been for at least
/// `threshold` whole seconds.
pub open spec fn stuck_job_of(s: JobSnapshot, now: i64, threshold: u64) -> Option<
    (Seq<char>, i64, int, u32),
> {
    if s.is_stuck {
        match s.stuck_since {
            Some(since) => if seconds_between(now as int, since as int) >= threshold {
                Some((s.job_id@, since, seconds_between(now as int, since as int), s.repair_attempts))
            } else {
                None
            },
            None => None,
        }
    } else {
        None
    }
}

/// The stuck jobs among `snaps`, in order.
pub open spec fn stuck_jobs_of(snaps: Seq<JobSnapshot>, now: i64, threshold: u64) -> Seq<
    (Seq<char>, i64, int, u32),
>
    decreases snaps.len(),
{
    if snaps.len() == 0 {
        Seq::empty()
    } else {
        let rest = stuck_jobs_of(snaps.drop_last(), now, threshold);
        match stuck_job_of(snaps.last(), now, threshold) {
            Some(j) => rest.push(j),
            None => rest,
        }
    }
}

/// The content of a stuck job that the detection reports.
pub open spec fn stuck_job_model(j: StuckJob) -> (Seq<char>, i64, int, u32) {
    (j.job_id@, j.last_activity, j.stuck_duration as int, j.repair_attempts)
}

impl DefaultSelfRepair {
    /// Detect stuck jobs among the contexts the manager lists as stuck: keep
    /// those in the stuck state that have been stuck for at least the
    /// threshold, with no last error recorded.
    pub fn detect_stuck_jobs(&self, now: i64, snaps: &Vec<JobSnapshot>) -> (r: Vec<StuckJob>)
        ensures
            r@.map_values(|j: StuckJob| stuck_job_model(j)) == stuck_jobs_of(
                snaps@,
                now,
                self.stuck_threshold,
            ),
            forall|i: int| 0 <= i < r@.len() ==> (#[trigger] r@[i]).last_error is None,
    {
        let mut out: Vec<StuckJob> = Vec::new();
        let n = snaps.len();
        let mut i: usize = 0;
        while i < n
            invariant
                n == snaps@.len(),
                i <= n,
                out@.map_values(|j: StuckJob| stuck_job_model(j)) == stuck_jobs_of(
                    snaps@.take(i as int),
                    now,
                    self.stuck_threshold,
                ),
                forall|k: int| 0 <= k < out@.len() ==> (#[trigger] out@[k]).last_error is None,
            decreases n - i,
        {
            assert(snaps@.take(i as int + 1).drop_last() =~= snaps@.take(i as int));
            let s = &snaps[i];
            if s.is_stuck {
                if let Some(since) = s.stuck_since {
                    let d = duration_since(now, since);
                    if d >= self.stuck_threshold {
                        let ghost before = out@;
                        out.push(
                            StuckJob {
                                job_id: s.job_id.clone(),
                                last_activity: since,
                                stuck_duration: d,
                                last_error: None,
                                repair_attempts: s.repair_attempts,
                            },
                        );
                        assert(out@.map_values(|j: StuckJob| stuck_job_model(j)) =~= before.map_values(
                            |j: StuckJob| stuck_job_model(j),
                        ).push(stuck_job_model(out@.last())));
                    }
                }
            }
            i = i + 1;
        }
        assert(snaps@.take(n as int) =~= snaps@);
        out
    }
}

/// Message when a job has used up its repair attempts.
pub open spec fn job_attempts_exceeded_text(job_id: Seq<char>, max: u32) -> Seq<char> {
    "Job "@ + job_id + " has exceeded maximum repair attempts ("@ + decimal(max as nat) + ")"@
}

/// What repairing a stuck job does first.
#[derive(Debug)]
pub enum StuckRepairPlan {
    /// Report this result without touching the job.
    Done(RepairResult),
    /// Ask the context manager to recover the job.
    AttemptRecovery,
}

impl DefaultSelfRepair {
    /// Decide how to repair a stuck job: a job that has used up its repair
    /// attempts needs manual intervention; any other is recovered.
    pub fn plan_stuck_job_repair(&self, job: &StuckJob) -> (r: StuckRepairPlan)
        ensures
            job.repair_attempts >= self.max_repair_attempts ==> (r matches StuckRepairPlan::Done(res)
                && res.model() == (RepairResultView::ManualRequired {
                message: job_attempts_exceeded_text(job.job_id@, self.max_repair_attempts),
            })),
            job.repair_attempts < self.max_repair_attempts ==> r is AttemptRecovery,
    {
        if job.repair_attempts >= self.max_repair_attempts {
            let mut m = "Job ".to_owned();
            push_str(&mut m, job.job_id.as_str());
            push_str(&mut m, " has exceeded maximum repair attempts (");
            push_decimal(&mut m, self.max_repair_attempts as u64);
            push_str(&mut m, ")");
            StuckRepairPlan::Done(RepairResult::ManualRequired { message: m })
        } else {
            StuckRepairPlan::AttemptRecovery
        }
    }
}

/// The outcome of recovering a stuck job, given what the context manager
/// answered: `Err` when the update itself failed, `Ok(Err(..))` when the
/// job refused to recover.
pub open spec fn recovery_outcome_spec(job_id: Seq<char>, answer: Result<Result<(), Seq<char>>, Seq<char>>) -> Result<
    RepairResultView,
    (Seq<char>, Seq<char>, Seq<char>),
> {
    match answer {
        Ok(Ok(())) => Ok(
            RepairResultView::Success { message: "Job "@ + job_id + " recovered and will be retried"@ },
        ),
        Ok(Err(e)) => Ok(RepairResultView::Retry { message: "Recovery attempt failed: "@ + e }),
        Err(e) => Err(("job"@, job_id, e)),
    }
}

/// Content of a repair error: (target type, target id, reason).
pub open spec fn repair_error_model(e: RepairError) -> (Seq<char>, Seq<char>, Seq<char>) {
    match e {
        RepairError::Failed { target_type, target_id, reason } => (
            target_type@,
            target_id@,
            reason@,
        ),
    }
}

/// Report the recovery of a stuck job.
pub fn recovery_outcome(job: &StuckJob, answer: Result<Result<(), String>, String>) -> (r: Result<
    RepairResult,
    RepairError,
>)
    ensures
        match r {
            Ok(res) => recovery_outcome_spec(
                job.job_id@,
                match answer {
                    Ok(Ok(())) => Ok(Ok(())),
                    Ok(Err(e)) => Ok(Err(e@)),
                    Err(e) => Err(e@),
                },
            ) == Ok::<RepairResultView, (Seq<char>, Seq<char>, Seq<char>)>(res.model()),
            Err(e) => recovery_outcome_spec(
                job.job_id@,
                match answer {
                    Ok(Ok(())) => Ok(Ok(())),
                    Ok(Err(e)) => Ok(Err(e@)),
                    Err(e) => Err(e@),
                },
            ) == Err::<RepairResultView, (Seq<char>, Seq<char>, Seq<char>)>(repair_error_model(e)),
        },
{
    match answer {
        Ok(Ok(())) => {
            let mut m = "Job ".to_owned();
            push_str(&mut m, job.job_id.as_str());
            push_str(&mut m, " recovered and will be retried");
            Ok(RepairResult::Success { message: m })
        },
        Ok(Err(e)) => {
            let mut m = "Recovery attempt failed: ".to_owned();
            push_str(&mut m, e.as_str());
            Ok(RepairResult::Retry { message: m })
        },
        Err(e) => Err(
            RepairError::Failed {
                target_type: "job".to_owned(),
                target_id: job.job_id.clone(),
                reason: e,
            },
        ),
    }
}

impl DefaultSelfRepair {
    /// The broken tools to repair, given what the store answered when asked
    /// for tools with at least five failures: none without a store or when
    /// the lookup failed.
    pub fn detect_broken_tools(&self, fetched: Result<Vec<BrokenTool>, String>) -> (r: Vec<
        BrokenTool,
    >)
        ensures
            !self.has_store ==> r@.len() == 0,
            self.has_store ==> match fetched {
                Ok(t) => r@ == t@,
                Err(_) => r@.len() == 0,
            },
    {
        if !self.has_store {
            return Vec::new();
        }
        match fetched {
            Ok(t) => t,
            Err(_) => Vec::new(),
        }
    }
}

/// Message when no builder is configured.
pub open spec fn no_builder_text(name: Seq<char>) -> Seq<char> {
    "Builder not available for repairing tool '"@ + name + "'"@
}

/// Message when no store is configured.
pub const NO_STORE_TEXT: &'static str = "Store not available for tracking repair";

/// Message when a tool has used up its repair attempts.
pub open spec fn tool_attempts_exceeded_text(name: Seq<char>, max: u32) -> Seq<char> {
    "Tool '"@ + name + "' exceeded max repair attempts ("@ + decimal(max as nat) + ")"@
}

/// The build request describing a repair of `tool`.
pub open spec fn repair_description_text(name: Seq<char>, last_error: Option<Seq<char>>, failures: u32) -> Seq<
    char,
> {
    "Repair broken WASM tool.\n\nTool name: "@ + name + "\nPrevious error: "@ + match last_error {
        Some(e) => e,
        None => "Unknown error"@,
    } + "\nFailure count: "@ + decimal(failures as nat)
        + "\n\nAnalyze the error, fix the implementation, and rebuild."@
}

/// What repairing a broken tool does.
#[derive(Debug)]
pub enum ToolRepairPlan {
    /// Report this result without building.
    Done(RepairResult),
    /// Count one more repair attempt in the store, then rebuild the tool
    /// from this description.
    Rebuild { description: String },
}

impl DefaultSelfRepair {
    /// Decide how to repair a broken tool: without a builder or a store, or
    /// once the tool has used up its attempts, manual intervention is
    /// needed; otherwise the tool is rebuilt.
    pub fn plan_tool_repair(&self, tool: &BrokenTool) -> (r: ToolRepairPlan)
        ensures
            !self.has_builder ==> (r matches ToolRepairPlan::Done(res) && res.model() == (
            RepairResultView::ManualRequired { message: no_builder_text(tool.name@) })),
            self.has_builder && !self.has_store ==> (r matches ToolRepairPlan::Done(res)
                && res.model() == (RepairResultView::ManualRequired { message: NO_STORE_TEXT@ })),
            self.has_builder && self.has_store && tool.repair_attempts >= self.max_repair_attempts
                ==> (r matches ToolRepairPlan::Done(res) && res.model() == (
            RepairResultView::ManualRequired {
                message: tool_attempts_exceeded_text(tool.name@, self.max_repair_attempts),
            })),
            self.has_builder && self.has_store && tool.repair_attempts < self.max_repair_attempts
                ==> (r matches ToolRepairPlan::Rebuild { description } && description@
                == repair_description_text(
                tool.name@,
                crate::llm::opt_chars(tool.last_error),
                tool.failure_count,
            )),
    {
        if !self.has_builder {
            let mut m = "Builder not available for repairing tool '".to_owned();
            push_str(&mut m, tool.name.as_str());
            push_str(&mut m, "'");
            return ToolRepairPlan::Done(RepairResult::ManualRequired { message: m });
        }
        if !self.has_store {
            return ToolRepairPlan::Done(
                RepairResult::ManualRequired { message: NO_STORE_TEXT.to_owned() },
            );
        }
        if tool.repair_attempts >= self.max_repair_attempts {
            let mut m = "Tool '".to_owned();
            push_str(&mut m, tool.name.as_str());
            push_str(&mut m, "' exceeded max repair attempts (");
            push_decimal(&mut m, self.max_repair_attempts as u64);
            push_str(&mut m, ")");
            return ToolRepairPlan::Done(RepairResult::ManualRequired { message: m });
        }
        let mut d = "Repair broken WASM tool.\n\nTool name: ".to_owned();
        push_str(&mut d, tool.name.as_str());
        push_str(&mut d, "\nPrevious error: ");
        match &tool.last_error {
            Some(e) => push_str(&mut d, e.as_str()),
            None => push_str(&mut d, "Unknown error"),
        }
        push_str(&mut d, "\nFailure count: ");
        push_decimal(&mut d, tool.failure_count as u64);
        push_str(&mut d, "\n\nAnalyze the error, fix the implementation, and rebuild.");
        ToolRepairPlan::Rebuild { description: d }
    }
}

/// The error when a tool's name cannot name a repair build.
pub open spec fn invalid_tool_name_text(name: Seq<char>, error: Seq<char>) -> Seq<char> {
    "invalid tool name '"@ + name + "' for repair build: "@ + error
}

/// The repair error for a tool whose name the builder refused.
pub fn invalid_tool_name(tool: &BrokenTool, error: &str) -> (r: RepairError)
    ensures
        repair_error_model(r) == ("tool"@, NIL_TARGET_ID@, invalid_tool_name_text(
            tool.name@,
            error@,
        )),
{
    let mut reason = "invalid tool name '".to_owned();
    push_str(&mut reason, tool.name.as_str());
    push_str(&mut reason, "' for repair build: ");
    push_str(&mut reason, error);
    RepairError::Failed {
        target_type: "tool".to_owned(),
        target_id: NIL_TARGET_ID.to_owned(),
        reason,
    }
}

/// What the builder answered for a repair build.
#[derive(Debug)]
pub enum BuildOutcome {
    /// The build ran to the end.
    Completed { success: bool, iterations: u32, error: Option<String> },
    /// The build could not run; the error's text.
    Errored(String),
}

/// The repair result of a build; a successful build also marks the tool
/// repaired in the store.
pub open spec fn build_result_spec(name: Seq<char>, attempts: u32, outcome: BuildOutcome) -> RepairResultView {
    match outcome {
        BuildOutcome::Completed { success, iterations, error } => if success {
            RepairResultView::Success {
                message: "Tool '"@ + name + "' repaired successfully after "@ + decimal(
                    iterations as nat,
                ) + " iterations"@,
            }
        } else {
            RepairResultView::Retry {
                message: "Repair attempt "@ + decimal(attempts as nat + 1) + " for '"@ + name
                    + "' failed: "@ + match error {
                    Some(e) => e@,
                    None => "Unknown error"@,
                },
            }
        },
        BuildOutcome::Errored(e) => RepairResultView::Retry { message: "Repair build error: "@ + e@ },
    }
}

/// Report a repair build of `tool`.
pub fn build_result(tool: &BrokenTool, outcome: BuildOutcome) -> (r: RepairResult)
    ensures
        r.model() == build_result_spec(tool.name@, tool.repair_attempts, outcome),
{
    match outcome {
        BuildOutcome::Completed { success, iterations, error } => {
            if success {
                let mut m = "Tool '".to_owned();
                push_str(&mut m, tool.name.as_str());
                push_str(&mut m, "' repaired successfully after ");
                push_decimal(&mut m, iterations as u64);
                push_str(&mut m, " iterations");
                RepairResult::Success { message: m }
            } else {
                let mut m = "Repair attempt ".to_owned();
                push_decimal(&mut m, tool.repair_attempts as u64 + 1);
                push_str(&mut m, " for '");
                push_str(&mut m, tool.name.as_str());
                push_str(&mut m, "' failed: ");
                match &error {
                    Some(e) => push_str(&mut m, e.as_str()),
                    None => push_str(&mut m, "Unknown error"),
                }
                RepairResult::Retry { message: m }
            }
        },
        BuildOutcome::Errored(e) => {
            let mut m = "Repair build error: ".to_owned();
            push_str(&mut m, e.as_str());
            RepairResult::Retry { message: m }
        },
    }
}

/// How far the repair of a broken tool has come.
#[derive(Debug)]
pub enum ToolRepairStage {
    /// Nothing is done yet.
    Start,
    /// The store is counting one more attempt; the build will use this
    /// description.
    Counting { description: String },
    /// The tool's name is being checked as a project name.
    CheckingName { description: String },
    /// The builder is rebuilding the tool.
    Building,
    /// The build succeeded; the store is marking the tool repaired, then
    /// the repair reports this success.
    Marking { success: RepairResult },
    /// The repair is over.
    Done,
}

/// What the driver of a repair reports back after an action.
#[derive(Debug)]
pub enum ToolRepairEvent {
    /// The repair begins.
    Begin,
    /// The store counted the attempt (a store failure is only logged).
    AttemptCounted,
    /// The tool name was checked: accepted, or refused with the error.
    NameChecked(Result<(), String>),
    /// The builder finished.
    Built(BuildOutcome),
    /// The store marked the tool repaired (a store failure is only logged).
    MarkedRepaired,
}

/// What the driver of a repair does next.
#[derive(Debug)]
pub enum ToolRepairAction {
    /// Count one more repair attempt of the tool in the store.
    IncrementAttempts,
    /// Check the tool's name as a project name.
    CheckName,
    /// Rebuild the tool from this description.
    Build { description: String },
    /// Mark the tool repaired in the store.
    MarkRepaired,
    /// The repair is over with this answer.
    Finish(Result<RepairResult, RepairError>),
}

/// Whether `event` is what the driver reports in `stage`.
pub open spec fn event_fits(stage: ToolRepairStage, event: ToolRepairEvent) -> bool {
    match stage {
        ToolRepairStage::Start => event is Begin,
        ToolRepairStage::Counting { .. } => event is AttemptCounted,
        ToolRepairStage::CheckingName { .. } => event is NameChecked,
        ToolRepairStage::Building => event is Built,
        ToolRepairStage::Marking { .. } => event is MarkedRepaired,
        ToolRepairStage::Done => false,
    }
}

impl DefaultSelfRepair {
    /// One step of repairing a broken tool. Without a builder or a store,
    /// or once the tool has used up its attempts, the repair ends at once
    /// with the manual-intervention answer. Otherwise the store first
    /// counts the attempt; then the tool's name is checked, and a refused
    /// name ends the repair with an error, before any build; a valid name
    /// starts the build; a successful build has the store mark the tool
    /// repaired before the success is reported; any other build outcome
    /// is reported as a retry.
    pub fn repair_step(&self, tool: &BrokenTool, stage: ToolRepairStage, event: ToolRepairEvent) -> (r: (
        ToolRepairStage,
        ToolRepairAction,
    ))
        requires
            event_fits(stage, event),
        ensures
            match stage {
                ToolRepairStage::Start => {
                    &&& !self.has_builder ==> r.0 is Done && (
                    r.1 matches ToolRepairAction::Finish(Ok(res)) && res.model() == (
                    RepairResultView::ManualRequired { message: no_builder_text(tool.name@) }))
                    &&& self.has_builder && !self.has_store ==> r.0 is Done && (
                    r.1 matches ToolRepairAction::Finish(Ok(res)) && res.model() == (
                    RepairResultView::ManualRequired { message: NO_STORE_TEXT@ }))
                    &&& self.has_builder && self.has_store && tool.repair_attempts
                        >= self.max_repair_attempts ==> r.0 is Done && (
                    r.1 matches ToolRepairAction::Finish(Ok(res)) && res.model() == (
                    RepairResultView::ManualRequired {
                        message: tool_attempts_exceeded_text(tool.name@, self.max_repair_attempts),
                    }))
                    &&& self.has_builder && self.has_store && tool.repair_attempts
                        < self.max_repair_attempts ==> (r.0 matches ToolRepairStage::Counting {
                        description,
                    } && description@ == repair_description_text(
                        tool.name@,
                        crate::llm::opt_chars(tool.last_error),
                        tool.failure_count,
                    ) && r.1 is IncrementAttempts)
                },
                ToolRepairStage::Counting { description } => (r.0 matches ToolRepairStage::CheckingName {
                    description: d,
                } && d == description) && r.1 is CheckName,
                ToolRepairStage::CheckingName { description } => match event {
                    ToolRepairEvent::NameChecked(Ok(())) => r.0 is Building && (
                    r.1 matches ToolRepairAction::Build { description: d } && d == description),
                    ToolRepairEvent::NameChecked(Err(e)) => r.0 is Done && (
                    r.1 matches ToolRepairAction::Finish(Err(err)) && repair_error_model(err) == (
                        "tool"@,
                        NIL_TARGET_ID@,
                        invalid_tool_name_text(tool.name@, e@),
                    )),
                    _ => false,
                },
                ToolRepairStage::Building => match event {
                    ToolRepairEvent::Built(outcome) => {
                        let res = build_result_spec(tool.name@, tool.repair_attempts, outcome);
                        if res is Success {
                            (r.0 matches ToolRepairStage::Marking { success } && success.model()
                                == res) && r.1 is MarkRepaired
                        } else {
                            r.0 is Done && (r.1 matches ToolRepairAction::Finish(Ok(x))
                                && x.model() == res)
                        }
                    },
                    _ => false,
                },
                ToolRepairStage::Marking { success } => r.0 is Done && (
                r.1 matches ToolRepairAction::Finish(Ok(x)) && x == success),
                ToolRepairStage::Done => false,
            },
    {
        match stage {
            ToolRepairStage::Start => match self.plan_tool_repair(tool) {
                ToolRepairPlan::Done(res) => (ToolRepairStage::Done, ToolRepairAction::Finish(Ok(res))),
                ToolRepairPlan::Rebuild { description } => (
                    ToolRepairStage::Counting { description },
                    ToolRepairAction::IncrementAttempts,
                ),
            },
            ToolRepairStage::Counting { description } => (
                ToolRepairStage::CheckingName { description },
                ToolRepairAction::CheckName,
            ),
            ToolRepairStage::CheckingName { description } => match event {
                ToolRepairEvent::NameChecked(Ok(())) => (
                    ToolRepairStage::Building,
                    ToolRepairAction::Build { description },
                ),
                ToolRepairEvent::NameChecked(Err(e)) => (
                    ToolRepairStage::Done,
                    ToolRepairAction::Finish(Err(invalid_tool_name(tool, e.as_str()))),
                ),
                _ => {
                    assert(false);
                    (ToolRepairStage::Done, ToolRepairAction::CheckName)
                },
            },
            ToolRepairStage::Building => match event {
                ToolRepairEvent::Built(outcome) => {
                    let res = build_result(tool, outcome);
                    match res {
                        RepairResult::Success { .. } => (
                            ToolRepairStage::Marking { success: res },
                            ToolRepairAction::MarkRepaired,
                        ),
                        _ => (ToolRepairStage::Done, ToolRepairAction::Finish(Ok(res))),
                    }
                },
                _ => {
                    assert(false);
                    (ToolRepairStage::Done, ToolRepairAction::CheckName)
                },
            },
            ToolRepairStage::Marking { success } => (
                ToolRepairStage::Done,
                ToolRepairAction::Finish(Ok(success)),
            ),
            ToolRepairStage::Done => {
                assert(false);
                (ToolRepairStage::Done, ToolRepairAction::CheckName)
            },
        }
    }
}

/// The notification for the repair of a stuck job: sent on success,
/// permanent failure and when manual intervention is needed; not on a
/// retry or an error.
pub open spec fn stuck_job_notice(job_id: Seq<char>, secs: u64, r: Option<RepairResultView>) -> Option<
    Seq<char>,
> {
    match r {
        Some(RepairResultView::Success { message }) => Some(
            "Job "@ + job_id + " was stuck for "@ + decimal(secs as nat) + "s, recovery succeeded: "@
                + message,
        ),
        Some(RepairResultView::Failed { message }) => Some(
            "Job "@ + job_id + " was stuck for "@ + decimal(secs as nat)
                + "s, recovery failed permanently: "@ + message,
        ),
        Some(RepairResultView::ManualRequired { message }) => Some(
            "Job "@ + job_id + " needs manual intervention: "@ + message,
        ),
        _ => None,
    }
}

/// Content of a repair answer, without the error.
pub open spec fn answer_model(r: Result<RepairResult, RepairError>) -> Option<RepairResultView> {
    match r {
        Ok(res) => Some(res.model()),
        Err(_) => None,
    }
}

/// The notification owed for repairing a stuck job, if any.
pub fn stuck_job_notification(job: &StuckJob, result: &Result<RepairResult, RepairError>) -> (r:
    Option<RepairNotification>)
    ensures
        match r {
            Some(n) => stuck_job_notice(job.job_id@, job.stuck_duration, answer_model(*result))
                == Some(n.message@),
            None => stuck_job_notice(job.job_id@, job.stuck_duration, answer_model(*result))
                is None,
        },
{
    match result {
        Ok(RepairResult::Success { message }) => {
            let mut m = "Job ".to_owned();
            push_str(&mut m, job.job_id.as_str());
            push_str(&mut m, " was stuck for ");
            push_decimal(&mut m, job.stuck_duration);
            push_str(&mut m, "s, recovery succeeded: ");
            push_str(&mut m, message.as_str());
            Some(RepairNotification { message: m })
        },
        Ok(RepairResult::Failed { message }) => {
            let mut m = "Job ".to_owned();
            push_str(&mut m, job.job_id.as_str());
            push_str(&mut m, " was stuck for ");
            push_decimal(&mut m, job.stuck_duration);
            push_str(&mut m, "s, recovery failed permanently: ");
            push_str(&mut m, message.as_str());
            Some(RepairNotification { message: m })
        },
        Ok(RepairResult::ManualRequired { message }) => {
            let mut m = "Job ".to_owned();
            push_str(&mut m, job.job_id.as_str());
            push_str(&mut m, " needs manual intervention: ");
            push_str(&mut m, message.as_str());
            Some(RepairNotification { message: m })
        },
        _ => None,
    }
}

/// The notification owed for repairing a broken tool: only a successful
/// repair is reported.
pub fn tool_repair_notification(tool: &BrokenTool, result: &Result<RepairResult, RepairError>) -> (r:
    Option<RepairNotification>)
    ensures
        match answer_model(*result) {
            Some(RepairResultView::Success { message }) => r matches Some(n) && n.message@ == "Tool '"@
                + tool.name@ + "' repaired: "@ + message,
            _ => r is None,
        },
{
    match result {
        Ok(RepairResult::Success { message }) => {
            let mut m = "Tool '".to_owned();
            push_str(&mut m, tool.name.as_str());
            push_str(&mut m, "' repaired: ");
            push_str(&mut m, message.as_str());
            Some(RepairNotification { message: m })
        },
        _ => None,
    }
}

} // verus!
