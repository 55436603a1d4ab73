//! Decisions of the routine engine: lightweight prompts and replies, the
//! guardrails that decide whether a routine fires (cooldown, concurrency,
//! global capacity), trigger matching, and run bookkeeping.
//!
//! Times are Unix timestamps in whole seconds.

use vstd::prelude::*;

use crate::dispatcher::pipeline::strings_of;
use crate::json::{json_get, JsonNumber, JsonValue, JsonView};
use crate::llm::{messages_model, plain_message, ChatMessage, MessageView, Role};
use crate::routine::{filter_string_of, json_value_as_filter_string, RoutineError, RoutineErrorView};
use crate::text::{
    chars_of, contains, decimal, decimal_string, push_char, push_decimal, push_str, str_contains,
    trim, trimmed,
};

verus! {

broadcast use vstd::std_specs::vec::group_vec_axioms;

/// Status of a routine run.
#[derive(Clone, Copy, PartialEq, Eq, Structural, Debug)]
pub enum RunStatus {
    Running,
    /// The run finished and nothing needs attention.
    Succeeded,
    Attention,
    Failed,
}

/// The stored label of a run status.
pub open spec fn run_status_label(s: RunStatus) -> Seq<char> {
    match s {
        RunStatus::Running => "running"@,
        RunStatus::Succeeded => "ok"@,
        RunStatus::Attention => "attention"@,
        RunStatus::Failed => "failed"@,
    }
}

impl RunStatus {
    /// The status's label, as stored and shown.
    pub fn as_str(&self) -> (r: &'static str)
        ensures
            r@ == run_status_label(*self),
    {
        match self {
            RunStatus::Running => "running",
            RunStatus::Succeeded => "ok",
            RunStatus::Attention => "attention",
            RunStatus::Failed => "failed",
        }
    }

    /// The status with label `s`, if any.
    pub fn parse_label(s: &str) -> (r: Option<RunStatus>)
        ensures
            r matches Some(x) ==> run_status_label(x) == s@,
            r is None ==> forall|x: RunStatus| run_status_label(x) != s@,
    {
        proof {
            lemma_run_status_labels_distinct();
        }
        if crate::text::str_eq(s, "running") {
            Some(RunStatus::Running)
        } else if crate::text::str_eq(s, "ok") {
            Some(RunStatus::Succeeded)
        } else if crate::text::str_eq(s, "attention") {
            Some(RunStatus::Attention)
        } else if crate::text::str_eq(s, "failed") {
            Some(RunStatus::Failed)
        } else {
            None
        }
    }
}

proof fn lemma_run_status_labels_distinct()
    ensures
        forall|x: RunStatus, y: RunStatus| run_status_label(x) == run_status_label(y) ==> x == y,
{
    reveal_strlit("running");
    reveal_strlit("ok");
    reveal_strlit("attention");
    reveal_strlit("failed");
    assert forall|x: RunStatus, y: RunStatus| run_status_label(x) == run_status_label(y) implies x
        == y by {
        if x != y {
            assert(run_status_label(x).len() != run_status_label(y).len() || run_status_label(x)[0]
                != run_status_label(y)[0]);
        }
    }
}

/// No two statuses share a label, so parsing a status's label gives that
/// status back.
pub proof fn lemma_run_status_label_roundtrip(s: RunStatus)
    ensures
        forall|x: RunStatus| run_status_label(x) == run_status_label(s) ==> x == s,
{
    lemma_run_status_labels_distinct();
}

/// Limits on how often a routine runs.
#[derive(Debug)]
pub struct RoutineGuardrails {
    /// Least time between two runs.
    pub cooldown: std::time::Duration,
    /// Most runs in progress at once.
    pub max_concurrent: u32,
    /// Window in which a repeated trigger is ignored, if any.
    pub dedup_window: Option<std::time::Duration>,
}

impl Default for RoutineGuardrails {
    /// A five-minute cooldown, one run at a time, no deduplication.
    fn default() -> (r: Self)
        ensures
            r.cooldown == crate::heartbeat::seconds(DEFAULT_COOLDOWN_SECS as u64),
            r.max_concurrent == 1,
            r.dedup_window is None,
    {
        RoutineGuardrails {
            cooldown: crate::heartbeat::duration_from_secs(DEFAULT_COOLDOWN_SECS as u64),
            max_concurrent: 1,
            dedup_window: None,
        }
    }
}

/// Routine engine settings that lightweight runs read.
#[derive(Debug)]
pub struct RoutineConfig {
    /// Whether lightweight routines may call tools.
    pub lightweight_tools_enabled: bool,
    /// Iterations of a lightweight run with tools, before the cap of five.
    pub lightweight_max_iterations: u32,
}

impl Default for RoutineConfig {
    /// Tools enabled, three iterations.
    fn default() -> (r: Self)
        ensures
            r.lightweight_tools_enabled,
            r.lightweight_max_iterations == 3,
    {
        RoutineConfig { lightweight_tools_enabled: true, lightweight_max_iterations: 3 }
    }
}

/// Whether `c` may appear in a workspace path segment: ASCII letters and
/// digits, `-` and `_`.
pub open spec fn is_workspace_safe(c: char) -> bool {
    ('a' <= c && c <= 'z') || ('A' <= c && c <= 'Z') || ('0' <= c && c <= '9') || c == '-' || c
        == '_'
}

/// Return `true` when a character is safe to appear in a workspace path.
pub fn is_workspace_safe_char(c: char) -> (b: bool)
    ensures
        b == is_workspace_safe(c),
{
    ('a' <= c && c <= 'z') || ('A' <= c && c <= 'Z') || ('0' <= c && c <= '9') || c == '-' || c
        == '_'
}

/// A routine name made safe for paths: every unsafe character becomes `_`.
pub open spec fn sanitized_name(name: Seq<char>) -> Seq<char> {
    name.map_values(|c: char| if is_workspace_safe(c) { c } else { '_' })
}

/// Sanitize a routine name for use in workspace paths.
pub fn sanitize_routine_name(name: &str) -> (r: String)
    ensures
        r@ == sanitized_name(name@),
{
    let v = chars_of(name);
    let mut out = String::new();
    let n = v.len();
    let mut i: usize = 0;
    while i < n
        invariant
            n == v@.len(),
            v@ == name@,
            i <= n,
            out@ == sanitized_name(v@.take(i as int)),
        decreases n - i,
    {
        let c = v[i];
        if is_workspace_safe_char(c) {
            push_char(&mut out, c);
        } else {
            push_char(&mut out, '_');
        }
        assert(sanitized_name(v@.take(i as int + 1)) =~= sanitized_name(v@.take(i as int)).push(
            if is_workspace_safe(c) {
                c
            } else {
                '_'
            },
        ));
        i = i + 1;
    }
    assert(v@.take(n as int) =~= v@);
    out
}

/// A sanitized name holds only path-safe characters (so no `/` or `.` can
/// lead out of the routine's directory), keeps the name's length,
/// sanitizing again changes nothing, and names that are already safe are
/// kept.
pub proof fn lemma_sanitize_keeps_safe(name: Seq<char>)
    ensures
        forall|i: int|
            0 <= i < sanitized_name(name).len() ==> is_workspace_safe(#[trigger] sanitized_name(name)[i]),
        sanitized_name(name).len() == name.len(),
        sanitized_name(sanitized_name(name)) == sanitized_name(name),
        (forall|i: int| 0 <= i < name.len() ==> is_workspace_safe(#[trigger] name[i]))
            ==> sanitized_name(name) == name,
{
    assert(sanitized_name(sanitized_name(name)) =~= sanitized_name(name));
    if forall|i: int| 0 <= i < name.len() ==> is_workspace_safe(#[trigger] name[i]) {
        assert(sanitized_name(name) =~= name);
    }
}

/// The workspace path of a routine's persisted state.
pub fn routine_state_path(name: &str) -> (r: String)
    ensures
        r@ == "routines/"@ + sanitized_name(name@) + "/state.md"@,
{
    let safe = sanitize_routine_name(name);
    let mut p = "routines/".to_owned();
    push_str(&mut p, safe.as_str());
    push_str(&mut p, "/state.md");
    p
}

/// A context document as it enters the prompt: `## <path>` then its text.
pub fn context_part(path: &str, content: &str) -> (r: String)
    ensures
        r@ == "## "@ + path@ + "\n\n"@ + content@,
{
    let mut s = "## ".to_owned();
    push_str(&mut s, path);
    push_str(&mut s, "\n\n");
    push_str(&mut s, content);
    s
}

/// `parts` joined with blank lines.
pub open spec fn joined(parts: Seq<Seq<char>>) -> Seq<char>
    decreases parts.len(),
{
    if parts.len() == 0 {
        Seq::empty()
    } else if parts.len() == 1 {
        parts[0]
    } else {
        joined(parts.drop_last()) + "\n\n"@ + parts.last()
    }
}

/// Closing instructions of every lightweight prompt.
pub const ROUTINE_PROMPT_TAIL: &'static str =
    "\n\n---\n\nIf nothing needs attention, reply EXACTLY with: ROUTINE_OK\nIf something needs attention, provide a concise summary.";

/// The lightweight prompt: the routine's prompt, then the context
/// documents and the previous state when there are any, then the
/// `ROUTINE_OK` instructions.
pub open spec fn lightweight_prompt_text(prompt: Seq<char>, parts: Seq<Seq<char>>, state: Option<
    Seq<char>,
>) -> Seq<char> {
    prompt + (if parts.len() > 0 {
        "\n\n---\n\n# Context\n\n"@ + joined(parts)
    } else {
        Seq::empty()
    }) + match state {
        Some(s) => "\n\n---\n\n# Previous State\n\n"@ + s,
        None => Seq::empty(),
    } + ROUTINE_PROMPT_TAIL@
}

/// Content of a list of strings.
pub open spec fn texts(v: Seq<String>) -> Seq<Seq<char>> {
    v.map_values(|s: String| s@)
}

/// Assembles the lightweight prompt.
pub fn build_lightweight_prompt(prompt: &str, context_parts: &Vec<String>, state_content: Option<&str>) -> (r:
    String)
    ensures
        r@ == lightweight_prompt_text(
            prompt@,
            texts(context_parts@),
            match state_content {
                Some(s) => Some(s@),
                None => None,
            },
        ),
{
    let mut full = String::new();
    push_str(&mut full, prompt);
    let n = context_parts.len();
    if n > 0 {
        push_str(&mut full, "\n\n---\n\n# Context\n\n");
        let ghost head = full@;
        push_str(&mut full, context_parts[0].as_str());
        assert(texts(context_parts@).take(1).len() == 1);
        assert(joined(texts(context_parts@).take(1)) == context_parts@[0]@);
        let mut i: usize = 1;
        while i < n
            invariant
                n == context_parts@.len(),
                1 <= i <= n,
                full@ == head + joined(texts(context_parts@).take(i as int)),
            decreases n - i,
        {
            push_str(&mut full, "\n\n");
            push_str(&mut full, context_parts[i].as_str());
            assert(texts(context_parts@).take(i as int + 1).drop_last() =~= texts(context_parts@).take(
                i as int,
            ));
            assert(texts(context_parts@).take(i as int + 1).last() == context_parts@[i as int]@);
            assert(full@ =~= head + joined(texts(context_parts@).take(i as int + 1)));
            i = i + 1;
        }
        assert(texts(context_parts@).take(n as int) =~= texts(context_parts@));
    }
    if let Some(state) = state_content {
        push_str(&mut full, "\n\n---\n\n# Previous State\n\n");
        push_str(&mut full, state);
    }
    push_str(&mut full, ROUTINE_PROMPT_TAIL);
    proof {
        assert(full@ =~= lightweight_prompt_text(
            prompt@,
            texts(context_parts@),
            match state_content {
                Some(s) => Some(s@),
                None => None,
            },
        ));
    }
    full
}

/// The opening messages: the system prompt when non-empty, then the
/// prompt as a user message.
pub fn initial_messages(system_prompt: &str, full_prompt: &str) -> (r: Vec<ChatMessage>)
    ensures
        messages_model(r@) == if system_prompt@.len() == 0 {
            seq![plain_message(Role::User, full_prompt@)]
        } else {
            seq![plain_message(Role::System, system_prompt@), plain_message(Role::User, full_prompt@)]
        },
{
    let r = if system_prompt.is_empty() {
        vec![ChatMessage::user(full_prompt)]
    } else {
        vec![ChatMessage::system(system_prompt), ChatMessage::user(full_prompt)]
    };
    assert(messages_model(r@) =~= if system_prompt@.len() == 0 {
        seq![plain_message(Role::User, full_prompt@)]
    } else {
        seq![plain_message(Role::System, system_prompt@), plain_message(Role::User, full_prompt@)]
    });
    r
}

/// The reply budget of a lightweight run: half the model's context window,
/// never below the routine's own `max_tokens`; the routine's value when
/// the context length is unknown or the lookup failed.
pub open spec fn routine_max_tokens_spec(context_length: Option<u32>, max_tokens: u32) -> u32 {
    match context_length {
        Some(ctx) => if ctx / 2 > max_tokens {
            (ctx / 2) as u32
        } else {
            max_tokens
        },
        None => max_tokens,
    }
}

/// Determine the effective max tokens of a lightweight run.
pub fn resolve_max_tokens<E>(metadata: Result<Option<u32>, E>, max_tokens: u32) -> (r: u32)
    ensures
        r == routine_max_tokens_spec(
            match metadata {
                Ok(c) => c,
                Err(_) => None,
            },
            max_tokens,
        ),
{
    match metadata {
        Ok(Some(ctx)) => if ctx / 2 > max_tokens {
            ctx / 2
        } else {
            max_tokens
        },
        _ => max_tokens,
    }
}

/// Why the model stopped.
#[derive(Clone, Copy, PartialEq, Eq, Structural, Debug)]
pub enum FinishReason {
    Stop,
    Length,
    ToolUse,
    ContentFilter,
    Unknown,
}

/// The sentinel reply meaning that nothing needs attention.
pub const ROUTINE_OK: &'static str = "ROUTINE_OK";

/// A finished lightweight run: its status, summary and tokens used.
pub type RunOutcome = (RunStatus, Option<String>, Option<i32>);

/// The outcome of a text reply: an empty reply is an error (truncated when
/// the model hit its token limit); a reply mentioning `ROUTINE_OK` means
/// nothing needs attention; any other reply is the summary to report.
pub open spec fn text_response_spec(content: Seq<char>, finish: FinishReason, tokens: int) -> Result<
    (RunStatus, Option<Seq<char>>, Option<i32>),
    RoutineErrorView,
> {
    let c = trim(content);
    if c.len() == 0 {
        if finish == FinishReason::Length {
            Err(RoutineErrorView::TruncatedResponse)
        } else {
            Err(RoutineErrorView::EmptyResponse)
        }
    } else if contains(c, ROUTINE_OK@) {
        Ok((RunStatus::Succeeded, None, Some(tokens as i32)))
    } else {
        Ok((RunStatus::Attention, Some(c), Some(tokens as i32)))
    }
}

/// Content of a run outcome.
pub open spec fn outcome_model(r: Result<RunOutcome, RoutineError>) -> Result<
    (RunStatus, Option<Seq<char>>, Option<i32>),
    RoutineErrorView,
> {
    match r {
        Ok((s, m, t)) => Ok((s, crate::llm::opt_chars(m), t)),
        Err(e) => Err(e.model()),
    }
}

/// Handle a text-only reply of a lightweight run, with the input and output
/// tokens used so far.
pub fn handle_text_response(
    content: &str,
    finish_reason: FinishReason,
    total_input_tokens: u32,
    total_output_tokens: u32,
) -> (r: Result<RunOutcome, RoutineError>)
    requires
        total_input_tokens + total_output_tokens <= u32::MAX,
    ensures
        outcome_model(r) == text_response_spec(
            content@,
            finish_reason,
            total_input_tokens + total_output_tokens,
        ),
{
    let c = trimmed(content);
    if c.as_str().is_empty() {
        return if finish_reason == FinishReason::Length {
            Err(RoutineError::TruncatedResponse)
        } else {
            Err(RoutineError::EmptyResponse)
        };
    }
    let total: u32 = total_input_tokens + total_output_tokens;
    let tokens = total as i32;
    if str_contains(c.as_str(), ROUTINE_OK) {
        return Ok((RunStatus::Succeeded, None, Some(tokens)));
    }
    Ok((RunStatus::Attention, Some(c), Some(tokens)))
}

/// Running token totals accumulated across loop iterations.
#[derive(Debug)]
pub struct TokenTotals {
    pub input: u32,
    pub output: u32,
}

impl TokenTotals {
    /// No tokens yet.
    pub fn new() -> (t: Self)
        ensures
            t.input == 0 && t.output == 0,
    {
        TokenTotals { input: 0, output: 0 }
    }

    /// Adds one response's token usage to the totals.
    pub fn add(&mut self, input: u32, output: u32)
        requires
            old(self).input + input <= u32::MAX,
            old(self).output + output <= u32::MAX,
        ensures
            final(self).input == old(self).input + input,
            final(self).output == old(self).output + output,
    {
        self.input = self.input + input;
        self.output = self.output + output;
    }
}

/// Most iterations a lightweight run may take, whatever is configured.
pub const LIGHTWEIGHT_MAX_ITERATIONS_CAP: u32 = 5;

/// Iterations of a lightweight run with tools: the configured number,
/// capped at five. All but the last may call tools; the last must answer
/// with text.
pub fn lightweight_iterations(configured: u32) -> (r: u32)
    ensures
        r == if configured < LIGHTWEIGHT_MAX_ITERATIONS_CAP {
            configured
        } else {
            LIGHTWEIGHT_MAX_ITERATIONS_CAP
        },
        r <= LIGHTWEIGHT_MAX_ITERATIONS_CAP,
{
    if configured < LIGHTWEIGHT_MAX_ITERATIONS_CAP {
        configured
    } else {
        LIGHTWEIGHT_MAX_ITERATIONS_CAP
    }
}

/// How a tool requested by a lightweight run may be used: only tools that
/// never need approval run, since such runs may handle untrusted input.
pub open spec fn lightweight_tool_error(name: Seq<char>, known: bool, never_needs_approval: bool, invalid_params: Option<
    Seq<char>,
>) -> Option<Seq<char>> {
    if !known {
        Some("Tool '"@ + name + "' not found"@)
    } else if !never_needs_approval {
        Some(
            "Tool '"@ + name
                + "' requires manual approval and cannot be used in lightweight routines"@,
        )
    } else {
        match invalid_params {
            Some(d) => Some("Invalid tool parameters: "@ + d),
            None => None,
        }
    }
}

/// Check a tool call of a lightweight run before executing it: the error
/// text when it may not run. `invalid_params` holds the validation
/// details (`field: message` entries joined by `; `) when the arguments
/// are invalid.
pub fn check_lightweight_tool(name: &str, known: bool, never_needs_approval: bool, invalid_params: Option<
    &str,
>) -> (r: Option<String>)
    ensures
        crate::llm::opt_chars(r) == lightweight_tool_error(
            name@,
            known,
            never_needs_approval,
            match invalid_params {
                Some(d) => Some(d@),
                None => None,
            },
        ),
{
    if !known {
        let mut m = "Tool '".to_owned();
        push_str(&mut m, name);
        push_str(&mut m, "' not found");
        return Some(m);
    }
    if !never_needs_approval {
        let mut m = "Tool '".to_owned();
        push_str(&mut m, name);
        push_str(&mut m, "' requires manual approval and cannot be used in lightweight routines");
        return Some(m);
    }
    match invalid_params {
        Some(d) => {
            let mut m = "Invalid tool parameters: ".to_owned();
            push_str(&mut m, d);
            Some(m)
        },
        None => None,
    }
}

/// One validation error as reported: `field: message`.
pub fn validation_detail(field: &str, message: &str) -> (r: String)
    ensures
        r@ == field@ + ": "@ + message@,
{
    let mut s = field.to_owned();
    push_str(&mut s, ": ");
    push_str(&mut s, message);
    s
}

/// Counts the routine runs in progress against a global limit.
#[derive(Debug)]
pub struct RunSlots {
    pub running: usize,
    pub max_concurrent: usize,
}

/// The slots after a reservation attempt, and whether it succeeded: a slot
/// is taken only when fewer runs than the limit are in progress.
pub open spec fn reserve_spec(s: RunSlots) -> (RunSlots, bool) {
    if s.running < s.max_concurrent {
        (RunSlots { running: (s.running + 1) as usize, max_concurrent: s.max_concurrent }, true)
    } else {
        (s, false)
    }
}

/// The slots after giving one back.
pub open spec fn release_spec(s: RunSlots) -> RunSlots {
    RunSlots { running: (s.running - 1) as usize, max_concurrent: s.max_concurrent }
}

impl RunSlots {
    /// No runs in progress.
    pub fn new(max_concurrent: usize) -> (s: Self)
        ensures
            s.running == 0,
            s.max_concurrent == max_concurrent,
    {
        RunSlots { running: 0, max_concurrent }
    }

    /// Reserve a slot for a run when fewer than the limit run.
    pub fn try_reserve(&mut self) -> (ok: bool)
        ensures
            (*final(self), ok) == reserve_spec(*old(self)),
    {
        if self.running < self.max_concurrent {
            self.running = self.running + 1;
            true
        } else {
            false
        }
    }

    /// Give back a reserved slot (a run ended, or a reserved run will not
    /// start).
    pub fn release(&mut self)
        requires
            old(self).running > 0,
        ensures
            *final(self) == release_spec(*old(self)),
    {
        self.running = self.running - 1;
    }
}

impl RunSlots {
    /// Take a slot for a manual run, which is not bounded by the limit (it
    /// is given back if the run cannot be recorded).
    pub fn reserve_manual(&mut self)
        requires
            old(self).running < usize::MAX,
        ensures
            final(self).running == old(self).running + 1,
            final(self).max_concurrent == old(self).max_concurrent,
    {
        self.running = self.running + 1;
    }
}

/// Finish a manual fire once its run was (or was not) recorded: a
/// recorded run keeps its slot and is returned; when recording failed the
/// slot taken for it is given back and the error returned.
pub fn finish_manual_fire<E>(slots: &mut RunSlots, recorded: Result<String, E>) -> (r: Result<String, E>)
    requires
        old(slots).running > 0,
    ensures
        r == recorded,
        recorded is Ok ==> *final(slots) == *old(slots),
        recorded is Err ==> *final(slots) == release_spec(*old(slots)),
{
    match recorded {
        Ok(id) => Ok(id),
        Err(e) => {
            slots.release();
            Err(e)
        },
    }
}

/// A manual fire whose run cannot be recorded leaves the slots as they
/// were before it.
pub proof fn lemma_failed_manual_fire_rolls_back(s: RunSlots)
    requires
        s.running < usize::MAX,
    ensures
        release_spec(RunSlots { running: (s.running + 1) as usize, max_concurrent: s.max_concurrent })
            == s,
{
}

/// What a routine trigger does with one matching routine.
#[derive(Debug, PartialEq, Eq)]
pub enum GateStep {
    /// No global slot is left: the cron tick stops here.
    StopTick,
    /// The routine does not fire now.
    Skip,
    /// Ask the store how many runs of the routine are in progress.
    AskConcurrency,
    /// The routine fires, holding a reserved slot.
    Fire,
}

/// First gate of a due cron routine: take a global slot first (when none
/// is left the tick stops), then check the cooldown; a routine still in
/// cooldown gives its slot back.
pub fn cron_first_gate(slots: &mut RunSlots, cooldown_ok: bool) -> (r: GateStep)
    ensures
        !reserve_spec(*old(slots)).1 ==> r == GateStep::StopTick && *final(slots) == *old(slots),
        reserve_spec(*old(slots)).1 && !cooldown_ok ==> r == GateStep::Skip && *final(slots)
            == *old(slots),
        reserve_spec(*old(slots)).1 && cooldown_ok ==> r == GateStep::AskConcurrency
            && *final(slots) == reserve_spec(*old(slots)).0,
{
    if !slots.try_reserve() {
        return GateStep::StopTick;
    }
    if !cooldown_ok {
        slots.release();
        return GateStep::Skip;
    }
    GateStep::AskConcurrency
}

/// Last gate of a due cron routine, holding its slot: it fires when its
/// own runs are below its limit, otherwise the slot is given back.
pub fn cron_last_gate(slots: &mut RunSlots, concurrent_ok: bool) -> (r: GateStep)
    requires
        old(slots).running > 0,
    ensures
        concurrent_ok ==> r == GateStep::Fire && *final(slots) == *old(slots),
        !concurrent_ok ==> r == GateStep::Skip && *final(slots) == release_spec(*old(slots)),
{
    if concurrent_ok {
        GateStep::Fire
    } else {
        slots.release();
        GateStep::Skip
    }
}

/// First gate of a routine matched by an event: one still in cooldown is
/// skipped before anything else is asked.
pub fn event_first_gate(cooldown_ok: bool) -> (r: GateStep)
    ensures
        r == if cooldown_ok {
            GateStep::AskConcurrency
        } else {
            GateStep::Skip
        },
{
    if cooldown_ok {
        GateStep::AskConcurrency
    } else {
        GateStep::Skip
    }
}

/// Last gate of a routine matched by an event: it fires when its own runs
/// are below its limit and a global slot can be reserved; otherwise it is
/// skipped and no slot is taken.
pub fn event_last_gate(slots: &mut RunSlots, concurrent_ok: bool) -> (r: GateStep)
    ensures
        !concurrent_ok ==> r == GateStep::Skip && *final(slots) == *old(slots),
        concurrent_ok ==> *final(slots) == reserve_spec(*old(slots)).0 && r == if reserve_spec(
            *old(slots),
        ).1 {
            GateStep::Fire
        } else {
            GateStep::Skip
        },
{
    if !concurrent_ok {
        return GateStep::Skip;
    }
    if slots.try_reserve() {
        GateStep::Fire
    } else {
        GateStep::Skip
    }
}

/// Reservations never let more runs proceed than the limit allows: from a
/// count within the limit, a reservation keeps it within the limit.
pub proof fn lemma_slots_bounded(s: RunSlots)
    requires
        s.running <= s.max_concurrent,
    ensures
        reserve_spec(s).0.running <= reserve_spec(s).0.max_concurrent,
        reserve_spec(s).0.max_concurrent == s.max_concurrent,
{
}

/// A reservation that is given back leaves the slots as they were: a run
/// that will not start after all (cooldown, concurrency) keeps no slot.
pub proof fn lemma_release_undoes_reserve(s: RunSlots)
    requires
        reserve_spec(s).1,
    ensures
        release_spec(reserve_spec(s).0) == s,
{
}

/// Cooldown applied when the configured one cannot be represented.
pub const DEFAULT_COOLDOWN_SECS: i64 = 300;

/// Longest cooldown that can be represented, in seconds.
pub const MAX_COOLDOWN_SECS: u64 = 9223372036854775;

/// Whether the cooldown since the last run has passed at `now`: always
/// when the routine never ran.
pub open spec fn cooldown_passed_spec(last_run: Option<i64>, now: i64, cooldown_secs: u64) -> bool {
    match last_run {
        Some(last) => {
            let cooldown = if cooldown_secs <= MAX_COOLDOWN_SECS {
                cooldown_secs as int
            } else {
                DEFAULT_COOLDOWN_SECS as int
            };
            now - last >= cooldown
        },
        None => true,
    }
}

/// A routine that never ran may fire; one that ran fires only once its
/// cooldown has fully elapsed since the last run, for every cooldown a
/// chrono duration can hold (up to `MAX_COOLDOWN_SECS`), however long.
pub proof fn lemma_cooldown_is_elapsed_time(last: i64, now: i64, cooldown_secs: u64)
    ensures
        cooldown_passed_spec(None, now, cooldown_secs),
        cooldown_secs <= MAX_COOLDOWN_SECS ==> (cooldown_passed_spec(Some(last), now, cooldown_secs)
            <==> now - last >= cooldown_secs),
{
}

/// Check the routine's cooldown.
pub fn check_cooldown(last_run: Option<i64>, now: i64, cooldown_secs: u64) -> (b: bool)
    ensures
        b == cooldown_passed_spec(last_run, now, cooldown_secs),
{
    match last_run {
        Some(last) => {
            let cooldown: i128 = if cooldown_secs <= MAX_COOLDOWN_SECS {
                cooldown_secs as i128
            } else {
                DEFAULT_COOLDOWN_SECS as i128
            };
            (now as i128) - (last as i128) >= cooldown
        },
        None => true,
    }
}

/// Whether another run of a routine may start, given the count of its runs
/// in progress (or a failed count, which blocks).
pub fn check_concurrent<E>(running_runs: Result<i64, E>, max_concurrent: u32) -> (b: bool)
    ensures
        b == match running_runs {
            Ok(c) => c < max_concurrent,
            Err(_) => false,
        },
{
    match running_runs {
        Ok(c) => c < max_concurrent as i64,
        Err(_) => false,
    }
}

/// Why a manual run may not start, checked in this order: the routine is
/// missing, belongs to another user, is disabled, or already runs as often
/// as allowed.
pub open spec fn manual_fire_spec(
    routine_id: Seq<char>,
    found: Option<(Seq<char>, Seq<char>, bool)>,
    user_id: Option<Seq<char>>,
    concurrent_ok: bool,
) -> Option<RoutineErrorView> {
    match found {
        None => Some(RoutineErrorView::NotFound { id: routine_id }),
        Some((owner, name, enabled)) => if user_id matches Some(u) && u != owner {
            Some(RoutineErrorView::NotAuthorized { id: routine_id })
        } else if !enabled {
            Some(RoutineErrorView::Disabled { name })
        } else if !concurrent_ok {
            Some(RoutineErrorView::MaxConcurrent { name })
        } else {
            None
        },
    }
}

/// What the store holds of a routine for a manual run: owner, name and
/// whether it is enabled.
#[derive(Debug)]
pub struct RoutineSummary {
    pub owner: String,
    pub name: String,
    pub enabled: bool,
}

/// Check whether a manual run may start. `user_id` is the caller when the
/// call comes through the gateway; `concurrent_ok` says whether another
/// run of this routine may start.
pub fn check_manual_fire(
    routine_id: &str,
    found: &Option<RoutineSummary>,
    user_id: Option<&str>,
    concurrent_ok: bool,
) -> (r: Result<(), RoutineError>)
    ensures
        match r {
            Ok(()) => manual_fire_spec(
                routine_id@,
                match found {
                    Some(s) => Some((s.owner@, s.name@, s.enabled)),
                    None => None,
                },
                match user_id {
                    Some(u) => Some(u@),
                    None => None,
                },
                concurrent_ok,
            ) is None,
            Err(e) => manual_fire_spec(
                routine_id@,
                match found {
                    Some(s) => Some((s.owner@, s.name@, s.enabled)),
                    None => None,
                },
                match user_id {
                    Some(u) => Some(u@),
                    None => None,
                },
                concurrent_ok,
            ) == Some(e.model()),
        },
{
    let s = match found {
        None => return Err(RoutineError::NotFound { id: routine_id.to_owned() }),
        Some(s) => s,
    };
    if let Some(u) = user_id {
        if !crate::text::str_eq(u, s.owner.as_str()) {
            return Err(RoutineError::NotAuthorized { id: routine_id.to_owned() });
        }
    }
    if !s.enabled {
        return Err(RoutineError::Disabled { name: s.name.clone() });
    }
    if !concurrent_ok {
        return Err(RoutineError::MaxConcurrent { name: s.name.clone() });
    }
    Ok(())
}

/// Returns `true` when the routine belongs to the emitting user, or when no
/// user scoping was requested.
pub fn user_matches(routine_user: &str, user_id: Option<&str>) -> (b: bool)
    ensures
        b == match user_id {
            Some(u) => routine_user@ == u@,
            None => true,
        },
{
    match user_id {
        Some(u) => crate::text::str_eq(routine_user, u),
        None => true,
    }
}

/// The code point of `c` with ASCII capitals lowered.
pub open spec fn ascii_lower(c: char) -> u32 {
    if 'A' <= c && c <= 'Z' {
        ((c as u32) + 32) as u32
    } else {
        c as u32
    }
}

/// Equality of strings ignoring ASCII case (`str::eq_ignore_ascii_case`).
pub open spec fn eq_ignore_ascii_case(a: Seq<char>, b: Seq<char>) -> bool {
    a.len() == b.len() && forall|i: int| 0 <= i < a.len() ==> ascii_lower(#[trigger] a[i]) == ascii_lower(b[i])
}

fn lower(c: char) -> (r: u32)
    ensures
        r == ascii_lower(c),
{
    if 'A' <= c && c <= 'Z' {
        (c as u32) + 32
    } else {
        c as u32
    }
}

/// Compare two strings ignoring ASCII case.
pub fn str_eq_ignore_ascii_case(a: &str, b: &str) -> (r: bool)
    ensures
        r == eq_ignore_ascii_case(a@, b@),
{
    let av = chars_of(a);
    let bv = chars_of(b);
    if av.len() != bv.len() {
        return false;
    }
    let n = av.len();
    let mut i: usize = 0;
    while i < n
        invariant
            n == av@.len(),
            n == bv@.len(),
            av@ == a@,
            bv@ == b@,
            i <= n,
            forall|k: int| 0 <= k < i ==> ascii_lower(#[trigger] av@[k]) == ascii_lower(bv@[k]),
        decreases n - i,
    {
        if lower(av[i]) != lower(bv[i]) {
            return false;
        }
        i = i + 1;
    }
    true
}

/// Whether every filter key is present in the payload with a scalar value
/// equal to the expected text, ignoring ASCII case.
pub open spec fn filters_match_spec(filters: Seq<(String, String)>, payload: JsonValue) -> bool {
    forall|i: int|
        0 <= i < filters.len() ==> match json_get(payload, (#[trigger] filters[i]).0@) {
            Some(v) => match filter_string_of(v) {
                Some(actual) => eq_ignore_ascii_case(actual, filters[i].1@),
                None => false,
            },
            None => false,
        }
}

/// Returns `true` when every trigger filter matches the payload.
pub fn filters_match(filters: &Vec<(String, String)>, payload: &JsonValue) -> (b: bool)
    ensures
        b == filters_match_spec(filters@, *payload),
{
    let n = filters.len();
    let mut i: usize = 0;
    while i < n
        invariant
            n == filters@.len(),
            i <= n,
            forall|k: int|
                0 <= k < i ==> match json_get(*payload, (#[trigger] filters@[k]).0@) {
                    Some(v) => match filter_string_of(v) {
                        Some(actual) => eq_ignore_ascii_case(actual, filters@[k].1@),
                        None => false,
                    },
                    None => false,
                },
        decreases n - i,
    {
        let (key, expected) = (&filters[i].0, &filters[i].1);
        let actual = match payload.get(key.as_str()) {
            Some(v) => json_value_as_filter_string(v),
            None => None,
        };
        match actual {
            Some(a) => {
                if !str_eq_ignore_ascii_case(a.as_str(), expected.as_str()) {
                    return false;
                }
            },
            None => {
                return false;
            },
        }
        i = i + 1;
    }
    true
}

/// Whether a system-event routine listening for `(expected_source,
/// expected_event)` and owned by `owner` responds to an event: source and
/// type match ignoring ASCII case, the event's user (if any) owns the
/// routine, and every filter matches the payload.
pub open spec fn system_event_matches_spec(
    expected_source: Seq<char>,
    expected_event: Seq<char>,
    filters: Seq<(String, String)>,
    owner: Seq<char>,
    source: Seq<char>,
    event_type: Seq<char>,
    payload: JsonValue,
    user_id: Option<Seq<char>>,
) -> bool {
    &&& eq_ignore_ascii_case(expected_source, source)
    &&& eq_ignore_ascii_case(expected_event, event_type)
    &&& match user_id {
        Some(u) => owner == u,
        None => true,
    }
    &&& filters_match_spec(filters, payload)
}

/// Decide whether a system-event trigger responds to an event.
pub fn system_event_matches(
    trigger: &crate::routine::trigger::Trigger,
    owner: &str,
    source: &str,
    event_type: &str,
    payload: &JsonValue,
    user_id: Option<&str>,
) -> (b: bool)
    ensures
        b == match *trigger {
            crate::routine::trigger::Trigger::SystemEvent {
                source: es,
                event_type: ee,
                filters,
            } => system_event_matches_spec(
                es@,
                ee@,
                filters@,
                owner@,
                source@,
                event_type@,
                *payload,
                match user_id {
                    Some(u) => Some(u@),
                    None => None,
                },
            ),
            _ => false,
        },
{
    match trigger {
        crate::routine::trigger::Trigger::SystemEvent {
            source: expected_source,
            event_type: expected_event,
            filters,
        } => {
            if !str_eq_ignore_ascii_case(expected_source.as_str(), source)
                || !str_eq_ignore_ascii_case(expected_event.as_str(), event_type) {
                return false;
            }
            if !user_matches(owner, user_id) {
                return false;
            }
            filters_match(filters, payload)
        },
        _ => false,
    }
}

/// Whether a message on `channel` passes an event trigger's channel filter.
pub fn event_channel_allows(trigger: &crate::routine::trigger::Trigger, channel: &str) -> (b: bool)
    ensures
        b == match *trigger {
            crate::routine::trigger::Trigger::Event { channel: Some(ch), .. } => ch@ == channel@,
            _ => true,
        },
{
    match trigger {
        crate::routine::trigger::Trigger::Event { channel: Some(ch), .. } => crate::text::str_eq(
            ch.as_str(),
            channel,
        ),
        _ => true,
    }
}

/// Bytes of `c` in UTF-8.
pub open spec fn utf8_len(c: char) -> nat {
    if (c as u32) < 0x80 {
        1
    } else if (c as u32) < 0x800 {
        2
    } else if (c as u32) < 0x10000 {
        3
    } else {
        4
    }
}

/// Bytes of `s` in UTF-8.
pub open spec fn utf8_size(s: Seq<char>) -> nat
    decreases s.len(),
{
    if s.len() == 0 {
        0
    } else {
        utf8_size(s.drop_last()) + utf8_len(s.last())
    }
}

/// The longest prefix of `s` that fits in `max` bytes of UTF-8.
pub open spec fn byte_prefix_len(s: Seq<char>, max: nat, k: nat) -> nat
    decreases s.len() - k,
{
    if k < s.len() && utf8_size(s.take(k as int + 1)) <= max {
        byte_prefix_len(s, max, k + 1)
    } else {
        k
    }
}

/// `s` when it fits in `max` bytes; otherwise its longest prefix that does,
/// followed by `...`.
pub open spec fn truncated_detail(s: Seq<char>, max: nat) -> Seq<char> {
    if utf8_size(s) <= max {
        s
    } else {
        s.take(byte_prefix_len(s, max, 0) as int) + "..."@
    }
}

proof fn lemma_byte_prefix_fits(s: Seq<char>, max: nat, k: nat)
    requires
        k <= s.len(),
        utf8_size(s.take(k as int)) <= max,
    ensures
        k <= byte_prefix_len(s, max, k) <= s.len(),
        utf8_size(s.take(byte_prefix_len(s, max, k) as int)) <= max,
    decreases s.len() - k,
{
    if k < s.len() && utf8_size(s.take(k as int + 1)) <= max {
        lemma_byte_prefix_fits(s, max, k + 1);
    }
}

/// A truncated detail is the start of the text and fits in the byte limit
/// plus the three bytes of `...`.
pub proof fn lemma_truncated_detail_fits(s: Seq<char>, max: nat)
    ensures
        utf8_size(truncated_detail(s, max)) <= max + 3,
        utf8_size(s) > max ==> truncated_detail(s, max) == s.take(byte_prefix_len(s, max, 0) as int)
            + "..."@,
{
    if utf8_size(s) > max {
        assert(s.take(0) =~= Seq::<char>::empty());
        lemma_byte_prefix_fits(s, max, 0);
        let p = s.take(byte_prefix_len(s, max, 0) as int);
        reveal_strlit("...");
        lemma_utf8_size_concat(p, "..."@);
        assert("..."@ =~= seq!['.', '.', '.']);
        assert(seq!['.', '.', '.'].drop_last() =~= seq!['.', '.']);
        assert(seq!['.', '.'].drop_last() =~= seq!['.']);
        assert(seq!['.'].drop_last() =~= Seq::<char>::empty());
        assert(('.' as u32) == 46);
        assert(utf8_len('.') == 1);
        assert(seq!['.'].last() == '.');
        assert(utf8_size(Seq::<char>::empty()) == 0);
        assert(utf8_size(seq!['.']) == 1);
        assert(utf8_size(seq!['.', '.']) == 2);
        assert(utf8_size(seq!['.', '.', '.']) == 3);
    }
}

proof fn lemma_utf8_size_concat(a: Seq<char>, b: Seq<char>)
    ensures
        utf8_size(a + b) == utf8_size(a) + utf8_size(b),
    decreases b.len(),
{
    if b.len() == 0 {
        assert(a + b =~= a);
    } else {
        lemma_utf8_size_concat(a, b.drop_last());
        assert((a + b).drop_last() =~= a + b.drop_last());
        assert((a + b).last() == b.last());
    }
}

fn char_utf8_len(c: char) -> (r: usize)
    ensures
        r == utf8_len(c),
{
    let x = c as u32;
    if x < 0x80 {
        1
    } else if x < 0x800 {
        2
    } else if x < 0x10000 {
        3
    } else {
        4
    }
}

proof fn lemma_utf8_size_monotone(s: Seq<char>, i: int, j: int)
    requires
        0 <= i <= j <= s.len(),
    ensures
        utf8_size(s.take(i)) <= utf8_size(s.take(j)),
    decreases j - i,
{
    if i < j {
        lemma_utf8_size_monotone(s, i, j - 1);
        assert(s.take(j).drop_last() =~= s.take(j - 1));
    }
}

/// Shorten `s` to at most `max` bytes of UTF-8 at a character boundary,
/// marking the cut with `...`.
pub fn truncate(s: &str, max: usize) -> (r: String)
    ensures
        r@ == truncated_detail(s@, max as nat),
{
    let v = chars_of(s);
    let n = v.len();
    let mut size: usize = 0;
    let mut k: usize = 0;
    while k < n && char_utf8_len(v[k]) <= max - size
        invariant
            n == v@.len(),
            v@ == s@,
            k <= n,
            size == utf8_size(v@.take(k as int)),
            size <= max,
            byte_prefix_len(v@, max as nat, 0) == byte_prefix_len(v@, max as nat, k as nat),
        decreases n - k,
    {
        assert(v@.take(k as int + 1).drop_last() =~= v@.take(k as int));
        assert(v@.take(k as int + 1).last() == v@[k as int]);
        size = size + char_utf8_len(v[k]);
        k = k + 1;
    }
    assert(v@.take(n as int) =~= v@);
    if k == n {
        string_from_prefix(&v, n)
    } else {
        proof {
            assert(v@.take(k as int + 1).drop_last() =~= v@.take(k as int));
            assert(v@.take(k as int + 1).last() == v@[k as int]);
            assert(utf8_size(v@.take(k as int + 1)) > max);
            lemma_utf8_size_monotone(v@, k as int + 1, n as int);
            assert(byte_prefix_len(v@, max as nat, k as nat) == k);
        }
        let mut out = string_from_prefix(&v, k);
        push_str(&mut out, "...");
        out
    }
}

fn string_from_prefix(v: &Vec<char>, k: usize) -> (s: String)
    requires
        k <= v@.len(),
    ensures
        s@ == v@.take(k as int),
{
    let s = crate::text::string_from_range(v.as_slice(), 0, k);
    assert(v@.subrange(0, k as int) =~= v@.take(k as int));
    s
}

/// The detail recorded for a system event: `source:event_type`.
pub fn system_event_detail(source: &str, event_type: &str) -> (r: String)
    ensures
        r@ == source@ + ":"@ + event_type@,
{
    let mut s = source.to_owned();
    push_str(&mut s, ":");
    push_str(&mut s, event_type);
    s
}

/// Consecutive failures after a run: one more after a failure, reset by
/// any other status.
pub fn next_consecutive_failures(status: RunStatus, failures: u32) -> (r: u32)
    requires
        failures < u32::MAX,
    ensures
        r == if status == RunStatus::Failed {
            failures + 1
        } else {
            0
        },
{
    if status == RunStatus::Failed {
        failures + 1
    } else {
        0
    }
}

/// Whether a finished run with `status` is notified, per the routine's
/// notification settings (a run still in progress never is).
pub fn should_notify(status: RunStatus, on_success: bool, on_attention: bool, on_failure: bool) -> (b:
    bool)
    ensures
        b == match status {
            RunStatus::Succeeded => on_success,
            RunStatus::Attention => on_attention,
            RunStatus::Failed => on_failure,
            RunStatus::Running => false,
        },
{
    match status {
        RunStatus::Succeeded => on_success,
        RunStatus::Attention => on_attention,
        RunStatus::Failed => on_failure,
        RunStatus::Running => false,
    }
}

/// The icon shown with a run's status.
pub open spec fn status_icon_spec(status: RunStatus) -> Seq<char> {
    match status {
        RunStatus::Succeeded => "✅"@,
        RunStatus::Attention => "🔔"@,
        RunStatus::Failed => "❌"@,
        RunStatus::Running => "⏳"@,
    }
}

/// The icon shown with a run's status.
pub fn status_icon(status: RunStatus) -> (r: &'static str)
    ensures
        r@ == status_icon_spec(status),
{
    match status {
        RunStatus::Succeeded => "✅",
        RunStatus::Attention => "🔔",
        RunStatus::Failed => "❌",
        RunStatus::Running => "⏳",
    }
}

/// The notification text of a run: icon, routine name and status text,
/// then the summary after a blank line when there is one.
pub fn notification_text(status: RunStatus, status_text: &str, routine_name: &str, summary: Option<&str>) -> (r:
    String)
    ensures
        r@ == status_icon_spec(status) + " *Routine '"@ + routine_name@ + "'*: "@ + status_text@
            + match summary {
            Some(s) => "\n\n"@ + s@,
            None => Seq::<char>::empty(),
        },
{
    let mut m = status_icon(status).to_owned();
    push_str(&mut m, " *Routine '");
    push_str(&mut m, routine_name);
    push_str(&mut m, "'*: ");
    push_str(&mut m, status_text);
    if let Some(s) = summary {
        push_str(&mut m, "\n\n");
        push_str(&mut m, s);
    }
    proof {
        assert(m@ =~= status_icon_spec(status) + " *Routine '"@ + routine_name@ + "'*: "@
            + status_text@ + match summary {
            Some(s) => "\n\n"@ + s@,
            None => Seq::<char>::empty(),
        });
    }
    m
}

/// The message recorded in the routine's conversation: `[trigger] status`,
/// then `: summary` when there is one.
pub fn run_message(trigger_type: &str, status_text: &str, summary: Option<&str>) -> (r: String)
    ensures
        r@ == "["@ + trigger_type@ + "] "@ + status_text@ + match summary {
            Some(s) => ": "@ + s@,
            None => Seq::<char>::empty(),
        },
{
    let mut m = "[".to_owned();
    push_str(&mut m, trigger_type);
    push_str(&mut m, "] ");
    push_str(&mut m, status_text);
    if let Some(s) = summary {
        push_str(&mut m, ": ");
        push_str(&mut m, s);
    }
    proof {
        assert(m@ =~= "["@ + trigger_type@ + "] "@ + status_text@ + match summary {
            Some(s) => ": "@ + s@,
            None => Seq::<char>::empty(),
        });
    }
    m
}

/// The metadata of a routine's full job: its iteration budget, the
/// routine's notification channel when it has one, and the user to notify.
pub open spec fn full_job_metadata(max_iterations: u32, notify_channel: Option<Seq<char>>, notify_user: Seq<char>) -> JsonView {
    let budget = ("max_iterations"@, JsonView::Number(Some(max_iterations as u64), decimal(max_iterations as nat)));
    let user = ("notify_user"@, JsonView::String(notify_user));
    JsonView::Object(
        match notify_channel {
            Some(c) => seq![budget, ("notify_channel"@, JsonView::String(c)), user],
            None => seq![budget, user],
        },
    )
}

/// How a full-job routine dispatches its job.
#[derive(Debug)]
pub struct FullJobPlan {
    /// The job's metadata.
    pub metadata: JsonValue,
    /// The approval the job's tools run under: autonomous, with the
    /// routine's permitted tools.
    pub approval: crate::scheduler::ApprovalContext,
}

/// Plan the dispatch of a full-job routine: it needs a scheduler; the job
/// carries the iteration budget and notification target in its metadata
/// and runs autonomously with the routine's tool permissions.
pub fn plan_full_job(
    scheduler_available: bool,
    max_iterations: u32,
    notify_channel: &Option<String>,
    notify_user: &str,
    tool_permissions: &Vec<String>,
) -> (r: Result<FullJobPlan, RoutineError>)
    ensures
        !scheduler_available ==> r matches Err(RoutineError::SchedulerUnavailable),
        scheduler_available ==> (r matches Ok(p) && p.metadata.model() == full_job_metadata(
            max_iterations,
            crate::llm::opt_chars(*notify_channel),
            notify_user@,
        ) && strings_of(p.approval.permitted_tools@) == strings_of(tool_permissions@)),
{
    if !scheduler_available {
        return Err(RoutineError::SchedulerUnavailable);
    }
    let text = decimal_string(max_iterations as u64);
    let budget_value = JsonValue::Number(JsonNumber { as_u64: Some(max_iterations as u64), text });
    let user_value = JsonValue::String(notify_user.to_owned());
    let mut entries: Vec<(String, JsonValue)> = Vec::new();
    entries.push(("max_iterations".to_owned(), budget_value));
    match notify_channel {
        Some(c) => entries.push(("notify_channel".to_owned(), JsonValue::String(c.clone()))),
        None => {},
    }
    entries.push(("notify_user".to_owned(), user_value));
    let metadata = JsonValue::Object(entries);
    proof {
        let m = metadata.model()->Object_0;
        let expected = full_job_metadata(
            max_iterations,
            crate::llm::opt_chars(*notify_channel),
            notify_user@,
        )->Object_0;
        assert(m.len() == expected.len());
        assert forall|k: int| 0 <= k < m.len() implies m[k] == expected[k] by {
            assert(m[k] == (entries@[k].0@, entries@[k].1.model()));
        }
        assert(m =~= expected);
    }
    let mut permitted: Vec<String> = Vec::new();
    let n = tool_permissions.len();
    let mut i: usize = 0;
    while i < n
        invariant
            n == tool_permissions@.len(),
            i <= n,
            permitted@.len() == i,
            forall|k: int| 0 <= k < i ==> (#[trigger] permitted@[k])@ == tool_permissions@[k]@,
        decreases n - i,
    {
        permitted.push(tool_permissions[i].clone());
        i = i + 1;
    }
    assert(strings_of(permitted@) =~= strings_of(tool_permissions@));
    Ok(FullJobPlan { metadata, approval: crate::scheduler::ApprovalContext::autonomous_with_tools(permitted) })
}

/// The summary of a dispatched full job.
pub fn full_job_summary(job_id: &str, max_iterations: u32) -> (r: String)
    ensures
        r@ == "Dispatched job "@ + job_id@ + " for full execution with tool access (max_iterations: "@
            + decimal(max_iterations as nat) + ")"@,
{
    let mut m = "Dispatched job ".to_owned();
    push_str(&mut m, job_id);
    push_str(&mut m, " for full execution with tool access (max_iterations: ");
    push_decimal(&mut m, max_iterations as u64);
    push_str(&mut m, ")");
    m
}

/// A compiled regular expression.
#[verifier::external_type_specification]
#[verifier::external_body]
pub struct ExRegex(regex::Regex);

/// Whether `regex` accepts `pattern` (with its default size limits).
pub uninterp spec fn regex_compiles(pattern: Seq<char>) -> bool;

/// Whether the regular expression `pattern` matches somewhere in `text`.
pub uninterp spec fn regex_matches(pattern: Seq<char>, text: Seq<char>) -> bool;

/// `Regex::new`: claimed to succeed exactly for the patterns `regex`
/// accepts (left to the name `regex_compiles`); the error is dropped.
#[verifier::external_body]
fn compile_regex(pattern: &str) -> (r: Option<regex::Regex>)
    ensures
        r is Some <==> regex_compiles(pattern@),
{
    match regex::Regex::new(pattern) {
        Ok(re) => Some(re),
        Err(_) => None,
    }
}

/// An event trigger's pattern, compiled once for matching messages.
pub struct EventPattern {
    pattern: String,
    regex: regex::Regex,
}

impl EventPattern {
    /// The pattern's source text.
    pub closed spec fn source(&self) -> Seq<char> {
        self.pattern@
    }

    /// Compile an event pattern; `None` when it is not a valid regular
    /// expression (such triggers are left out of the event cache).
    pub fn compile(pattern: &str) -> (r: Option<EventPattern>)
        ensures
            r is Some <==> regex_compiles(pattern@),
            r matches Some(p) ==> p.source() == pattern@,
    {
        match compile_regex(pattern) {
            Some(regex) => Some(EventPattern { pattern: pattern.to_owned(), regex }),
            None => None,
        }
    }

    /// `Regex::is_match` on the compiled pattern, claimed to give
    /// `regex_matches(self.source(), text)`. Only `compile` builds an
    /// `EventPattern`, so the expression is always the one compiled from
    /// `source()`.
    #[verifier::external_body]
    fn is_match(&self, text: &str) -> (b: bool)
        ensures
            b == regex_matches(self.source(), text@),
    {
        self.regex.is_match(text)
    }
}

/// Whether a message fires an event trigger before the guardrails: it
/// passes the trigger's channel filter and its content matches the
/// pattern.
pub fn event_message_matches(
    trigger: &crate::routine::trigger::Trigger,
    pattern: &EventPattern,
    channel: &str,
    content: &str,
) -> (b: bool)
    ensures
        b == (match *trigger {
            crate::routine::trigger::Trigger::Event { channel: Some(ch), .. } => ch@ == channel@,
            _ => true,
        } && regex_matches(pattern.source(), content@)),
{
    event_channel_allows(trigger, channel) && pattern.is_match(content)
}

} // verus!
