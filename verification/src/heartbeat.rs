//! Proactive heartbeat: periodic checklist runs and the decisions around
//! them.
//!
//! Each heartbeat reads the HEARTBEAT.md checklist, asks the model to follow
//! it, and notifies the user only when something needs attention. A reply
//! containing `HEARTBEAT_OK` means nothing needs attention. Repeated failures
//! stop the loop.

use std::time::Duration;

use vstd::prelude::*;

use crate::llm::{opt_chars, plain_message, ChatMessage, MessageView, Role};
use crate::text::{contains, occurs_at, push_str, str_contains, trim, trimmed};
use crate::timezone::{effective_zone, effective_zone_name, unix_now, zone_hour, zone_hour_at};

verus! {

/// Result of a heartbeat check.
#[derive(Debug)]
pub enum HeartbeatResult {
    /// Nothing needs attention.
    AllOk,
    /// Something needs attention, with the message to send.
    NeedsAttention(String),
    /// Heartbeat was skipped (no checklist or disabled).
    Skipped,
    /// Heartbeat failed.
    Failed(String),
}

/// Content of a heartbeat result.
pub enum HeartbeatResultView {
    AllOk,
    NeedsAttention(Seq<char>),
    Skipped,
    Failed(Seq<char>),
}

impl HeartbeatResult {
    /// Content of this result.
    pub open spec fn model(self) -> HeartbeatResultView {
        match self {
            HeartbeatResult::AllOk => HeartbeatResultView::AllOk,
            HeartbeatResult::NeedsAttention(m) => HeartbeatResultView::NeedsAttention(m@),
            HeartbeatResult::Skipped => HeartbeatResultView::Skipped,
            HeartbeatResult::Failed(e) => HeartbeatResultView::Failed(e@),
        }
    }
}

/// A span of `secs` whole seconds.
pub uninterp spec fn seconds(secs: u64) -> Duration;

/// `Duration::from_secs`: claimed to give `seconds(secs)`, the same span
/// for the same number of seconds.
#[verifier::external_body]
pub(crate) fn duration_from_secs(secs: u64) -> (d: Duration)
    ensures
        d == seconds(secs),
{
    Duration::from_secs(secs)
}

/// `<Duration as Clone>::clone`: `Duration` is `Copy`, so the clone is
/// claimed equal to the original.
pub assume_specification[ <Duration as Clone>::clone ](d: &Duration) -> (r: Duration)
    ensures
        r == *d,
;

/// Default interval between heartbeats, in seconds (30 minutes).
pub const DEFAULT_INTERVAL_SECS: u64 = 1800;

/// Default number of consecutive failures after which the loop stops.
pub const DEFAULT_MAX_FAILURES: u32 = 3;

/// Configuration for the heartbeat runner.
#[derive(Debug, Clone)]
pub struct HeartbeatConfig {
    /// Interval between heartbeat checks.
    pub interval: Duration,
    /// Whether heartbeat is enabled.
    pub enabled: bool,
    /// Maximum consecutive failures before disabling.
    pub max_failures: u32,
    /// User ID to notify on heartbeat findings.
    pub notify_user_id: Option<String>,
    /// Channel to notify on heartbeat findings.
    pub notify_channel: Option<String>,
    /// Hour (0-23) when quiet hours start.
    pub quiet_hours_start: Option<u32>,
    /// Hour (0-23) when quiet hours end.
    pub quiet_hours_end: Option<u32>,
    /// Timezone for quiet hours evaluation (IANA name).
    pub timezone: Option<String>,
}

impl Default for HeartbeatConfig {
    fn default() -> (r: Self)
        ensures
            r.interval == seconds(DEFAULT_INTERVAL_SECS),
            r.enabled,
            r.max_failures == DEFAULT_MAX_FAILURES,
            r.notify_user_id is None,
            r.notify_channel is None,
            r.quiet_hours_start is None,
            r.quiet_hours_end is None,
            r.timezone is None,
    {
        HeartbeatConfig {
            interval: duration_from_secs(DEFAULT_INTERVAL_SECS),
            enabled: true,
            max_failures: DEFAULT_MAX_FAILURES,
            notify_user_id: None,
            notify_channel: None,
            quiet_hours_start: None,
            quiet_hours_end: None,
            timezone: None,
        }
    }
}

/// Whether `hour` lies in the quiet window from `start` (inclusive) to `end`
/// (exclusive), the window wrapping past midnight when `start > end`. An
/// empty window (`start == end`) holds no hour.
pub open spec fn in_quiet_window(start: u32, end: u32, hour: u32) -> bool {
    if start <= end {
        start <= hour && hour < end
    } else {
        hour >= start || hour < end
    }
}

/// Whether `hour` lies in the quiet window `start..end`.
pub fn quiet_window_contains(start: u32, end: u32, hour: u32) -> (b: bool)
    ensures
        b == in_quiet_window(start, end, hour),
{
    if start <= end {
        hour >= start && hour < end
    } else {
        hour >= start || hour < end
    }
}

/// Whether quiet hours hold at Unix second `now`: both a start and an end
/// hour are set, and the hour of `now` in the effective zone (the
/// configured one when known, otherwise UTC) lies in the window.
pub open spec fn quiet_at(config: HeartbeatConfig, now: i64) -> bool {
    match (config.quiet_hours_start, config.quiet_hours_end) {
        (Some(start), Some(end)) => match zone_hour(effective_zone(opt_chars(config.timezone)), now) {
            Some(h) => in_quiet_window(start, end, h),
            None => false,
        },
        _ => false,
    }
}

impl HeartbeatConfig {
    /// Create a config with a specific interval.
    pub fn with_interval(self, interval: Duration) -> (r: Self)
        ensures
            r == (HeartbeatConfig { interval, ..self }),
    {
        HeartbeatConfig { interval, ..self }
    }

    /// Disable heartbeat.
    pub fn disabled(self) -> (r: Self)
        ensures
            r == (HeartbeatConfig { enabled: false, ..self }),
    {
        HeartbeatConfig { enabled: false, ..self }
    }

    /// Set the notification target.
    pub fn with_notify(self, user_id: &str, channel: &str) -> (r: Self)
        ensures
            r.notify_user_id matches Some(u) && u@ == user_id@,
            r.notify_channel matches Some(c) && c@ == channel@,
            r.interval == self.interval,
            r.enabled == self.enabled,
            r.max_failures == self.max_failures,
            r.quiet_hours_start == self.quiet_hours_start,
            r.quiet_hours_end == self.quiet_hours_end,
            r.timezone == self.timezone,
    {
        HeartbeatConfig {
            notify_user_id: Some(user_id.to_owned()),
            notify_channel: Some(channel.to_owned()),
            ..self
        }
    }

    /// Whether Unix second `now` falls within the configured quiet hours.
    ///
    /// Without both a start and an end hour there are no quiet hours. The
    /// hour is read in the configured time zone, or in UTC when none is set
    /// or the name is unknown.
    pub fn is_quiet_hours_at(&self, now: i64) -> (b: bool)
        ensures
            b == quiet_at(*self, now),
    {
        let (start, end) = match (self.quiet_hours_start, self.quiet_hours_end) {
            (Some(s), Some(e)) => (s, e),
            _ => return false,
        };
        let zone = match &self.timezone {
            Some(name) => effective_zone_name(Some(name.as_str())),
            None => effective_zone_name(None),
        };
        match zone_hour_at(zone.as_str(), now) {
            Some(hour) => quiet_window_contains(start, end, hour),
            None => false,
        }
    }

    /// Check whether the current time falls within configured quiet hours:
    /// the answer of `is_quiet_hours_at` for the clock's current second.
    pub fn is_quiet_hours(&self) -> (b: bool)
        ensures
            exists|now: i64| b == #[trigger] quiet_at(*self, now),
            (self.quiet_hours_start is None || self.quiet_hours_end is None) ==> !b,
    {
        let now = unix_now();
        self.is_quiet_hours_at(now)
    }
}

/// The sentinel reply meaning that nothing needs attention.
pub const HEARTBEAT_OK: &'static str = "HEARTBEAT_OK";

/// Failure text when the model's reply is empty after trimming.
pub const EMPTY_CONTENT_ERROR: &'static str = "LLM returned empty content.";

/// The result of a heartbeat whose model call gave `reply` (or failed with
/// the error text in `Err`).
pub open spec fn reply_outcome(reply: Result<Seq<char>, Seq<char>>) -> HeartbeatResultView {
    match reply {
        Err(e) => HeartbeatResultView::Failed("LLM call failed: "@ + e),
        Ok(content) => {
            let c = trim(content);
            if c.len() == 0 {
                HeartbeatResultView::Failed(EMPTY_CONTENT_ERROR@)
            } else if contains(c, HEARTBEAT_OK@) {
                HeartbeatResultView::AllOk
            } else {
                HeartbeatResultView::NeedsAttention(c)
            }
        },
    }
}

/// A reply that mentions `HEARTBEAT_OK` anywhere in its trimmed text
/// (not only as the whole reply, and not only at its end) means that
/// nothing needs attention: no notification is sent. A non-empty reply
/// that never mentions it is passed on, trimmed, as needing attention; an
/// empty one is a failure.
pub proof fn lemma_reply_mentioning_ok_is_all_ok(content: Seq<char>, i: int)
    ensures
        occurs_at(trim(content), HEARTBEAT_OK@, i) ==> reply_outcome(Ok(content))
            == HeartbeatResultView::AllOk,
        trim(content).len() > 0 && (forall|j: int| !occurs_at(trim(content), HEARTBEAT_OK@, j))
            ==> reply_outcome(Ok(content)) == HeartbeatResultView::NeedsAttention(trim(content)),
        trim(content).len() == 0 ==> reply_outcome(Ok(content)) == HeartbeatResultView::Failed(
            EMPTY_CONTENT_ERROR@,
        ),
{
    reveal_strlit("HEARTBEAT_OK");
    if occurs_at(trim(content), HEARTBEAT_OK@, i) {
        assert(trim(content).len() >= HEARTBEAT_OK@.len());
        assert(contains(trim(content), HEARTBEAT_OK@));
    }
}

/// Classify the model's reply to a heartbeat: a failed call or an empty
/// reply is a failure, a reply mentioning `HEARTBEAT_OK` means nothing needs
/// attention, and any other reply is the message to send (trimmed).
pub fn classify_reply(reply: Result<&str, &str>) -> (r: HeartbeatResult)
    ensures
        r.model() == reply_outcome(
            match reply {
                Ok(c) => Ok(c@),
                Err(e) => Err(e@),
            },
        ),
{
    match reply {
        Err(e) => {
            let mut s = "LLM call failed: ".to_owned();
            push_str(&mut s, e);
            HeartbeatResult::Failed(s)
        },
        Ok(content) => {
            let c = trimmed(content);
            if c.as_str().is_empty() {
                HeartbeatResult::Failed(EMPTY_CONTENT_ERROR.to_owned())
            } else if str_contains(c.as_str(), HEARTBEAT_OK) {
                HeartbeatResult::AllOk
            } else {
                HeartbeatResult::NeedsAttention(c)
            }
        },
    }
}

/// What reading the checklist decides: the checklist to run, or the result
/// that ends the heartbeat early (skipped when there is no checklist or it
/// is effectively empty, failed when it could not be read).
pub open spec fn checklist_gate(read: Result<Option<Seq<char>>, Seq<char>>, effectively_empty: bool) -> Result<
    Seq<char>,
    HeartbeatResultView,
> {
    match read {
        Err(e) => Err(HeartbeatResultView::Failed("Failed to read checklist: "@ + e)),
        Ok(None) => Err(HeartbeatResultView::Skipped),
        Ok(Some(c)) => if effectively_empty {
            Err(HeartbeatResultView::Skipped)
        } else {
            Ok(c)
        },
    }
}

/// Decide whether a heartbeat goes on with the checklist it read.
/// `effectively_empty` says whether the checklist holds nothing but
/// headings, comments and empty items.
pub fn gate_checklist(read: Result<Option<String>, String>, effectively_empty: bool) -> (r: Result<
    String,
    HeartbeatResult,
>)
    ensures
        match r {
            Ok(c) => checklist_gate(
                match read {
                    Ok(o) => Ok(crate::llm::opt_chars(o)),
                    Err(e) => Err(e@),
                },
                effectively_empty,
            ) == Ok::<Seq<char>, HeartbeatResultView>(c@),
            Err(h) => checklist_gate(
                match read {
                    Ok(o) => Ok(crate::llm::opt_chars(o)),
                    Err(e) => Err(e@),
                },
                effectively_empty,
            ) == Err::<Seq<char>, HeartbeatResultView>(h.model()),
        },
{
    match read {
        Err(e) => {
            let mut s = "Failed to read checklist: ".to_owned();
            push_str(&mut s, e.as_str());
            Err(HeartbeatResult::Failed(s))
        },
        Ok(None) => Err(HeartbeatResult::Skipped),
        Ok(Some(c)) => if effectively_empty {
            Err(HeartbeatResult::Skipped)
        } else {
            Ok(c)
        },
    }
}

/// The instructions that precede the checklist in a heartbeat prompt.
pub const HEARTBEAT_PROMPT_HEAD: &'static str =
    "Read the HEARTBEAT.md checklist below and follow it strictly. Do not infer or repeat old tasks. Check each item and report findings.\n\nIf nothing needs attention, reply EXACTLY with: HEARTBEAT_OK\n\nIf something needs attention, provide a concise summary of what needs action.\n\n## HEARTBEAT.md\n\n";

/// The heartbeat prompt for `checklist`.
pub open spec fn heartbeat_prompt_text(checklist: Seq<char>) -> Seq<char> {
    HEARTBEAT_PROMPT_HEAD@ + checklist
}

/// The messages of a heartbeat turn: the checklist prompt as a user
/// message, preceded by the workspace system prompt when it is non-empty.
/// A system prompt that could not be read counts as empty.
pub open spec fn heartbeat_messages_spec(system_prompt: Option<Seq<char>>, checklist: Seq<char>) -> Seq<
    MessageView,
> {
    let user = plain_message(Role::User, heartbeat_prompt_text(checklist));
    match system_prompt {
        Some(p) => if p.len() > 0 {
            seq![plain_message(Role::System, p), user]
        } else {
            seq![user]
        },
        None => seq![user],
    }
}

/// Build the chat messages for a heartbeat turn.
pub fn build_heartbeat_messages(system_prompt: Result<String, String>, checklist: &str) -> (r: Vec<
    ChatMessage,
>)
    ensures
        crate::llm::messages_model(r@) == heartbeat_messages_spec(
            match system_prompt {
                Ok(p) => Some(p@),
                Err(_) => None,
            },
            checklist@,
        ),
{
    let mut prompt = HEARTBEAT_PROMPT_HEAD.to_owned();
    push_str(&mut prompt, checklist);
    let user = ChatMessage::user(prompt.as_str());
    let r = match system_prompt {
        Ok(p) => if !p.as_str().is_empty() {
            vec![ChatMessage::system(p.as_str()), user]
        } else {
            vec![user]
        },
        Err(_) => vec![user],
    };
    assert(crate::llm::messages_model(r@) =~= heartbeat_messages_spec(
        match system_prompt {
            Ok(p) => Some(p@),
            Err(_) => None,
        },
        checklist@,
    ));
    r
}

/// Smallest token budget for a heartbeat reply.
pub const MIN_HEARTBEAT_TOKENS: u32 = 4096;

/// The reply budget: half the model's context window, at least 4096; 4096
/// when the context length is unknown or the metadata lookup failed.
pub open spec fn heartbeat_max_tokens_spec(context_length: Option<u32>) -> u32 {
    match context_length {
        Some(ctx) => if ctx / 2 > MIN_HEARTBEAT_TOKENS {
            (ctx / 2) as u32
        } else {
            MIN_HEARTBEAT_TOKENS
        },
        None => MIN_HEARTBEAT_TOKENS,
    }
}

/// Derive `max_tokens` from the model's context length (`Err` when the
/// metadata could not be fetched).
pub fn resolve_max_tokens<E>(metadata: Result<Option<u32>, E>) -> (r: u32)
    ensures
        r == heartbeat_max_tokens_spec(
            match metadata {
                Ok(c) => c,
                Err(_) => None,
            },
        ),
{
    match metadata {
        Ok(Some(ctx)) => if ctx / 2 > MIN_HEARTBEAT_TOKENS {
            ctx / 2
        } else {
            MIN_HEARTBEAT_TOKENS
        },
        _ => MIN_HEARTBEAT_TOKENS,
    }
}

/// Prefix of a heartbeat notification.
pub const ALERT_PREFIX: &'static str = "🔔 *Heartbeat Alert*\n\n";

/// The notification sent for a heartbeat finding.
pub fn alert_text(message: &str) -> (r: String)
    ensures
        r@ == ALERT_PREFIX@ + message@,
{
    let mut s = ALERT_PREFIX.to_owned();
    push_str(&mut s, message);
    s
}

/// The user notified of heartbeat findings: the configured one, or
/// `default`.
pub fn notify_user(config: &HeartbeatConfig) -> (r: &str)
    ensures
        r@ == match config.notify_user_id {
            Some(u) => u@,
            None => "default"@,
        },
{
    match &config.notify_user_id {
        Some(u) => u.as_str(),
        None => "default",
    }
}

/// What the loop does after a heartbeat.
#[derive(Debug)]
pub enum HeartbeatStep {
    /// Keep running.
    Continue,
    /// Send this finding to the user, then keep running.
    Notify(String),
    /// Stop the loop: too many consecutive failures.
    Stop,
}

/// Counts consecutive heartbeat failures against a limit.
#[derive(Debug)]
pub struct FailureTracker {
    /// Failures since the last successful heartbeat.
    pub consecutive_failures: u32,
    /// Failures in a row after which the loop stops.
    pub max_failures: u32,
}

/// Failures counted after a heartbeat that had result `r`, starting from
/// `count`: reset by a successful check, kept by a skipped one, one more
/// after a failure.
pub open spec fn failures_after(count: int, r: HeartbeatResultView) -> int {
    match r {
        HeartbeatResultView::AllOk => 0,
        HeartbeatResultView::NeedsAttention(_) => 0,
        HeartbeatResultView::Skipped => count,
        HeartbeatResultView::Failed(_) => count + 1,
    }
}

impl FailureTracker {
    /// A tracker with no failures yet.
    pub fn new(max_failures: u32) -> (t: Self)
        ensures
            t.consecutive_failures == 0,
            t.max_failures == max_failures,
    {
        FailureTracker { consecutive_failures: 0, max_failures }
    }

    /// React to a heartbeat outcome: update the failure count and say what
    /// the loop does next. A finding is passed on for notification; the loop
    /// stops when a failure brings the count to the limit.
    pub fn handle_result(&mut self, result: HeartbeatResult) -> (step: HeartbeatStep)
        requires
            old(self).consecutive_failures < u32::MAX,
        ensures
            final(self).max_failures == old(self).max_failures,
            final(self).consecutive_failures == failures_after(
                old(self).consecutive_failures as int,
                result.model(),
            ),
            (step is Stop) <==> (result is Failed && final(self).consecutive_failures
                >= final(self).max_failures),
            match result {
                HeartbeatResult::NeedsAttention(m) => step matches HeartbeatStep::Notify(n) && n
                    == m,
                _ => !(step is Notify),
            },
    {
        match result {
            HeartbeatResult::AllOk => {
                self.consecutive_failures = 0;
                HeartbeatStep::Continue
            },
            HeartbeatResult::NeedsAttention(message) => {
                self.consecutive_failures = 0;
                HeartbeatStep::Notify(message)
            },
            HeartbeatResult::Skipped => HeartbeatStep::Continue,
            HeartbeatResult::Failed(_) => {
                self.consecutive_failures = self.consecutive_failures + 1;
                if self.consecutive_failures >= self.max_failures {
                    HeartbeatStep::Stop
                } else {
                    HeartbeatStep::Continue
                }
            },
        }
    }
}

/// The failure count after a run of heartbeats with results `rs`, starting
/// from `count`.
pub open spec fn failures_after_all(count: int, rs: Seq<HeartbeatResultView>) -> int
    decreases rs.len(),
{
    if rs.len() == 0 {
        count
    } else {
        failures_after(failures_after_all(count, rs.drop_last()), rs.last())
    }
}

/// Number of failures among `rs`.
pub open spec fn failure_count(rs: Seq<HeartbeatResultView>) -> int
    decreases rs.len(),
{
    if rs.len() == 0 {
        0
    } else {
        failure_count(rs.drop_last()) + if rs.last() is Failed {
            1int
        } else {
            0int
        }
    }
}

/// In a run with no successful check, the failure count is the number of
/// failures in it: skipped heartbeats leave the count as it was.
pub proof fn lemma_failures_count_consecutive(rs: Seq<HeartbeatResultView>)
    requires
        forall|i: int| 0 <= i < rs.len() ==> !(#[trigger] rs[i] is AllOk) && !(rs[i] is NeedsAttention),
    ensures
        failures_after_all(0, rs) == failure_count(rs),
    decreases rs.len(),
{
    if rs.len() > 0 {
        assert forall|i: int| 0 <= i < rs.drop_last().len() implies !(#[trigger] rs.drop_last()[i] is AllOk)
            && !(rs.drop_last()[i] is NeedsAttention) by {
            assert(rs.drop_last()[i] == rs[i]);
        }
        lemma_failures_count_consecutive(rs.drop_last());
        assert(rs[rs.len() - 1] == rs.last());
    }
}

/// A successful check (ok or a finding) anywhere in a run clears all
/// failures before it: the count afterwards depends only on what follows.
pub proof fn lemma_success_resets(
    count: int,
    before: Seq<HeartbeatResultView>,
    success: HeartbeatResultView,
    after: Seq<HeartbeatResultView>,
)
    requires
        success is AllOk || success is NeedsAttention,
    ensures
        failures_after_all(count, before.push(success) + after) == failures_after_all(0, after),
    decreases after.len(),
{
    if after.len() == 0 {
        assert(before.push(success) + after =~= before.push(success));
        assert(before.push(success).drop_last() =~= before);
    } else {
        lemma_success_resets(count, before, success, after.drop_last());
        assert((before.push(success) + after).drop_last() =~= before.push(success)
            + after.drop_last());
    }
}

} // verus!
