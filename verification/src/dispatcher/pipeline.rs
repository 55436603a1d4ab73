//! The three-phase tool pipeline of a chat turn: preflight (hooks and
//! approval), execution (inline or parallel batches, auth barriers run
//! alone) and postflight (what is folded back into the context).
//!
//! Hooks, tools, the session and the channels are outside services: the
//! functions here decide, and the caller performs each step and reports
//! back.

use vstd::prelude::*;

use crate::dispatcher::postflight::is_auth_barrier_tool;
use crate::json::{json_parse, parse_json, JsonValue, JsonView};
use crate::llm::{calls_model, ToolCall, ToolCallView};
use crate::text::{decimal, push_decimal, push_str};

verus! {

broadcast use vstd::std_specs::vec::group_vec_axioms;

/// How a tool says whether a call needs the user's approval.
#[derive(Clone, Copy, PartialEq, Eq, Structural, Debug)]
pub enum ApprovalRequirement {
    /// Never needs approval.
    Never,
    /// Needs approval unless the user auto-approved the tool this session.
    UnlessAutoApproved,
    /// Always needs approval, even when auto-approved.
    Always,
}

/// Whether a call with requirement `req` needs approval, given whether the
/// session auto-approved the tool.
pub open spec fn needs_approval_spec(req: ApprovalRequirement, auto_approved: bool) -> bool {
    match req {
        ApprovalRequirement::Never => false,
        ApprovalRequirement::UnlessAutoApproved => !auto_approved,
        ApprovalRequirement::Always => true,
    }
}

/// Check if a tool call requires approval.
pub fn tool_requires_approval(req: ApprovalRequirement, session_auto_approved: bool) -> (b: bool)
    ensures
        b == needs_approval_spec(req, session_auto_approved),
{
    match req {
        ApprovalRequirement::Never => false,
        ApprovalRequirement::Always => true,
        ApprovalRequirement::UnlessAutoApproved => !session_auto_approved,
    }
}

/// Whether a requirement can be satisfied by auto-approval.
pub fn can_auto_approve(req: ApprovalRequirement) -> (b: bool)
    ensures
        b == !(req is Always),
{
    match req {
        ApprovalRequirement::Never | ApprovalRequirement::UnlessAutoApproved => true,
        ApprovalRequirement::Always => false,
    }
}

/// Whether the call must wait for the user: never when the agent
/// auto-approves all tools or the tool is unknown; otherwise as the tool's
/// requirement says.
pub fn approval_required(auto_approve_tools: bool, tool: Option<ApprovalRequirement>, session_auto_approved: bool) -> (b:
    bool)
    ensures
        b == (!auto_approve_tools && match tool {
            Some(req) => needs_approval_spec(req, session_auto_approved),
            None => false,
        }),
{
    if auto_approve_tools {
        return false;
    }
    match tool {
        Some(req) => tool_requires_approval(req, session_auto_approved),
        None => false,
    }
}

/// What approval reads of a chat session: its user and the tools the user
/// approved for the rest of the session.
#[derive(Debug)]
pub struct Session {
    pub user_id: String,
    pub auto_approved_tools: Vec<String>,
}

impl Session {
    /// Whether the user approved tool `name` for the session.
    pub open spec fn approves(self, name: Seq<char>) -> bool {
        exists|i: int|
            0 <= i < self.auto_approved_tools@.len() && (#[trigger] self.auto_approved_tools@[i])@
                == name
    }

    /// A new session of `user_id`, with no tool approved.
    pub fn new(user_id: &str) -> (s: Self)
        ensures
            s.user_id@ == user_id@,
            forall|n: Seq<char>| !s.approves(n),
    {
        Session { user_id: user_id.to_owned(), auto_approved_tools: Vec::new() }
    }

    /// Approve tool `name` for the rest of the session.
    pub fn auto_approve_tool(&mut self, name: &str)
        ensures
            final(self).user_id == old(self).user_id,
            forall|n: Seq<char>| final(self).approves(n) <==> (old(self).approves(n) || n == name@),
    {
        if !self.is_tool_auto_approved(name) {
            let ghost before = self.auto_approved_tools@;
            self.auto_approved_tools.push(name.to_owned());
            assert forall|n: Seq<char>| self.approves(n) <==> (old(self).approves(n) || n == name@) by {
                if old(self).approves(n) {
                    let i = choose|i: int|
                        0 <= i < before.len() && (#[trigger] before[i])@ == n;
                    assert(self.auto_approved_tools@[i] == before[i]);
                }
                if n == name@ {
                    assert(self.auto_approved_tools@[before.len() as int]@ == n);
                }
                if self.approves(n) {
                    let i = choose|i: int|
                        0 <= i < self.auto_approved_tools@.len() && (
                        #[trigger] self.auto_approved_tools@[i])@ == n;
                    if i < before.len() {
                        assert(before[i] == self.auto_approved_tools@[i]);
                    }
                }
            }
        }
    }

    /// Whether the user approved tool `name` for the session.
    pub fn is_tool_auto_approved(&self, name: &str) -> (b: bool)
        ensures
            b == self.approves(name@),
    {
        let n = self.auto_approved_tools.len();
        let mut i: usize = 0;
        while i < n
            invariant
                n == self.auto_approved_tools@.len(),
                i <= n,
                forall|j: int| 0 <= j < i ==> (#[trigger] self.auto_approved_tools@[j])@ != name@,
            decreases n - i,
        {
            if crate::text::str_eq(self.auto_approved_tools[i].as_str(), name) {
                return true;
            }
            i = i + 1;
        }
        false
    }
}

/// What the before-tool-call hooks answered.
#[derive(Debug)]
pub enum HookVerdict {
    /// A hook rejected the call, with its reason.
    Rejected(String),
    /// The hooks failed; the error's text. The call is blocked.
    Blocked(String),
    /// A hook replaced the parameters with this text (ignored when it is
    /// not JSON).
    Modified(String),
    /// The call goes ahead unchanged.
    Continue,
}

/// The rejection message of a verdict, if it stops the call.
pub open spec fn hook_rejection_spec(v: HookVerdict) -> Option<Seq<char>> {
    match v {
        HookVerdict::Rejected(r) => Some("Tool call rejected by hook: "@ + r@),
        HookVerdict::Blocked(e) => Some("Tool call blocked by hook policy: "@ + e@),
        _ => None,
    }
}

/// The message folded into the context for a call the hooks stopped.
pub fn hook_rejection(v: &HookVerdict) -> (r: Option<String>)
    ensures
        crate::llm::opt_chars(r) == hook_rejection_spec(*v),
{
    match v {
        HookVerdict::Rejected(reason) => {
            let mut m = "Tool call rejected by hook: ".to_owned();
            push_str(&mut m, reason.as_str());
            Some(m)
        },
        HookVerdict::Blocked(err) => {
            let mut m = "Tool call blocked by hook policy: ".to_owned();
            push_str(&mut m, err.as_str());
            Some(m)
        },
        _ => None,
    }
}

/// Entries of `obj` with the member `key` set to `val`: replaced in place
/// when present, appended otherwise.
pub open spec fn set_member(obj: Seq<(Seq<char>, JsonView)>, key: Seq<char>, val: JsonView) -> Seq<
    (Seq<char>, JsonView),
> {
    match crate::json::find_key_in_model(obj, key, 0) {
        Some(i) => obj.update(i, (key, val)),
        None => obj.push((key, val)),
    }
}

/// The object `obj` after putting back, for each sensitive key in order,
/// the original argument's value where the original has that key.
pub open spec fn restored_members(obj: Seq<(Seq<char>, JsonView)>, original: JsonView, keys: Seq<
    Seq<char>,
>) -> Seq<(Seq<char>, JsonView)>
    decreases keys.len(),
{
    if keys.len() == 0 {
        obj
    } else {
        let prev = restored_members(obj, original, keys.drop_last());
        match crate::json::model_get(original, keys.last()) {
            Some(v) => set_member(prev, keys.last(), v),
            None => prev,
        }
    }
}

proof fn lemma_find_key_spec(o: Seq<(Seq<char>, JsonView)>, k: Seq<char>, j: int)
    requires
        0 <= j,
    ensures
        match crate::json::find_key_in_model(o, k, j) {
            Some(i) => j <= i < o.len() && o[i].0 == k && forall|m: int| j <= m < i ==> #[trigger] o[m].0 != k,
            None => forall|m: int| j <= m < o.len() ==> #[trigger] o[m].0 != k,
        },
    decreases o.len() - j,
{
    if j < o.len() && o[j].0 != k {
        lemma_find_key_spec(o, k, j + 1);
    }
}

proof fn lemma_find_key_unique(o: Seq<(Seq<char>, JsonView)>, k: Seq<char>, i: int)
    requires
        0 <= i < o.len(),
        o[i].0 == k,
        forall|m: int| 0 <= m < i ==> #[trigger] o[m].0 != k,
    ensures
        crate::json::find_key_in_model(o, k, 0) == Some(i),
{
    lemma_find_key_spec(o, k, 0);
    match crate::json::find_key_in_model(o, k, 0) {
        Some(x) => {
            if x < i {
                assert(o[x].0 != k);
            } else if x > i {
                assert(o[i].0 != k);
            }
        },
        None => {
            assert(o[i].0 != k);
        },
    }
}

proof fn lemma_find_key_absent(o: Seq<(Seq<char>, JsonView)>, k: Seq<char>)
    requires
        forall|m: int| 0 <= m < o.len() ==> #[trigger] o[m].0 != k,
    ensures
        crate::json::find_key_in_model(o, k, 0) is None,
{
    lemma_find_key_spec(o, k, 0);
    if let Some(x) = crate::json::find_key_in_model(o, k, 0) {
        assert(o[x].0 != k);
    }
}

/// The member `k` of the object `o` after setting `k` to `v` is `v`.
proof fn lemma_set_member_same(o: Seq<(Seq<char>, JsonView)>, k: Seq<char>, v: JsonView)
    ensures
        crate::json::model_get(JsonView::Object(set_member(o, k, v)), k) == Some(v),
{
    lemma_find_key_spec(o, k, 0);
    let o2 = set_member(o, k, v);
    match crate::json::find_key_in_model(o, k, 0) {
        Some(i) => {
            assert forall|m: int| 0 <= m < i implies #[trigger] o2[m].0 != k by {
                assert(o2[m] == o[m]);
            }
            lemma_find_key_unique(o2, k, i);
        },
        None => {
            assert forall|m: int| 0 <= m < o.len() implies #[trigger] o2[m].0 != k by {
                assert(o2[m] == o[m]);
            }
            lemma_find_key_unique(o2, k, o.len() as int);
        },
    }
}

/// Setting another member leaves the member `k` as it was.
proof fn lemma_set_member_other(o: Seq<(Seq<char>, JsonView)>, k2: Seq<char>, x: JsonView, k: Seq<char>)
    requires
        k2 != k,
    ensures
        crate::json::model_get(JsonView::Object(set_member(o, k2, x)), k) == crate::json::model_get(
            JsonView::Object(o),
            k,
        ),
{
    lemma_find_key_spec(o, k, 0);
    lemma_find_key_spec(o, k2, 0);
    let o2 = set_member(o, k2, x);
    assert forall|m: int| 0 <= m < o.len() implies (#[trigger] o2[m]).0 == o[m].0 && (o[m].0 == k ==> o2[m]
        == o[m]) by {
        if let Some(i2) = crate::json::find_key_in_model(o, k2, 0) {
            if m == i2 {
                assert(o[m].0 == k2);
            }
        }
    }
    match crate::json::find_key_in_model(o, k, 0) {
        Some(i) => {
            assert forall|m: int| 0 <= m < i implies #[trigger] o2[m].0 != k by {
                assert(o[m].0 != k);
            }
            lemma_find_key_unique(o2, k, i);
        },
        None => {
            assert forall|m: int| 0 <= m < o2.len() implies #[trigger] o2[m].0 != k by {
                if m < o.len() {
                    assert(o[m].0 != k);
                }
            }
            lemma_find_key_absent(o2, k);
        },
    }
}

/// Hook modifications cannot lose or alter a secret: after restoring, each
/// sensitive key that the original arguments hold has its original value.
pub proof fn lemma_sensitive_values_restored(
    obj: Seq<(Seq<char>, JsonView)>,
    original: JsonView,
    keys: Seq<Seq<char>>,
    k: Seq<char>,
)
    requires
        keys.contains(k),
        crate::json::model_get(original, k) is Some,
    ensures
        crate::json::model_get(JsonView::Object(restored_members(obj, original, keys)), k)
            == crate::json::model_get(original, k),
    decreases keys.len(),
{
    let prev = restored_members(obj, original, keys.drop_last());
    let last = keys.last();
    if last == k {
        lemma_set_member_same(prev, k, crate::json::model_get(original, k)->0);
    } else {
        let i = choose|i: int| 0 <= i < keys.len() && keys[i] == k;
        assert(i < keys.len() - 1);
        assert(keys.drop_last()[i] == k);
        lemma_sensitive_values_restored(obj, original, keys.drop_last(), k);
        if let Some(v) = crate::json::model_get(original, last) {
            lemma_set_member_other(prev, last, v, k);
        }
    }
}

/// Content of a list of strings.
pub open spec fn strings_of(v: Seq<String>) -> Seq<Seq<char>> {
    v.map_values(|s: String| s@)
}

fn find_member(entries: &Vec<(String, JsonValue)>, key: &str) -> (r: Option<usize>)
    ensures
        match r {
            Some(i) => i < entries@.len() && crate::json::find_key_in_model(
                JsonValue::Object(*entries).model()->Object_0,
                key@,
                0,
            ) == Some(i as int),
            None => crate::json::find_key_in_model(
                JsonValue::Object(*entries).model()->Object_0,
                key@,
                0,
            ) is None,
        },
{
    let ghost m = JsonValue::Object(*entries).model()->Object_0;
    let n = entries.len();
    let mut i: usize = 0;
    while i < n
        invariant
            n == entries@.len(),
            i <= n,
            m == JsonValue::Object(*entries).model()->Object_0,
            crate::json::find_key_in_model(m, key@, 0) == crate::json::find_key_in_model(
                m,
                key@,
                i as int,
            ),
        decreases n - i,
    {
        assert(m[i as int].0 == entries@[i as int].0@);
        if crate::text::str_eq(entries[i].0.as_str(), key) {
            return Some(i);
        }
        i = i + 1;
    }
    None
}

/// What a hook sees in place of a sensitive parameter's value.
pub const REDACTED_VALUE: &'static str = "[REDACTED]";

/// The object `obj` with, for each sensitive key in order that it holds,
/// the value replaced by the redaction placeholder.
pub open spec fn redacted_members(obj: Seq<(Seq<char>, JsonView)>, keys: Seq<Seq<char>>) -> Seq<
    (Seq<char>, JsonView),
>
    decreases keys.len(),
{
    if keys.len() == 0 {
        obj
    } else {
        let prev = redacted_members(obj, keys.drop_last());
        if crate::json::find_key_in_model(prev, keys.last(), 0) is Some {
            set_member(prev, keys.last(), JsonView::String(REDACTED_VALUE@))
        } else {
            prev
        }
    }
}

/// Redaction keeps every member: a key the object holds is still there.
proof fn lemma_redaction_keeps_keys(obj: Seq<(Seq<char>, JsonView)>, keys: Seq<Seq<char>>, k: Seq<char>)
    requires
        crate::json::model_get(JsonView::Object(obj), k) is Some,
    ensures
        crate::json::model_get(JsonView::Object(redacted_members(obj, keys)), k) is Some,
    decreases keys.len(),
{
    if keys.len() > 0 {
        lemma_redaction_keeps_keys(obj, keys.drop_last(), k);
        let prev = redacted_members(obj, keys.drop_last());
        let last = keys.last();
        if crate::json::find_key_in_model(prev, last, 0) is Some {
            if last == k {
                lemma_set_member_same(prev, k, JsonView::String(REDACTED_VALUE@));
            } else {
                lemma_set_member_other(prev, last, JsonView::String(REDACTED_VALUE@), k);
            }
        }
    }
}

/// A hook never sees a secret: after redaction, each sensitive key that
/// the arguments hold carries the placeholder instead of its value.
pub proof fn lemma_redaction_hides_sensitive(
    obj: Seq<(Seq<char>, JsonView)>,
    keys: Seq<Seq<char>>,
    k: Seq<char>,
)
    requires
        keys.contains(k),
        crate::json::model_get(JsonView::Object(obj), k) is Some,
    ensures
        crate::json::model_get(JsonView::Object(redacted_members(obj, keys)), k) == Some(
            JsonView::String(REDACTED_VALUE@),
        ),
    decreases keys.len(),
{
    let prev = redacted_members(obj, keys.drop_last());
    let last = keys.last();
    if last == k {
        lemma_redaction_keeps_keys(obj, keys.drop_last(), k);
        assert(crate::json::find_key_in_model(prev, k, 0) is Some);
        lemma_set_member_same(prev, k, JsonView::String(REDACTED_VALUE@));
    } else {
        let i = choose|i: int| 0 <= i < keys.len() && keys[i] == k;
        assert(i < keys.len() - 1);
        assert(keys.drop_last()[i] == k);
        lemma_redaction_hides_sensitive(obj, keys.drop_last(), k);
        if crate::json::find_key_in_model(prev, last, 0) is Some {
            lemma_set_member_other(prev, last, JsonView::String(REDACTED_VALUE@), k);
        }
    }
}

/// A copy of a tool call's arguments with the values of its sensitive
/// parameters replaced by the placeholder; arguments that are not an
/// object are copied unchanged.
pub fn redact_params(args: &JsonValue, sensitive: &Vec<String>) -> (r: JsonValue)
    ensures
        match args.model() {
            JsonView::Object(obj) => r.model() == JsonView::Object(
                redacted_members(obj, strings_of(sensitive@)),
            ),
            _ => r.model() == args.model(),
        },
{
    let copy = args.deep_clone();
    let mut entries = match copy {
        JsonValue::Object(e) => e,
        other => return other,
    };
    let ghost obj0 = JsonValue::Object(entries).model()->Object_0;
    let n = sensitive.len();
    let mut i: usize = 0;
    while i < n
        invariant
            n == sensitive@.len(),
            i <= n,
            JsonValue::Object(entries).model()->Object_0 == redacted_members(
                obj0,
                strings_of(sensitive@).take(i as int),
            ),
        decreases n - i,
    {
        let ghost prev = JsonValue::Object(entries).model()->Object_0;
        assert(strings_of(sensitive@).take(i as int + 1).drop_last() =~= strings_of(sensitive@).take(
            i as int,
        ));
        let key = &sensitive[i];
        assert(strings_of(sensitive@).take(i as int + 1).last() == key@);
        match find_member(&entries, key.as_str()) {
            Some(j) => {
                let placeholder = JsonValue::String(REDACTED_VALUE.to_owned());
                assert(placeholder.model() == JsonView::String(REDACTED_VALUE@));
                entries.set(j, (key.clone(), placeholder));
                assert(JsonValue::Object(entries).model()->Object_0[j as int] == (
                    key@,
                    JsonView::String(REDACTED_VALUE@),
                ));
                assert(JsonValue::Object(entries).model()->Object_0 =~= prev.update(
                    j as int,
                    (key@, JsonView::String(REDACTED_VALUE@)),
                ));
            },
            None => {},
        }
        i = i + 1;
    }
    assert(strings_of(sensitive@).take(n as int) =~= strings_of(sensitive@));
    JsonValue::Object(entries)
}

/// The event the before-tool-call hooks receive for a call.
#[derive(Debug)]
pub struct HookToolCallEvent {
    pub tool_name: String,
    /// The call's arguments with sensitive values redacted.
    pub parameters: JsonValue,
    pub user_id: String,
    /// Where the call comes from: `chat` for an interactive turn.
    pub context: String,
}

/// The hook event for a chat tool call: the tool's name, its arguments
/// with the sensitive parameters redacted, the user, and the `chat`
/// context.
pub fn tool_call_hook_event(tc: &ToolCall, sensitive: &Vec<String>, user_id: &str) -> (e:
    HookToolCallEvent)
    ensures
        e.tool_name@ == tc.name@,
        e.user_id@ == user_id@,
        e.context@ == "chat"@,
        match tc.arguments.model() {
            JsonView::Object(obj) => e.parameters.model() == JsonView::Object(
                redacted_members(obj, strings_of(sensitive@)),
            ),
            _ => e.parameters.model() == tc.arguments.model(),
        },
{
    HookToolCallEvent {
        tool_name: tc.name.clone(),
        parameters: redact_params(&tc.arguments, sensitive),
        user_id: user_id.to_owned(),
        context: "chat".to_owned(),
    }
}

/// Put the original values of sensitive parameters back into hook-modified
/// arguments, so that redaction before the hook cannot lose secrets. Only
/// an object receives them.
pub fn restore_sensitive_fields(modified: JsonValue, original: &JsonValue, sensitive: &Vec<String>) -> (r:
    JsonValue)
    ensures
        match modified.model() {
            JsonView::Object(obj) => r.model() == JsonView::Object(
                restored_members(obj, original.model(), strings_of(sensitive@)),
            ),
            _ => r.model() == modified.model(),
        },
{
    let mut entries = match modified {
        JsonValue::Object(e) => e,
        other => return other,
    };
    let ghost obj0 = JsonValue::Object(entries).model()->Object_0;
    let n = sensitive.len();
    let mut i: usize = 0;
    while i < n
        invariant
            n == sensitive@.len(),
            i <= n,
            JsonValue::Object(entries).model()->Object_0 == restored_members(
                obj0,
                original.model(),
                strings_of(sensitive@).take(i as int),
            ),
        decreases n - i,
    {
        let ghost prev = JsonValue::Object(entries).model()->Object_0;
        assert(strings_of(sensitive@).take(i as int + 1).drop_last() =~= strings_of(sensitive@).take(
            i as int,
        ));
        let key = &sensitive[i];
        proof {
            crate::json::lemma_get_model(*original, key@);
            assert(strings_of(sensitive@).take(i as int + 1).last() == key@);
        }
        match original.get(key.as_str()) {
            Some(v) => {
                assert(crate::json::model_get(original.model(), key@) == Some(v.model()));
                let val = v.deep_clone();
                match find_member(&entries, key.as_str()) {
                    Some(j) => {
                        entries.set(j, (key.clone(), val));
                        assert(JsonValue::Object(entries).model()->Object_0 =~= prev.update(
                            j as int,
                            (key@, v.model()),
                        ));

                    },
                    None => {
                        entries.push((key.clone(), val));
                        assert(JsonValue::Object(entries).model()->Object_0 =~= prev.push(
                            (key@, v.model()),
                        ));
                    },
                }
            },
            None => {
                assert(crate::json::json_get(*original, key@) is None);
            },
        }
        i = i + 1;
    }
    assert(strings_of(sensitive@).take(n as int) =~= strings_of(sensitive@));
    JsonValue::Object(entries)
}

/// Apply a hook's parameter modification to a tool call: the replacement
/// text parsed as JSON, with sensitive values restored from the original
/// call, becomes the call's arguments; a replacement that is not JSON is
/// ignored.
pub fn apply_hook_param_modification(tc: &mut ToolCall, original: &ToolCall, sensitive: &Vec<String>, modified: &str)
    ensures
        final(tc).id == old(tc).id,
        final(tc).name == old(tc).name,
        match json_parse(modified@) {
            Some(m) => match m {
                JsonView::Object(obj) => final(tc).arguments.model() == JsonView::Object(
                    restored_members(obj, original.arguments.model(), strings_of(sensitive@)),
                ),
                _ => final(tc).arguments.model() == m,
            },
            None => final(tc).arguments == old(tc).arguments,
        },
{
    if let Some(p) = parse_json(modified) {
        tc.arguments = restore_sensitive_fields(p, &original.arguments, sensitive);
    }
}

/// The preflight classification of one tool call.
#[derive(Debug)]
pub enum ToolCallOutcome {
    /// The before-hook rejected this call with a message.
    Rejected(String),
    /// The call requires user approval before it may run.
    NeedsApproval,
    /// The call is cleared to run immediately.
    Runnable,
}

/// Classify a call from the hooks' rejection message (if any) and whether
/// it needs approval: a rejection wins, then approval.
pub fn classify_tool_call(rejection: Option<String>, needs_approval: bool) -> (r: ToolCallOutcome)
    ensures
        match rejection {
            Some(m) => r matches ToolCallOutcome::Rejected(x) && x == m,
            None => if needs_approval {
                r is NeedsApproval
            } else {
                r is Runnable
            },
        },
{
    match rejection {
        Some(m) => ToolCallOutcome::Rejected(m),
        None => if needs_approval {
            ToolCallOutcome::NeedsApproval
        } else {
            ToolCallOutcome::Runnable
        },
    }
}

/// Outcome of preflight check for a single tool call.
#[derive(Debug)]
pub enum PreflightOutcome {
    /// Tool call was rejected by a hook.
    Rejected(String),
    /// Tool call is runnable.
    Runnable,
}

/// A tool call that requires user approval, with its index in the original
/// call sequence.
#[derive(Debug)]
pub struct ApprovalCandidate {
    pub idx: usize,
    pub tool_call: ToolCall,
}

/// The calls grouped so far: every classified call in order with its
/// outcome, the runnable ones with their index into `preflight`, and the
/// first call that needs approval (which ends the grouping).
#[derive(Debug)]
pub struct ToolBatch {
    pub preflight: Vec<(ToolCall, PreflightOutcome)>,
    pub runnable: Vec<(usize, ToolCall)>,
    pub approval_needed: Option<ApprovalCandidate>,
}

/// Content of preflight entries: the call, and the rejection message or
/// `None` when runnable.
pub open spec fn preflight_model(p: Seq<(ToolCall, PreflightOutcome)>) -> Seq<
    (ToolCallView, Option<Seq<char>>),
> {
    p.map_values(
        |e: (ToolCall, PreflightOutcome)|
            (
                e.0.model(),
                match e.1 {
                    PreflightOutcome::Rejected(m) => Some(m@),
                    PreflightOutcome::Runnable => None,
                },
            ),
    )
}

/// Content of runnable entries.
pub open spec fn runnable_model(r: Seq<(usize, ToolCall)>) -> Seq<(usize, ToolCallView)> {
    r.map_values(|e: (usize, ToolCall)| (e.0, e.1.model()))
}

impl ToolBatch {
    /// An empty grouping.
    pub fn new() -> (b: Self)
        ensures
            b.preflight@.len() == 0,
            b.runnable@.len() == 0,
            b.approval_needed is None,
            b.wf(),
    {
        ToolBatch { preflight: Vec::new(), runnable: Vec::new(), approval_needed: None }
    }

    /// Every runnable entry points, in increasing order, at a runnable
    /// preflight entry holding the same call, and every runnable preflight
    /// entry is listed.
    pub open spec fn wf(self) -> bool {
        &&& forall|k: int|
            0 <= k < self.runnable@.len() ==> {
                let (i, c) = #[trigger] self.runnable@[k];
                &&& i < self.preflight@.len()
                &&& self.preflight@[i as int].1 is Runnable
                &&& self.preflight@[i as int].0.model() == c.model()
            }
        &&& forall|j: int, k: int|
            0 <= j < k < self.runnable@.len() ==> #[trigger] self.runnable@[j].0
                < #[trigger] self.runnable@[k].0
        &&& forall|i: int|
            0 <= i < self.preflight@.len() && (#[trigger] self.preflight@[i]).1 is Runnable ==> exists|
                k: int,
            |
                0 <= k < self.runnable@.len() && #[trigger] self.runnable@[k].0 == i
    }

    /// Record a classification. A rejected call is kept with its message; a
    /// runnable one is kept and listed as runnable; a call needing approval
    /// is set aside.
    fn record_outcome(&mut self, idx: usize, tc: ToolCall, outcome: ToolCallOutcome)
        requires
            old(self).wf(),
            old(self).approval_needed is None,
        ensures
            final(self).wf(),
            match outcome {
                ToolCallOutcome::Rejected(m) => {
                    &&& preflight_model(final(self).preflight@) == preflight_model(
                        old(self).preflight@,
                    ).push((tc.model(), Some(m@)))
                    &&& runnable_model(final(self).runnable@) == runnable_model(
                        old(self).runnable@,
                    )
                    &&& final(self).approval_needed is None
                },
                ToolCallOutcome::NeedsApproval => {
                    &&& final(self).preflight == old(self).preflight
                    &&& final(self).runnable == old(self).runnable
                    &&& final(self).approval_needed matches Some(c) && c.idx == idx
                        && c.tool_call.model() == tc.model()
                },
                ToolCallOutcome::Runnable => {
                    &&& preflight_model(final(self).preflight@) == preflight_model(
                        old(self).preflight@,
                    ).push((tc.model(), None))
                    &&& runnable_model(final(self).runnable@) == runnable_model(
                        old(self).runnable@,
                    ).push((old(self).preflight@.len() as usize, tc.model()))
                    &&& final(self).approval_needed is None
                },
            },
    {
        let ghost old_pre = self.preflight@;
        let ghost old_run = self.runnable@;
        match outcome {
            ToolCallOutcome::Rejected(m) => {
                self.preflight.push((tc, PreflightOutcome::Rejected(m)));
                proof {
                    assert(preflight_model(self.preflight@) =~= preflight_model(old_pre).push(
                        (tc.model(), Some(m@)),
                    ));
                    assert forall|k: int| 0 <= k < self.runnable@.len() implies ({
                        let (i, c) = #[trigger] self.runnable@[k];
                        &&& i < self.preflight@.len()
                        &&& self.preflight@[i as int].1 is Runnable
                        &&& self.preflight@[i as int].0.model() == c.model()
                    }) by {
                        assert(old_run[k] == self.runnable@[k]);
                        assert(self.preflight@[old_run[k].0 as int] == old_pre[old_run[k].0 as int]);
                    }
                    assert forall|i: int|
                        0 <= i < self.preflight@.len() && (#[trigger] self.preflight@[i]).1 is Runnable implies exists|
                        k: int,
                    |
                        0 <= k < self.runnable@.len() && #[trigger] self.runnable@[k].0 == i by {
                        assert(i < old_pre.len());
                        assert(old_pre[i] == self.preflight@[i]);
                    }
                }
            },
            ToolCallOutcome::NeedsApproval => {
                self.approval_needed = Some(ApprovalCandidate { idx, tool_call: tc });
            },
            ToolCallOutcome::Runnable => {
                let pf_idx = self.preflight.len();
                let copy = tc.clone_call();
                self.preflight.push((tc, PreflightOutcome::Runnable));
                self.runnable.push((pf_idx, copy));
                proof {
                    assert(preflight_model(self.preflight@) =~= preflight_model(old_pre).push(
                        (tc.model(), None),
                    ));
                    assert(runnable_model(self.runnable@) =~= runnable_model(old_run).push(
                        (pf_idx, tc.model()),
                    ));
                    assert forall|k: int| 0 <= k < self.runnable@.len() implies ({
                        let (i, c) = #[trigger] self.runnable@[k];
                        &&& i < self.preflight@.len()
                        &&& self.preflight@[i as int].1 is Runnable
                        &&& self.preflight@[i as int].0.model() == c.model()
                    }) by {
                        if k < old_run.len() {
                            assert(old_run[k] == self.runnable@[k]);
                            assert(self.preflight@[old_run[k].0 as int] == old_pre[old_run[k].0 as int]);
                        }
                    }
                    assert forall|j: int, k: int|
                        0 <= j < k < self.runnable@.len() implies #[trigger] self.runnable@[j].0
                        < #[trigger] self.runnable@[k].0 by {
                        if k < old_run.len() {
                            assert(old_run[j] == self.runnable@[j]);
                            assert(old_run[k] == self.runnable@[k]);
                        } else {
                            assert(old_run[j] == self.runnable@[j]);
                        }
                    }
                    assert forall|i: int|
                        0 <= i < self.preflight@.len() && (#[trigger] self.preflight@[i]).1 is Runnable implies exists|
                        k: int,
                    |
                        0 <= k < self.runnable@.len() && #[trigger] self.runnable@[k].0 == i by {
                        if i < old_pre.len() {
                            assert(old_pre[i] == self.preflight@[i]);
                            let k = choose|k: int| 0 <= k < old_run.len() && #[trigger] old_run[k].0 == i;
                            assert(self.runnable@[k] == old_run[k]);
                        } else {
                            assert(self.runnable@[old_run.len() as int].0 == i);
                        }
                    }
                }
            },
        }
    }

    /// The grouping is a prefix of `calls`: the classified calls are the
    /// first ones of `calls`, in order and with the same id and name, and a
    /// call set aside for approval is the one right after them.
    pub open spec fn wf_for(self, calls: Seq<ToolCall>) -> bool {
        &&& self.wf()
        &&& self.preflight@.len() <= calls.len()
        &&& forall|j: int|
            0 <= j < self.preflight@.len() ==> (#[trigger] self.preflight@[j]).0.id@ == calls[j].id@
                && self.preflight@[j].0.name@ == calls[j].name@
        &&& self.approval_needed matches Some(c) ==> {
            &&& c.idx == self.preflight@.len()
            &&& c.idx < calls.len()
            &&& c.tool_call.id@ == calls[c.idx as int].id@
            &&& c.tool_call.name@ == calls[c.idx as int].name@
        }
    }

    /// The index of the next call to classify: the one after the calls
    /// classified so far, while no call waits for approval.
    pub open spec fn next_call_spec(self, calls: Seq<ToolCall>) -> Option<usize> {
        if self.approval_needed is None && self.preflight@.len() < calls.len() {
            Some(self.preflight@.len() as usize)
        } else {
            None
        }
    }

    /// The next call to classify, or `None` when grouping is over: every
    /// call is classified, or one waits for approval.
    pub fn next_call(&self, calls: &Vec<ToolCall>) -> (r: Option<usize>)
        ensures
            r == self.next_call_spec(calls@),
    {
        if self.approval_needed.is_none() && self.preflight.len() < calls.len() {
            Some(self.preflight.len())
        } else {
            None
        }
    }

    /// Record the classification of the next call of `calls`; `tc` is that
    /// call as the hooks left it (same id and name). A rejected call is
    /// kept with its message; a runnable one is kept and listed as
    /// runnable; the first call needing approval is set aside and ends the
    /// grouping.
    pub fn record(&mut self, calls: &Vec<ToolCall>, tc: ToolCall, outcome: ToolCallOutcome)
        requires
            old(self).wf_for(calls@),
            old(self).next_call_spec(calls@) is Some,
            tc.id@ == calls@[old(self).preflight@.len() as int].id@,
            tc.name@ == calls@[old(self).preflight@.len() as int].name@,
        ensures
            final(self).wf_for(calls@),
            match outcome {
                ToolCallOutcome::Rejected(m) => {
                    &&& preflight_model(final(self).preflight@) == preflight_model(
                        old(self).preflight@,
                    ).push((tc.model(), Some(m@)))
                    &&& runnable_model(final(self).runnable@) == runnable_model(
                        old(self).runnable@,
                    )
                    &&& final(self).approval_needed is None
                },
                ToolCallOutcome::NeedsApproval => {
                    &&& final(self).preflight == old(self).preflight
                    &&& final(self).runnable == old(self).runnable
                    &&& final(self).approval_needed matches Some(c) && c.idx
                        == old(self).preflight@.len() && c.tool_call.model() == tc.model()
                },
                ToolCallOutcome::Runnable => {
                    &&& preflight_model(final(self).preflight@) == preflight_model(
                        old(self).preflight@,
                    ).push((tc.model(), None))
                    &&& runnable_model(final(self).runnable@) == runnable_model(
                        old(self).runnable@,
                    ).push((old(self).preflight@.len() as usize, tc.model()))
                    &&& final(self).approval_needed is None
                },
            },
    {
        let ghost old_pre = self.preflight@;
        let ghost tcm = tc.model();
        let ghost oc = outcome;
        let idx = self.preflight.len();
        self.record_outcome(idx, tc, outcome);
        proof {
            let pm = preflight_model(self.preflight@);
            let pm_old = preflight_model(old_pre);
            assert(pm.len() == self.preflight@.len());
            assert(pm_old.len() == old_pre.len());
            match oc {
                ToolCallOutcome::NeedsApproval => {},
                _ => {
                    assert(pm.len() == pm_old.len() + 1);
                },
            }
            assert forall|j: int| 0 <= j < self.preflight@.len() implies (
            #[trigger] self.preflight@[j]).0.id@ == calls@[j].id@ && self.preflight@[j].0.name@
                == calls@[j].name@ by {
                match oc {
                    ToolCallOutcome::NeedsApproval => {
                        assert(self.preflight@[j] == old_pre[j]);
                    },
                    _ => {
                        assert(pm[j].0 == self.preflight@[j].0.model());
                        if j < old_pre.len() {
                            assert(pm_old[j].0 == old_pre[j].0.model());
                            assert(pm[j] == pm_old[j]);
                        } else {
                            assert(pm[j].0 == tcm);
                        }
                    },
                }
            }
        }
    }

    /// Once grouping is over, the classified calls are exactly the calls
    /// before the one waiting for approval, or all calls when none waits;
    /// they are in order, with their ids and names.
    pub proof fn lemma_grouping_done(self, calls: Seq<ToolCall>)
        requires
            self.wf_for(calls),
            self.next_call_spec(calls) is None,
        ensures
            self.preflight@.len() == match self.approval_needed {
                Some(c) => c.idx as int,
                None => calls.len() as int,
            },
            forall|j: int|
                0 <= j < self.preflight@.len() ==> (#[trigger] self.preflight@[j]).0.id@
                    == calls[j].id@ && self.preflight@[j].0.name@ == calls[j].name@,
    {
    }

    /// The calls committed to the context: every classified call in order,
    /// then the call awaiting approval, if any.
    pub fn effective_tool_calls(&self) -> (r: Vec<ToolCall>)
        ensures
            calls_model(r@) == preflight_model(self.preflight@).map_values(
                |e: (ToolCallView, Option<Seq<char>>)| e.0,
            ) + match self.approval_needed {
                Some(c) => seq![c.tool_call.model()],
                None => Seq::<ToolCallView>::empty(),
            },
    {
        let mut out: Vec<ToolCall> = Vec::new();
        let n = self.preflight.len();
        let mut i: usize = 0;
        while i < n
            invariant
                n == self.preflight@.len(),
                i <= n,
                out@.len() == i,
                forall|k: int|
                    0 <= k < i ==> #[trigger] out@[k].model() == self.preflight@[k].0.model(),
            decreases n - i,
        {
            out.push(self.preflight[i].0.clone_call());
            i = i + 1;
        }
        if let Some(c) = &self.approval_needed {
            out.push(c.tool_call.clone_call());
        }
        assert(calls_model(out@) =~= preflight_model(self.preflight@).map_values(
            |e: (ToolCallView, Option<Seq<char>>)| e.0,
        ) + match self.approval_needed {
            Some(c) => seq![c.tool_call.model()],
            None => Seq::<ToolCallView>::empty(),
        });
        out
    }
}

/// The calls deferred behind a call awaiting approval: those after it.
pub fn deferred_tool_calls(calls: &Vec<ToolCall>, idx: usize) -> (r: Vec<ToolCall>)
    requires
        idx < calls@.len(),
    ensures
        calls_model(r@) == calls_model(calls@).subrange(idx + 1, calls@.len() as int),
{
    let mut out: Vec<ToolCall> = Vec::new();
    let n = calls.len();
    let mut i: usize = idx + 1;
    while i < n
        invariant
            n == calls@.len(),
            idx + 1 <= i <= n,
            out@.len() == i - idx - 1,
            forall|k: int| 0 <= k < out@.len() ==> #[trigger] out@[k].model() == calls@[idx + 1 + k].model(),
        decreases n - i,
    {
        out.push(calls[i].clone_call());
        i = i + 1;
    }
    assert(calls_model(out@) =~= calls_model(calls@).subrange(idx + 1, calls@.len() as int));
    out
}

/// The status shown while tools run: `Executing <n> tool(s)...`.
pub fn executing_status(n: usize) -> (r: String)
    ensures
        r@ == "Executing "@ + decimal(n as nat) + " tool(s)..."@,
{
    let mut s = "Executing ".to_owned();
    push_decimal(&mut s, n as u64);
    push_str(&mut s, " tool(s)...");
    s
}

/// The next step of the execution phase, starting at runnable position
/// `start`.
#[derive(Debug)]
pub enum Phase2Step {
    /// Every runnable call has run.
    Done,
    /// Run this auth-barrier call alone; stop if it asks for a token.
    Barrier { at: usize },
    /// Run the calls at positions `start..end` one after another.
    Inline { start: usize, end: usize },
    /// Run the calls at positions `start..end` in parallel.
    Parallel { start: usize, end: usize },
}

/// Whether the call named `n` is an auth barrier.
pub open spec fn is_barrier(n: Seq<char>) -> bool {
    n == "tool_auth"@ || n == "tool_activate"@
}

/// Position of the first auth barrier at or after `i`, or the length.
pub open spec fn next_barrier(names: Seq<Seq<char>>, i: int) -> int
    decreases names.len() - i,
{
    if i < 0 || i >= names.len() {
        names.len() as int
    } else if is_barrier(names[i]) {
        i
    } else {
        next_barrier(names, i + 1)
    }
}

/// The step that runs next from position `start`: an auth barrier alone;
/// otherwise the longest run of non-barrier calls, in parallel when it
/// holds more than one call.
pub open spec fn phase2_step_spec(names: Seq<Seq<char>>, start: int) -> Phase2Step {
    if start >= names.len() {
        Phase2Step::Done
    } else if is_barrier(names[start]) {
        Phase2Step::Barrier { at: start as usize }
    } else {
        let end = next_barrier(names, start);
        if end - start <= 1 {
            Phase2Step::Inline { start: start as usize, end: end as usize }
        } else {
            Phase2Step::Parallel { start: start as usize, end: end as usize }
        }
    }
}

/// Names of the runnable calls.
pub open spec fn runnable_names(r: Seq<(usize, ToolCall)>) -> Seq<Seq<char>> {
    r.map_values(|e: (usize, ToolCall)| e.1.name@)
}

/// Decide the next execution step over the runnable calls, from position
/// `start`.
pub fn next_phase2_step(runnable: &Vec<(usize, ToolCall)>, start: usize) -> (r: Phase2Step)
    requires
        start <= runnable@.len(),
    ensures
        r == phase2_step_spec(runnable_names(runnable@), start as int),
{
    let ghost names = runnable_names(runnable@);
    let n = runnable.len();
    if start >= n {
        return Phase2Step::Done;
    }
    if is_auth_barrier_tool(runnable[start].1.name.as_str()) {
        return Phase2Step::Barrier { at: start };
    }
    let mut end = start + 1;
    proof {
        reveal_with_fuel(next_barrier, 2);
    }
    while end < n && !is_auth_barrier_tool(runnable[end].1.name.as_str())
        invariant
            n == runnable@.len(),
            names == runnable_names(runnable@),
            start < end <= n,
            next_barrier(names, start as int) == next_barrier(names, end as int),
        decreases n - end,
    {
        end = end + 1;
    }
    if end - start <= 1 {
        Phase2Step::Inline { start, end }
    } else {
        Phase2Step::Parallel { start, end }
    }
}

/// A step always moves forward, and a batch holds no auth barrier: the
/// steps from 0 visit every runnable call exactly once, each barrier on its
/// own.
pub proof fn lemma_phase2_progress(names: Seq<Seq<char>>, start: int)
    requires
        0 <= start < names.len() <= usize::MAX,
    ensures
        match phase2_step_spec(names, start) {
            Phase2Step::Barrier { at } => at == start && is_barrier(names[start]),
            Phase2Step::Inline { start: s, end: e } => s == start && start < e <= names.len()
                && forall|i: int| start <= i < e ==> !is_barrier(#[trigger] names[i]),
            Phase2Step::Parallel { start: s, end: e } => s == start && start < e <= names.len()
                && forall|i: int| start <= i < e ==> !is_barrier(#[trigger] names[i]),
            Phase2Step::Done => false,
        },
{
    if !is_barrier(names[start]) {
        lemma_next_barrier_bounds(names, start);
    }
}

proof fn lemma_next_barrier_bounds(names: Seq<Seq<char>>, i: int)
    requires
        0 <= i <= names.len(),
    ensures
        i <= next_barrier(names, i) <= names.len(),
        forall|k: int| i <= k < next_barrier(names, i) ==> !is_barrier(#[trigger] names[k]),
        i < names.len() && !is_barrier(names[i]) ==> i < next_barrier(names, i),
    decreases names.len() - i,
{
    if i < names.len() && !is_barrier(names[i]) {
        lemma_next_barrier_bounds(names, i + 1);
    }
}

/// Text of a task slot that produced no result.
pub const TASK_FAILED_REASON: &'static str = "Task failed during execution";

/// Text of a preflight slot that was never filled.
pub const NO_RESULT_REASON: &'static str = "No result available";

/// A tool execution that failed inside the pipeline itself.
#[derive(Debug)]
pub struct ExecutionFailure {
    pub name: String,
    pub reason: String,
}

/// After a parallel batch: every call of the batch whose task died without
/// a result gets a failure naming the tool; the other slots are kept.
pub fn fill_missing_results<T>(
    results: &mut Vec<Option<Result<T, ExecutionFailure>>>,
    batch: &Vec<(usize, ToolCall)>,
)
    requires
        forall|k: int| 0 <= k < batch@.len() ==> (#[trigger] batch@[k]).0 < old(results)@.len(),
    ensures
        final(results)@.len() == old(results)@.len(),
        forall|i: int|
            0 <= i < old(results)@.len() ==> {
                let was = old(results)@[i];
                let now = #[trigger] final(results)@[i];
                if was is Some {
                    now == was
                } else if exists|k: int| 0 <= k < batch@.len() && #[trigger] batch@[k].0 == i {
                    now matches Some(Err(f)) && f.reason@ == TASK_FAILED_REASON@
                        && exists|k: int|
                        0 <= k < batch@.len() && #[trigger] batch@[k].0 == i && f.name@
                            == batch@[k].1.name@
                } else {
                    now is None
                }
            },
{
    let ghost orig = results@;
    let n = batch.len();
    let mut k: usize = 0;
    while k < n
        invariant
            n == batch@.len(),
            k <= n,
            results@.len() == orig.len(),
            forall|j: int| 0 <= j < batch@.len() ==> (#[trigger] batch@[j]).0 < orig.len(),
            forall|i: int|
                0 <= i < orig.len() ==> {
                    let was = orig[i];
                    let now = #[trigger] results@[i];
                    if was is Some {
                        now == was
                    } else if exists|j: int| 0 <= j < k && #[trigger] batch@[j].0 == i {
                        now matches Some(Err(f)) && f.reason@ == TASK_FAILED_REASON@
                            && exists|j: int|
                            0 <= j < batch@.len() && #[trigger] batch@[j].0 == i && f.name@
                                == batch@[j].1.name@
                    } else {
                        now is None
                    }
                },
        decreases n - k,
    {
        let idx = batch[k].0;
        if results[idx].is_none() {
            let f = ExecutionFailure {
                name: batch[k].1.name.clone(),
                reason: TASK_FAILED_REASON.to_owned(),
            };
            results.set(idx, Some(Err(f)));
        }
        assert forall|i: int| 0 <= i < orig.len() implies {
            let was = orig[i];
            let now = #[trigger] results@[i];
            if was is Some {
                now == was
            } else if exists|j: int| 0 <= j < k + 1 && #[trigger] batch@[j].0 == i {
                now matches Some(Err(f)) && f.reason@ == TASK_FAILED_REASON@ && exists|j: int|
                    0 <= j < batch@.len() && #[trigger] batch@[j].0 == i && f.name@
                        == batch@[j].1.name@
            } else {
                now is None
            }
        } by {
            if i == idx as int {
                assert(batch@[k as int].0 == i);
            }
        }
        k = k + 1;
    }
}

/// Take the result of a runnable preflight entry: its slot's result, or a
/// failure saying none is available.
pub fn take_result<T>(slot: Option<Result<T, ExecutionFailure>>, name: &str) -> (r: Result<
    T,
    ExecutionFailure,
>)
    ensures
        match slot {
            Some(x) => r == x,
            None => r matches Err(f) && f.name@ == name@ && f.reason@ == NO_RESULT_REASON@,
        },
{
    match slot {
        Some(x) => x,
        None => Err(ExecutionFailure { name: name.to_owned(), reason: NO_RESULT_REASON.to_owned() }),
    }
}

/// How a batch of tool calls ends the loop iteration.
#[derive(Debug)]
pub enum ToolCallsOutcome<P> {
    /// An auth barrier needs a token: answer with these instructions.
    Response(String),
    /// A call waits for approval.
    NeedApproval(P),
}

/// The end of a tool-call batch: a deferred auth request wins over a
/// pending approval; with neither, the loop goes on.
pub fn finish_tool_calls<P>(deferred_auth: Option<String>, pending: Option<P>) -> (r: Option<
    ToolCallsOutcome<P>,
>)
    ensures
        match deferred_auth {
            Some(i) => r matches Some(ToolCallsOutcome::Response(x)) && x == i,
            None => match pending {
                Some(p) => r matches Some(ToolCallsOutcome::NeedApproval(x)) && x == p,
                None => r is None,
            },
        },
{
    match deferred_auth {
        Some(i) => Some(ToolCallsOutcome::Response(i)),
        None => match pending {
            Some(p) => Some(ToolCallsOutcome::NeedApproval(p)),
            None => None,
        },
    }
}

} // verus!
