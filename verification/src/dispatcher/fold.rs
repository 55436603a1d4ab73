//! The post-flight fold of a turn's tool calls: every classified call, in
//! order, contributes exactly one tool-result message to the context, and
//! the fold stops right after the first call that puts the thread into
//! auth mode. The services that sanitize output, record outcomes and talk
//! to the user are driven from outside through the actions returned here.

use vstd::prelude::*;

use crate::dispatcher::pipeline::{PreflightOutcome, ToolBatch};
use crate::dispatcher::postflight::{
    auth_barrier_spec, barrier_chars, image_sentinel, is_image_sentinel_payload, is_image_tool_name,
    output_json, parse_auth_barrier, postflight_text, postflight_text_spec, result_chars,
    should_send_preview,
    AuthBarrierData, ImageSentinel,
};
use crate::dispatcher::types::{preview_of, result_json, truncate_for_preview, PREVIEW_MAX_CHARS};
use crate::json::{json_str_field, parsed_json, JsonValue};
use crate::llm::{opt_chars, ChatMessage, MessageView, Role, ToolCall};
use crate::text::starts_with;

verus! {

/// The tool-result message of call `tc` carrying `content`.
pub open spec fn tool_result_view(tc: ToolCall, content: Seq<char>) -> MessageView {
    MessageView {
        role: Role::Tool,
        content,
        tool_call_id: Some(tc.id@),
        name: Some(tc.name@),
        tool_calls: None,
    }
}

/// Whether `m` is a tool-result message answering call `tc`.
pub open spec fn answers(m: ChatMessage, tc: ToolCall) -> bool {
    &&& m.role == Role::Tool
    &&& opt_chars(m.tool_call_id) == Some(tc.id@)
    &&& opt_chars(m.name) == Some(tc.name@)
}

/// The fold's position: `pos` entries of the preflight list are folded;
/// the context had `start` messages when the fold began; `deferred_auth`
/// holds the instructions of the auth request that stopped it.
#[derive(Debug)]
pub struct PostflightFold {
    pub start: usize,
    pub pos: usize,
    pub deferred_auth: Option<String>,
}

/// A tool outcome to record in the session's turn.
#[derive(Debug)]
pub struct OutcomeRecord {
    pub pf_idx: usize,
    pub content: String,
    pub is_error: bool,
}

/// What to do for a runnable call before its text is sanitized.
#[derive(Debug)]
pub struct RunnablePlan {
    /// The text to sanitize and fold back.
    pub text: String,
    /// An image to broadcast: its `data:image/` URL and file path.
    pub broadcast: Option<(String, Option<String>)>,
}

/// What to do for a runnable call once its text is sanitized, besides
/// appending its tool-result message.
#[derive(Debug)]
pub struct RunnableActions {
    /// The preview to send to the channel, if any.
    pub preview: Option<String>,
    /// The auth request to act on: enter auth mode and tell the user.
    pub auth: Option<AuthBarrierData>,
    /// The raw output to stash under the call's id, if any.
    pub stash: Option<String>,
    /// The outcome to record.
    pub record: OutcomeRecord,
}

impl PostflightFold {
    /// The fold is consistent with `preflight` and the context `messages`:
    /// the first `pos` entries each added one tool-result message, in
    /// order, after the `start` messages that were there, and a deferred
    /// auth request came from the last folded entry.
    pub open spec fn wf(self, preflight: Seq<(ToolCall, PreflightOutcome)>, messages: Seq<ChatMessage>) -> bool {
        &&& self.pos <= preflight.len()
        &&& messages.len() == self.start + self.pos
        &&& forall|j: int|
            0 <= j < self.pos ==> answers(#[trigger] messages[self.start + j], preflight[j].0)
        &&& self.deferred_auth is Some ==> self.pos > 0
    }

    /// The entry to fold next, while no auth request stopped the fold.
    pub open spec fn next_spec(self, preflight: Seq<(ToolCall, PreflightOutcome)>) -> Option<usize> {
        if self.deferred_auth is None && self.pos < preflight.len() {
            Some(self.pos)
        } else {
            None
        }
    }

    /// Begin folding into a context of `messages`.
    pub fn begin(messages: &Vec<ChatMessage>) -> (f: Self)
        ensures
            f.start == messages@.len(),
            f.pos == 0,
            f.deferred_auth is None,
            forall|p: Seq<(ToolCall, PreflightOutcome)>| f.wf(p, messages@),
    {
        PostflightFold { start: messages.len(), pos: 0, deferred_auth: None }
    }

    /// The preflight entry to fold next, or `None` when the fold is over:
    /// every entry is folded, or an auth request stopped it.
    pub fn next(&self, batch: &ToolBatch) -> (r: Option<usize>)
        ensures
            r == self.next_spec(batch.preflight@),
    {
        if self.deferred_auth.is_none() && self.pos < batch.preflight.len() {
            Some(self.pos)
        } else {
            None
        }
    }

    /// Fold a call the hooks rejected: its rejection message goes into the
    /// context as its tool result, and is recorded as an error.
    pub fn fold_rejected(&mut self, batch: &ToolBatch, messages: &mut Vec<ChatMessage>) -> (r:
        OutcomeRecord)
        requires
            old(self).wf(batch.preflight@, old(messages)@),
            old(self).next_spec(batch.preflight@) is Some,
            batch.preflight@[old(self).pos as int].1 is Rejected,
        ensures
            final(self).wf(batch.preflight@, final(messages)@),
            final(self).start == old(self).start,
            final(self).pos == old(self).pos + 1,
            final(self).deferred_auth is None,
            ({
                let (tc, outcome) = batch.preflight@[old(self).pos as int];
                let msg = outcome->Rejected_0;
                &&& final(messages)@.len() == old(messages)@.len() + 1
                &&& final(messages)@.take(old(messages)@.len() as int) == old(messages)@
                &&& final(messages)@.last().model() == tool_result_view(tc, msg@)
                &&& r.pf_idx == old(self).pos
                &&& r.content@ == msg@
                &&& r.is_error
            }),
    {
        let pos = self.pos;
        let n = batch.preflight.len();
        assert(pos < n);
        let (tc, outcome) = &batch.preflight[pos];
        let msg = match outcome {
            PreflightOutcome::Rejected(m) => m,
            PreflightOutcome::Runnable => {
                assert(false);
                return OutcomeRecord { pf_idx: pos, content: String::new(), is_error: true };
            },
        };
        let ghost old_msgs = messages@;
        messages.push(ChatMessage::tool_result(tc.id.as_str(), tc.name.as_str(), msg.as_str()));
        self.pos = pos + 1;
        proof {
            assert(messages@.take(old_msgs.len() as int) =~= old_msgs);
            assert forall|j: int| 0 <= j < self.pos implies answers(
                #[trigger] messages@[self.start + j],
                batch.preflight@[j].0,
            ) by {
                if j < pos {
                    assert(messages@[self.start + j] == old_msgs[self.start + j]);
                }
            }
        }
        OutcomeRecord { pf_idx: pos, content: msg.clone(), is_error: true }
    }

    /// Fold a runnable call whose result is `result` and whose planned text
    /// the safety layer turned into `preview_text` (for the channel) and
    /// `wrapped` (for the model). The wrapped text goes into the context as
    /// the call's tool result and is recorded, as an error when the call
    /// failed. On success the raw output is stashed and an auth request in
    /// it stops the fold; the preview is sent unless it is empty or the
    /// output is an image sentinel.
    pub fn fold_runnable(
        &mut self,
        batch: &ToolBatch,
        messages: &mut Vec<ChatMessage>,
        result: &Result<String, String>,
        preview_text: &str,
        wrapped: &str,
    ) -> (r: RunnableActions)
        requires
            old(self).wf(batch.preflight@, old(messages)@),
            old(self).next_spec(batch.preflight@) is Some,
            batch.preflight@[old(self).pos as int].1 is Runnable,
        ensures
            final(self).wf(batch.preflight@, final(messages)@),
            final(self).start == old(self).start,
            final(self).pos == old(self).pos + 1,
            ({
                let tc = batch.preflight@[old(self).pos as int].0;
                let name = tc.name@;
                let preview = preview_of(preview_text@, PREVIEW_MAX_CHARS as nat);
                let sentinel = postflight_text_spec(name, result_chars(*result), output_json(*result)).2;
                &&& final(messages)@.len() == old(messages)@.len() + 1
                &&& final(messages)@.take(old(messages)@.len() as int) == old(messages)@
                &&& final(messages)@.last().model() == tool_result_view(tc, wrapped@)
                &&& r.record.pf_idx == old(self).pos
                &&& r.record.content@ == wrapped@
                &&& r.record.is_error == result is Err
                &&& opt_chars(r.stash) == match result {
                    Ok(o) => Some(o@),
                    Err(_) => None,
                }
                &&& opt_chars(r.preview) == if !sentinel && preview.len() > 0 {
                    Some(preview)
                } else {
                    None
                }
                &&& barrier_chars(r.auth) == auth_barrier_spec(name, result_json(*result))
                &&& opt_chars(final(self).deferred_auth) == match r.auth {
                    Some(a) => Some(a.instructions@),
                    None => None,
                }
            }),
    {
        let pos = self.pos;
        let n = batch.preflight.len();
        assert(pos < n);
        let tc = &batch.preflight[pos].0;
        let is_sentinel = match result {
            Ok(output) => match image_sentinel(tc.name.as_str(), output.as_str()) {
                ImageSentinel::Sentinel { .. } => true,
                ImageSentinel::NotSentinel => false,
            },
            Err(_) => false,
        };
        let preview = truncate_for_preview(preview_text, PREVIEW_MAX_CHARS);
        let send = should_send_preview(is_sentinel, preview.as_str());
        let auth = parse_auth_barrier(tc.name.as_str(), result);
        let stash = match result {
            Ok(output) => Some(output.clone()),
            Err(_) => None,
        };
        let ghost old_msgs = messages@;
        messages.push(ChatMessage::tool_result(tc.id.as_str(), tc.name.as_str(), wrapped));
        self.pos = pos + 1;
        self.deferred_auth = match &auth {
            Some(a) => Some(a.instructions.clone()),
            None => None,
        };
        proof {
            assert(messages@.take(old_msgs.len() as int) =~= old_msgs);
            assert forall|j: int| 0 <= j < self.pos implies answers(
                #[trigger] messages@[self.start + j],
                batch.preflight@[j].0,
            ) by {
                if j < pos {
                    assert(messages@[self.start + j] == old_msgs[self.start + j]);
                }
            }
        }
        RunnableActions {
            preview: if send {
                Some(preview)
            } else {
                None
            },
            auth,
            stash,
            record: OutcomeRecord { pf_idx: pos, content: wrapped.to_owned(), is_error: result.is_err() },
        }
    }

    /// Once the fold is over without an auth request, every preflight
    /// entry added exactly one tool-result message answering its call, in
    /// order, after the messages that were there.
    pub proof fn lemma_fold_done(self, preflight: Seq<(ToolCall, PreflightOutcome)>, messages: Seq<ChatMessage>)
        requires
            self.wf(preflight, messages),
            self.next_spec(preflight) is None,
            self.deferred_auth is None,
        ensures
            self.pos == preflight.len(),
            messages.len() == self.start + preflight.len(),
            forall|j: int|
                0 <= j < preflight.len() ==> answers(#[trigger] messages[self.start + j], preflight[j].0),
    {
    }
}

/// When a turn ends waiting for approval of call `i` (grouping stopped at
/// it and the fold met no auth request), the context received exactly one
/// tool-result message for each call before `i`, in order, answering that
/// call by id and name, and nothing else.
pub proof fn lemma_approval_follows_all_results(
    batch: ToolBatch,
    calls: Seq<ToolCall>,
    fold: PostflightFold,
    messages: Seq<ChatMessage>,
)
    requires
        batch.wf_for(calls),
        batch.next_call_spec(calls) is None,
        batch.approval_needed is Some,
        fold.wf(batch.preflight@, messages),
        fold.next_spec(batch.preflight@) is None,
        fold.deferred_auth is None,
    ensures
        messages.len() == fold.start + batch.approval_needed->0.idx,
        forall|j: int|
            0 <= j < batch.approval_needed->0.idx ==> {
                let m = #[trigger] messages[fold.start + j];
                &&& m.role == Role::Tool
                &&& opt_chars(m.tool_call_id) == Some(calls[j].id@)
                &&& opt_chars(m.name) == Some(calls[j].name@)
            },
{
    batch.lemma_grouping_done(calls);
    fold.lemma_fold_done(batch.preflight@, messages);
    assert forall|j: int| 0 <= j < batch.approval_needed->0.idx implies {
        let m = #[trigger] messages[fold.start + j];
        &&& m.role == Role::Tool
        &&& opt_chars(m.tool_call_id) == Some(calls[j].id@)
        &&& opt_chars(m.name) == Some(calls[j].name@)
    } by {
        assert(answers(messages[fold.start + j], batch.preflight@[j].0));
        assert(batch.preflight@[j].0.id@ == calls[j].id@);
    }
}

/// The `data:image/` URL of an image sentinel payload, if it has one.
pub open spec fn sentinel_data_url(v: JsonValue) -> Option<Seq<char>> {
    match json_str_field(v, "data"@) {
        Some(d) => if starts_with(d, "data:image/"@) {
            Some(d)
        } else {
            None
        },
        None => None,
    }
}

/// The image a tool output asks to broadcast: an image sentinel of an
/// image tool with a `data:image/` URL, with its file path.
pub open spec fn image_broadcast_spec(name: Seq<char>, output: Seq<char>) -> Option<
    (Seq<char>, Option<Seq<char>>),
> {
    let parsed = parsed_json(output);
    if is_image_tool_name(name) && parsed is Some && is_image_sentinel_payload(parsed->0) {
        match sentinel_data_url(parsed->0) {
            Some(d) => Some((d, json_str_field(parsed->0, "path"@))),
            None => None,
        }
    } else {
        None
    }
}

/// An image to broadcast, taken by its characters.
pub open spec fn broadcast_chars(b: Option<(String, Option<String>)>) -> Option<
    (Seq<char>, Option<Seq<char>>),
> {
    match b {
        Some((u, p)) => Some((u@, opt_chars(p))),
        None => None,
    }
}

/// Plan a runnable call's post-flight: the text to sanitize (see
/// `postflight_text`) and, for an image sentinel with a `data:image/` URL,
/// the image to broadcast first.
pub fn plan_runnable(name: &str, result: &Result<String, String>) -> (r: RunnablePlan)
    ensures
        r.text@ == postflight_text_spec(name@, result_chars(*result), output_json(*result)).0,
        broadcast_chars(r.broadcast) == match result {
            Ok(o) => image_broadcast_spec(name@, o@),
            Err(_) => None,
        },
{
    let text = postflight_text(name, result).text;
    let broadcast = match result {
        Ok(output) => match image_sentinel(name, output.as_str()) {
            ImageSentinel::Sentinel { data_url: Some(u), path } => Some((u, path)),
            _ => None,
        },
        Err(_) => None,
    };
    RunnablePlan { text, broadcast }
}

} // verus!
