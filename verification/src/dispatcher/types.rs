//! Types and helpers shared by the dispatcher: previews, auth detection,
//! compaction for retry and stripping of internal tool-call markers.

use vstd::prelude::*;

use crate::json::{
    get_str, json_get, json_is_true, json_str_field, lemma_parsed_json, lemma_same_content_fields,
    parse_json, parsed_json, JsonValue,
};
use crate::llm::{messages_model, plain_message, ChatMessage, MessageView, Role};
use crate::text::{
    str_eq,
    contains, ends_with, lines, lines_state, range_contains, range_ends_with, range_starts_with,
    starts_with, strip_cr, trim, trim_bounds, chars_of, is_whitespace, is_ws, push_str, string_from_chars, string_from_range};

verus! {

/// Maximum characters for tool output preview.
pub const PREVIEW_MAX_CHARS: usize = 1024;

/// State after reading a prefix of the input when collapsing whitespace:
/// the output so far, whether a word has been seen, and whether a
/// separator is pending before the next word.
pub open spec fn collapse_state(s: Seq<char>) -> (Seq<char>, bool, bool)
    decreases s.len(),
{
    if s.len() == 0 {
        (Seq::empty(), false, false)
    } else {
        let (out, seen, pending) = collapse_state(s.drop_last());
        let c = s.last();
        if is_ws(c) {
            (out, seen, seen)
        } else {
            let out1 = if pending {
                out.push(' ')
            } else {
                out
            };
            (out1.push(c), true, false)
        }
    }
}

/// The whitespace-separated words of `s` joined by single spaces
/// (`s.split_whitespace().join(" ")`).
pub open spec fn collapse_ws(s: Seq<char>) -> Seq<char> {
    collapse_state(s).0
}

/// The single-line preview of `s` limited to `max` characters.
pub open spec fn preview_of(s: Seq<char>, max: nat) -> Seq<char> {
    if max == 0 {
        Seq::empty()
    } else if collapse_ws(s).len() <= max {
        collapse_ws(s)
    } else {
        collapse_ws(s).take(max as int) + seq!['.', '.', '.']
    }
}

proof fn lemma_collapse_chars(s: Seq<char>)
    ensures
        forall|i: int|
            0 <= i < collapse_state(s).0.len() ==> #[trigger] collapse_state(s).0[i] == ' '
                || !is_ws(collapse_state(s).0[i]),
    decreases s.len(),
{
    if s.len() > 0 {
        lemma_collapse_chars(s.drop_last());
        let (out, seen, pending) = collapse_state(s.drop_last());
        let c = s.last();
        if !is_ws(c) {
            let out1 = if pending {
                out.push(' ')
            } else {
                out
            };
            assert forall|i: int| 0 <= i < out1.len() implies #[trigger] out1[i] == ' ' || !is_ws(
                out1[i],
            ) by {
                if i < out.len() {
                    assert(out1[i] == out[i]);
                }
            }
            assert forall|i: int| 0 <= i < out1.push(c).len() implies #[trigger] out1.push(c)[i]
                == ' ' || !is_ws(out1.push(c)[i]) by {
                if i < out1.len() {
                    assert(out1.push(c)[i] == out1[i]);
                }
            }
        }
    }
}

/// A preview is a single line no longer than the limit plus the `...`
/// marker: the only whitespace left in it is single spaces.
pub proof fn lemma_preview_single_line(s: Seq<char>, max: nat)
    ensures
        preview_of(s, max).len() <= max + 3,
        forall|i: int|
            0 <= i < preview_of(s, max).len() ==> #[trigger] preview_of(s, max)[i] == ' '
                || !is_ws(preview_of(s, max)[i]),
{
    lemma_collapse_chars(s);
    let c = collapse_ws(s);
    let p = preview_of(s, max);
    if max > 0 && c.len() > max {
        assert forall|i: int| 0 <= i < p.len() implies #[trigger] p[i] == ' ' || !is_ws(p[i]) by {
            if i < max {
                assert(p[i] == c[i]);
            } else {
                assert(p[i] == '.');
            }
        }
    }
}

/// Collapses runs of whitespace in `v` into single spaces, dropping
/// leading and trailing whitespace.
pub fn collapse_whitespace(v: &[char]) -> (out: Vec<char>)
    ensures
        out@ == collapse_ws(v@),
{
    let mut out: Vec<char> = Vec::new();
    let mut seen = false;
    let mut pending = false;
    let n = v.len();
    let mut i: usize = 0;
    while i < n
        invariant
            n == v@.len(),
            i <= n,
            (out@, seen, pending) == collapse_state(v@.take(i as int)),
        decreases n - i,
    {
        let c = v[i];
        assert(v@.take(i as int + 1).drop_last() =~= v@.take(i as int));
        if is_whitespace(c) {
            pending = seen;
        } else {
            if pending {
                out.push(' ');
            }
            out.push(c);
            seen = true;
            pending = false;
        }
        i = i + 1;
    }
    assert(v@.take(n as int) =~= v@);
    out
}

/// Collapse a tool output string into a single-line preview for display.
pub fn truncate_for_preview(output: &str, max_chars: usize) -> (r: String)
    ensures
        r@ == preview_of(output@, max_chars as nat),
{
    if max_chars == 0 {
        return String::new();
    }
    let chars = chars_of(output);
    let collapsed = collapse_whitespace(chars.as_slice());
    if collapsed.len() <= max_chars {
        return string_from_chars(collapsed.as_slice());
    }
    let mut truncated = string_from_range(collapsed.as_slice(), 0, max_chars);
    push_str(&mut truncated, "...");
    proof {
        reveal_strlit("...");
        assert(collapsed@.subrange(0, max_chars as int) =~= collapsed@.take(max_chars as int));
    }
    truncated
}

/// Text of the system note inserted when earlier history is dropped.
pub const COMPACTION_NOTE: &'static str =
    "[Note: Earlier conversation history was automatically compacted to fit within the context window. The most recent exchange is preserved below.]";

/// The note inserted when earlier history is dropped.
pub open spec fn compaction_note() -> MessageView {
    plain_message(Role::System, COMPACTION_NOTE@)
}

/// Index of the last user message.
pub open spec fn last_user_index(ms: Seq<MessageView>) -> Option<int>
    decreases ms.len(),
{
    if ms.len() == 0 {
        None
    } else if ms.last().role == Role::User {
        Some(ms.len() - 1)
    } else {
        last_user_index(ms.drop_last())
    }
}

/// The system messages of `ms`, in order.
pub open spec fn system_only(ms: Seq<MessageView>) -> Seq<MessageView>
    decreases ms.len(),
{
    if ms.len() == 0 {
        Seq::empty()
    } else if ms.last().role == Role::System {
        system_only(ms.drop_last()).push(ms.last())
    } else {
        system_only(ms.drop_last())
    }
}

/// The non-system messages of `ms`, in order.
pub open spec fn non_system_only(ms: Seq<MessageView>) -> Seq<MessageView>
    decreases ms.len(),
{
    if ms.len() == 0 {
        Seq::empty()
    } else if ms.last().role != Role::System {
        non_system_only(ms.drop_last()).push(ms.last())
    } else {
        non_system_only(ms.drop_last())
    }
}

/// History anchored at the user message at `idx`: the earlier system
/// messages, the compaction note when anything precedes `idx`, then every
/// message from `idx` on.
pub open spec fn compact_from_user(ms: Seq<MessageView>, idx: int) -> Seq<MessageView> {
    system_only(ms.take(idx)) + (if idx > 0 {
        seq![compaction_note()]
    } else {
        Seq::empty()
    }) + ms.skip(idx)
}

/// Compaction for retry: anchored at the last user message, or, without
/// one, the system messages followed by the other messages.
pub open spec fn compact_for_retry(ms: Seq<MessageView>) -> Seq<MessageView> {
    match last_user_index(ms) {
        Some(idx) => compact_from_user(ms, idx),
        None => system_only(ms) + non_system_only(ms),
    }
}

/// Locates the last user message.
pub fn find_last_user(messages: &[ChatMessage]) -> (r: Option<usize>)
    ensures
        r matches Some(i) ==> i < messages@.len() && last_user_index(messages_model(messages@))
            == Some(i as int),
        r is None ==> last_user_index(messages_model(messages@)) is None,
{
    let ghost mv = messages_model(messages@);
    let mut i: usize = messages.len();
    assert(mv.take(i as int) =~= mv);
    while i > 0
        invariant
            i <= messages@.len(),
            mv == messages_model(messages@),
            last_user_index(mv) == last_user_index(mv.take(i as int)),
        decreases i,
    {
        assert(mv.take(i as int).drop_last() =~= mv.take(i as int - 1));
        assert(mv.take(i as int).last() == messages@[i - 1].model());
        if messages[i - 1].role == Role::User {
            return Some(i - 1);
        }
        i = i - 1;
    }
    assert(mv.take(0) =~= Seq::<MessageView>::empty());
    None
}

/// Appends copies of the system messages of `messages[..end]` to `out`.
pub fn push_system_messages(out: &mut Vec<ChatMessage>, messages: &[ChatMessage], end: usize)
    requires
        end <= messages@.len(),
    ensures
        messages_model(final(out)@) == messages_model(old(out)@) + system_only(
            messages_model(messages@).take(end as int),
        ),
{
    let ghost mv = messages_model(messages@);
    let ghost base = messages_model(out@);
    let mut k: usize = 0;
    while k < end
        invariant
            end <= messages@.len(),
            k <= end,
            mv == messages_model(messages@),
            messages_model(out@) == base + system_only(mv.take(k as int)),
        decreases end - k,
    {
        assert(mv.take(k as int + 1).drop_last() =~= mv.take(k as int));
        assert(mv.take(k as int + 1).last() == messages@[k as int].model());
        if messages[k].role == Role::System {
            let ghost before = out@;
            out.push(messages[k].clone_message());
            assert(messages_model(out@) =~= messages_model(before).push(messages@[k as int].model()));
        }
        k = k + 1;
    }
}

/// Appends copies of `messages[from..]` to `out`.
pub fn push_suffix(out: &mut Vec<ChatMessage>, messages: &[ChatMessage], from: usize)
    requires
        from <= messages@.len(),
    ensures
        messages_model(final(out)@) == messages_model(old(out)@) + messages_model(messages@).skip(
            from as int,
        ),
{
    let ghost mv = messages_model(messages@);
    let ghost base = messages_model(out@);
    let n = messages.len();
    let mut k: usize = from;
    while k < n
        invariant
            n == messages@.len(),
            from <= k <= n,
            mv == messages_model(messages@),
            messages_model(out@) == base + mv.subrange(from as int, k as int),
        decreases n - k,
    {
        let ghost before = out@;
        out.push(messages[k].clone_message());
        assert(messages_model(out@) =~= messages_model(before).push(messages@[k as int].model()));
        assert(mv.subrange(from as int, k as int + 1) =~= mv.subrange(from as int, k as int).push(
            mv[k as int],
        ));
        k = k + 1;
    }
    assert(mv.subrange(from as int, n as int) =~= mv.skip(from as int));
}

/// Appends copies of the non-system messages of `messages` to `out`.
pub fn push_non_system_messages(out: &mut Vec<ChatMessage>, messages: &[ChatMessage])
    ensures
        messages_model(final(out)@) == messages_model(old(out)@) + non_system_only(
            messages_model(messages@),
        ),
{
    let ghost mv = messages_model(messages@);
    let ghost base = messages_model(out@);
    let n = messages.len();
    let mut k: usize = 0;
    while k < n
        invariant
            n == messages@.len(),
            k <= n,
            mv == messages_model(messages@),
            messages_model(out@) == base + non_system_only(mv.take(k as int)),
        decreases n - k,
    {
        assert(mv.take(k as int + 1).drop_last() =~= mv.take(k as int));
        assert(mv.take(k as int + 1).last() == messages@[k as int].model());
        if messages[k].role != Role::System {
            let ghost before = out@;
            out.push(messages[k].clone_message());
            assert(messages_model(out@) =~= messages_model(before).push(messages@[k as int].model()));
        }
        k = k + 1;
    }
    assert(mv.take(n as int) =~= mv);
}

/// Build a compacted history anchored at the user message at `idx`.
pub fn compact_from_last_user(messages: &[ChatMessage], idx: usize) -> (r: Vec<ChatMessage>)
    requires
        idx <= messages@.len(),
    ensures
        messages_model(r@) == compact_from_user(messages_model(messages@), idx as int),
{
    let mut compacted: Vec<ChatMessage> = Vec::new();
    assert(messages_model(compacted@) =~= Seq::<MessageView>::empty());
    push_system_messages(&mut compacted, messages, idx);
    if idx > 0 {
        let ghost before = compacted@;
        compacted.push(ChatMessage::system(COMPACTION_NOTE));
        assert(messages_model(compacted@) =~= messages_model(before).push(compaction_note()));
    }
    push_suffix(&mut compacted, messages, idx);
    let ghost mv = messages_model(messages@);
    assert(messages_model(compacted@) =~= compact_from_user(mv, idx as int));
    compacted
}

/// Fallback when no user message exists: system messages first, then the rest.
pub fn reorder_system_messages_first(messages: &[ChatMessage]) -> (r: Vec<ChatMessage>)
    ensures
        messages_model(r@) == system_only(messages_model(messages@)) + non_system_only(
            messages_model(messages@),
        ),
{
    let mut out: Vec<ChatMessage> = Vec::new();
    assert(messages_model(out@) =~= Seq::<MessageView>::empty());
    push_system_messages(&mut out, messages, messages.len());
    assert(messages_model(messages@).take(messages@.len() as int) =~= messages_model(messages@));
    push_non_system_messages(&mut out, messages);
    assert(messages_model(out@) =~= system_only(messages_model(messages@)) + non_system_only(
        messages_model(messages@),
    ));
    out
}

/// Compact messages for retry after a context-length-exceeded error.
///
/// Keeps all system messages, finds the last user message, and retains it
/// plus every subsequent message. A short note is inserted so the model
/// knows earlier history was dropped.
pub fn compact_messages_for_retry(messages: &[ChatMessage]) -> (r: Vec<ChatMessage>)
    ensures
        messages_model(r@) == compact_for_retry(messages_model(messages@)),
{
    match find_last_user(messages) {
        Some(idx) => compact_from_last_user(messages, idx),
        None => reorder_system_messages_first(messages),
    }
}

/// Reply used when nothing is left after removing internal markers.
pub const EMPTY_REPLY_FALLBACK: &'static str =
    "I wasn't able to complete that request. Could you try rephrasing or providing more details?";

/// Whether a line is an internal tool-call marker: `[Called tool ...]`,
/// `[Tool ... returned: ...]`, and, when `bracket_markers` holds,
/// `[TOOL_CALL:...]`, ignoring surrounding whitespace.
pub open spec fn is_marker_line(l: Seq<char>, bracket_markers: bool) -> bool {
    let t = trim(l);
    ||| starts_with(t, "[Called tool "@) && ends_with(t, "]"@)
    ||| starts_with(t, "[Tool "@) && contains(t, " returned:"@) && ends_with(t, "]"@)
    ||| bracket_markers && starts_with(t, "[TOOL_CALL:"@) && ends_with(t, "]"@)
}

/// The lines that are not markers, joined by newlines; a line is preceded
/// by a newline only when something has been written before it.
pub open spec fn join_kept(ls: Seq<Seq<char>>, bracket_markers: bool) -> Seq<char>
    decreases ls.len(),
{
    if ls.len() == 0 {
        Seq::empty()
    } else {
        let acc = join_kept(ls.drop_last(), bracket_markers);
        let l = ls.last();
        if is_marker_line(l, bracket_markers) {
            acc
        } else {
            (if acc.len() > 0 {
                acc.push('\n')
            } else {
                acc
            }) + l
        }
    }
}

/// `text` without marker lines and surrounding whitespace, or the fallback
/// reply when nothing remains.
pub open spec fn stripped_reply(text: Seq<char>, bracket_markers: bool) -> Seq<char> {
    let r = trim(join_kept(lines(text), bracket_markers));
    if r.len() == 0 {
        EMPTY_REPLY_FALLBACK@
    } else {
        r
    }
}

/// Decides whether `v[from..to]` is a marker line.
pub fn range_is_marker_line(v: &[char], from: usize, to: usize, bracket_markers: bool) -> (b: bool)
    requires
        from <= to <= v@.len(),
    ensures
        b == is_marker_line(v@.subrange(from as int, to as int), bracket_markers),
{
    let (a, e) = trim_bounds(v, from, to);
    let called = chars_of("[Called tool ");
    let tool = chars_of("[Tool ");
    let returned = chars_of(" returned:");
    let close = chars_of("]");
    let bracket = chars_of("[TOOL_CALL:");
    let ends = range_ends_with(v, a, e, close.as_slice());
    let first = range_starts_with(v, a, e, called.as_slice()) && ends;
    let second = range_starts_with(v, a, e, tool.as_slice()) && range_contains(
        v,
        a,
        e,
        returned.as_slice(),
    ) && ends;
    let third = bracket_markers && range_starts_with(v, a, e, bracket.as_slice()) && ends;
    first || second || third
}

/// Appends `v[from..to]` to `acc` unless it is a marker line, separating
/// it from earlier output by a newline.
fn fold_line(acc: &mut Vec<char>, v: &[char], from: usize, to: usize, bracket_markers: bool)
    requires
        from <= to <= v@.len(),
    ensures
        final(acc)@ == (if is_marker_line(v@.subrange(from as int, to as int), bracket_markers) {
            old(acc)@
        } else {
            (if old(acc)@.len() > 0 {
                old(acc)@.push('\n')
            } else {
                old(acc)@
            }) + v@.subrange(from as int, to as int)
        }),
{
    if range_is_marker_line(v, from, to, bracket_markers) {
        return;
    }
    if acc.len() > 0 {
        acc.push('\n');
    }
    let ghost before = acc@;
    let mut k: usize = from;
    while k < to
        invariant
            from <= k <= to <= v@.len(),
            acc@ == before + v@.subrange(from as int, k as int),
        decreases to - k,
    {
        acc.push(v[k]);
        assert(v@.subrange(from as int, k as int + 1) =~= v@.subrange(from as int, k as int).push(
            v@[k as int],
        ));
        k = k + 1;
    }
}

/// Removes marker lines from `text`, trims the result and falls back to a
/// fixed reply when nothing remains.
pub fn strip_marker_lines(text: &str, bracket_markers: bool) -> (r: String)
    ensures
        r@ == stripped_reply(text@, bracket_markers),
{
    let v = chars_of(text);
    let n = v.len();
    let mut acc: Vec<char> = Vec::new();
    let mut start: usize = 0;
    let mut i: usize = 0;
    while i < n
        invariant
            n == v@.len(),
            start <= i <= n,
            lines_state(v@.take(i as int)).1 == v@.subrange(start as int, i as int),
            acc@ == join_kept(lines_state(v@.take(i as int)).0, bracket_markers),
        decreases n - i,
    {
        assert(v@.take(i as int + 1).drop_last() =~= v@.take(i as int));
        if v[i] == '\n' {
            let mut end = i;
            if end > start && v[end - 1] == '\r' {
                end = end - 1;
            }
            proof {
                let cur = v@.subrange(start as int, i as int);
                assert(strip_cr(cur) =~= v@.subrange(start as int, end as int));
                let done = lines_state(v@.take(i as int)).0;
                assert(done.push(strip_cr(cur)).drop_last() =~= done);
            }
            fold_line(&mut acc, v.as_slice(), start, end, bracket_markers);
            start = i + 1;
            assert(v@.subrange(start as int, i as int + 1) =~= Seq::<char>::empty());
        } else {
            assert(v@.subrange(start as int, i as int + 1) =~= v@.subrange(
                start as int,
                i as int,
            ).push(v@[i as int]));
        }
        i = i + 1;
    }
    assert(v@.take(n as int) =~= v@);
    if start < n {
        proof {
            let done = lines_state(v@).0;
            assert(done.push(v@.subrange(start as int, n as int)).drop_last() =~= done);
        }
        fold_line(&mut acc, v.as_slice(), start, n, bracket_markers);
    }
    let (a, e) = trim_bounds(acc.as_slice(), 0, acc.len());
    assert(acc@.subrange(0, acc@.len() as int) =~= acc@);
    if a == e {
        return EMPTY_REPLY_FALLBACK.to_owned();
    }
    string_from_range(acc.as_slice(), a, e)
}

/// Strip internal `[Called tool ...]` and `[Tool ... returned: ...]` marker
/// lines from a response; these can leak into the user-visible reply when
/// a provider flattens tool calls into text and the model echoes them.
pub fn strip_internal_tool_call_text(text: &str) -> (r: String)
    ensures
        r@ == stripped_reply(text@, false),
{
    strip_marker_lines(text, false)
}

/// Instructions used when an awaiting-token payload carries none.
pub const DEFAULT_AUTH_INSTRUCTIONS: &'static str = "Please provide your API token/key.";

/// Tools whose results may put the thread into auth mode.
pub open spec fn is_auth_tool_name(name: Seq<char>) -> bool {
    name == "tool_auth"@ || name == "tool_activate"@
}

/// The extension name and instructions of an awaiting-token payload:
/// `awaiting_token` is `true` and `name` is a string.
pub open spec fn awaiting_token_of(v: JsonValue) -> Option<(Seq<char>, Seq<char>)> {
    if !json_is_true(json_get(v, "awaiting_token"@)) {
        None
    } else {
        match json_str_field(v, "name"@) {
            Some(name) => Some(
                (
                    name,
                    match json_str_field(v, "instructions"@) {
                        Some(i) => i,
                        None => DEFAULT_AUTH_INSTRUCTIONS@,
                    },
                ),
            ),
            None => None,
        }
    }
}

/// Whether a JSON payload announces that an extension awaits a token:
/// `awaiting_token` is `true`, or `type` is `"awaiting_token"`.
pub open spec fn announces_awaiting(v: JsonValue) -> bool {
    json_is_true(json_get(v, "awaiting_token"@)) || json_str_field(v, "type"@) == Some(
        "awaiting_token"@,
    )
}

/// What `check_auth_required` reports for a tool result whose output parsed
/// as JSON to the value in `result` (`Ok(None)` when the output is not
/// JSON): the extension name (the tool name when the payload names none)
/// and the instructions.
pub open spec fn auth_required_spec<E>(tool_name: Seq<char>, result: Result<Option<JsonValue>, E>) -> Option<
    (Seq<char>, Seq<char>),
> {
    if !is_auth_tool_name(tool_name) {
        None
    } else {
        match result {
            Ok(Some(v)) => if announces_awaiting(v) {
                Some(
                    (
                        match json_str_field(v, "name"@) {
                            Some(n) => n,
                            None => tool_name,
                        },
                        match json_str_field(v, "instructions"@) {
                            Some(i) => i,
                            None => DEFAULT_AUTH_INSTRUCTIONS@,
                        },
                    ),
                )
            } else {
                None
            },
            _ => None,
        }
    }
}

/// A tool result with its output parsed as JSON (`Ok(None)` when the
/// output is not JSON).
pub open spec fn result_json<E>(result: Result<String, E>) -> Result<Option<JsonValue>, E> {
    match result {
        Ok(o) => Ok(parsed_json(o@)),
        Err(e) => Err(e),
    }
}

/// Pair of strings taken by their characters.
pub open spec fn pair_chars(p: Option<(String, String)>) -> Option<(Seq<char>, Seq<char>)> {
    match p {
        Some((a, b)) => Some((a@, b@)),
        None => None,
    }
}

/// Whether `name` is a tool whose result may put the thread into auth mode.
pub fn is_auth_tool(name: &str) -> (b: bool)
    ensures
        b == is_auth_tool_name(name@),
{
    str_eq(name, "tool_auth") || str_eq(name, "tool_activate")
}

/// Extension name and instructions of an awaiting-token payload.
pub fn awaiting_token(v: &JsonValue) -> (r: Option<(String, String)>)
    ensures
        pair_chars(r) == awaiting_token_of(*v),
{
    let awaiting = match v.get("awaiting_token") {
        Some(x) => x.is_true(),
        None => false,
    };
    if !awaiting {
        return None;
    }
    let name = match get_str(v, "name") {
        Some(n) => n,
        None => return None,
    };
    let instructions = match get_str(v, "instructions") {
        Some(i) => i,
        None => DEFAULT_AUTH_INSTRUCTIONS.to_owned(),
    };
    Some((name, instructions))
}

/// Check if a tool_auth/tool_activate result indicates the extension is
/// awaiting a token.
///
/// Returns `Some((extension_name, instructions))` when the output is JSON
/// with `awaiting_token: true` or `type: "awaiting_token"`; the extension
/// name falls back to the tool name.
pub fn check_auth_required<E>(tool_name: &str, result: &Result<String, E>) -> (r: Option<
    (String, String),
>)
    ensures
        pair_chars(r) == auth_required_spec(tool_name@, result_json(*result)),
{
    if !is_auth_tool(tool_name) {
        return None;
    }
    let output = match result {
        Ok(o) => o,
        Err(_) => return None,
    };
    let parsed = parse_json(output.as_str());
    let v = match &parsed {
        Some(v) => v,
        None => return None,
    };
    proof {
        lemma_parsed_json(output@, *v);
        let w = parsed_json(output@)->0;
        lemma_same_content_fields(*v, w, "awaiting_token"@);
        lemma_same_content_fields(*v, w, "type"@);
        lemma_same_content_fields(*v, w, "name"@);
        lemma_same_content_fields(*v, w, "instructions"@);
    }
    let by_flag = match v.get("awaiting_token") {
        Some(x) => x.is_true(),
        None => false,
    };
    let by_type = match get_str(v, "type") {
        Some(t) => str_eq(t.as_str(), "awaiting_token"),
        None => false,
    };
    if !by_flag && !by_type {
        return None;
    }
    let name = match get_str(v, "name") {
        Some(n) => n,
        None => tool_name.to_owned(),
    };
    let instructions = match get_str(v, "instructions") {
        Some(i) => i,
        None => DEFAULT_AUTH_INSTRUCTIONS.to_owned(),
    };
    Some((name, instructions))
}

/// Auth and setup URLs of a tool_auth result.
#[derive(Debug)]
pub struct ParsedAuthData {
    pub auth_url: Option<String>,
    pub setup_url: Option<String>,
}

/// The string member `key` of a successful JSON result.
pub open spec fn result_str_field<E>(result: Result<Option<JsonValue>, E>, key: Seq<char>) -> Option<
    Seq<char>,
> {
    match result {
        Ok(Some(v)) => json_str_field(v, key),
        _ => None,
    }
}

/// Extract `auth_url` and `setup_url` from a tool_auth result whose
/// output is JSON.
pub fn parse_auth_result<E>(result: &Result<String, E>) -> (r: ParsedAuthData)
    ensures
        crate::llm::opt_chars(r.auth_url) == result_str_field(result_json(*result), "auth_url"@),
        crate::llm::opt_chars(r.setup_url) == result_str_field(result_json(*result), "setup_url"@),
{
    let output = match result {
        Ok(o) => o,
        Err(_) => return ParsedAuthData { auth_url: None, setup_url: None },
    };
    match parse_json(output.as_str()) {
        Some(v) => {
            proof {
                lemma_parsed_json(output@, v);
                let w = parsed_json(output@)->0;
                lemma_same_content_fields(v, w, "auth_url"@);
                lemma_same_content_fields(v, w, "setup_url"@);
            }
            ParsedAuthData { auth_url: get_str(&v, "auth_url"), setup_url: get_str(&v, "setup_url") }
        },
        None => ParsedAuthData { auth_url: None, setup_url: None },
    }
}

} // verus!
