//! Post-flight decisions for tool results: auth barriers, image sentinels,
//! failure messages and previews.

use vstd::prelude::*;

use crate::dispatcher::types::{
    awaiting_token, awaiting_token_of, is_auth_tool, is_auth_tool_name, pair_chars, result_json,
};
use crate::json::{
    get_str, json_get, json_str_field, lemma_parsed_json, lemma_same_content_fields, parse_json,
    parsed_json, JsonValue,
};
use crate::llm::opt_chars;
use crate::text::{chars_of, push_str, range_starts_with, starts_with, str_eq};

verus! {

/// Parsed auth-barrier fields for emitting an auth-required status.
#[derive(Debug)]
pub struct AuthBarrierData {
    pub extension_name: String,
    pub instructions: String,
    pub auth_url: Option<String>,
    pub setup_url: Option<String>,
}

/// Whether a tool is an auth barrier (`tool_auth` or `tool_activate`),
/// which runs alone and may stop the batch.
pub fn is_auth_barrier_tool(tool_name: &str) -> (b: bool)
    ensures
        b == is_auth_tool_name(tool_name@),
{
    is_auth_tool(tool_name)
}

/// Auth-barrier details of a result of an auth tool whose payload has
/// `awaiting_token: true` and a string `name`.
pub open spec fn auth_barrier_spec<E>(tool_name: Seq<char>, result: Result<Option<JsonValue>, E>) -> Option<
    (Seq<char>, Seq<char>, Option<Seq<char>>, Option<Seq<char>>),
> {
    if !is_auth_tool_name(tool_name) {
        None
    } else {
        match result {
            Ok(Some(v)) => match awaiting_token_of(v) {
                Some((name, instructions)) => Some(
                    (
                        name,
                        instructions,
                        json_str_field(v, "auth_url"@),
                        json_str_field(v, "setup_url"@),
                    ),
                ),
                None => None,
            },
            _ => None,
        }
    }
}

/// Content of parsed auth-barrier data.
pub open spec fn barrier_chars(d: Option<AuthBarrierData>) -> Option<
    (Seq<char>, Seq<char>, Option<Seq<char>>, Option<Seq<char>>),
> {
    match d {
        Some(x) => Some(
            (x.extension_name@, x.instructions@, opt_chars(x.auth_url), opt_chars(x.setup_url)),
        ),
        None => None,
    }
}

/// Auth-barrier details of an awaiting-token payload.
fn barrier_of_json(v: &JsonValue) -> (r: Option<AuthBarrierData>)
    ensures
        barrier_chars(r) == match awaiting_token_of(*v) {
            Some((name, instructions)) => Some(
                (
                    name,
                    instructions,
                    json_str_field(*v, "auth_url"@),
                    json_str_field(*v, "setup_url"@),
                ),
            ),
            None => None,
        },
{
    match awaiting_token(v) {
        Some((extension_name, instructions)) => Some(
            AuthBarrierData {
                extension_name,
                instructions,
                auth_url: get_str(v, "auth_url"),
                setup_url: get_str(v, "setup_url"),
            },
        ),
        None => None,
    }
}

/// Parse auth-barrier details from a tool_auth/tool_activate result: its
/// output must be JSON with `awaiting_token: true` and a string `name`.
pub fn parse_auth_barrier<E>(tool_name: &str, result: &Result<String, E>) -> (r: Option<
    AuthBarrierData,
>)
    ensures
        barrier_chars(r) == auth_barrier_spec(tool_name@, result_json(*result)),
{
    if !is_auth_barrier_tool(tool_name) {
        return None;
    }
    let output = match result {
        Ok(o) => o,
        Err(_) => return None,
    };
    let parsed = parse_json(output.as_str());
    let v = match &parsed {
        Some(v) => v,
        None => return None,
    };
    proof {
        lemma_parsed_json(output@, *v);
        let w = parsed_json(output@)->0;
        lemma_same_content_fields(*v, w, "awaiting_token"@);
        lemma_same_content_fields(*v, w, "name"@);
        lemma_same_content_fields(*v, w, "instructions"@);
        lemma_same_content_fields(*v, w, "auth_url"@);
        lemma_same_content_fields(*v, w, "setup_url"@);
    }
    barrier_of_json(v)
}

/// Extension name and instructions of an auth-barrier result.
pub fn check_auth_required<E>(tool_name: &str, result: &Result<String, E>) -> (r: Option<
    (String, String),
>)
    ensures
        pair_chars(r) == match auth_barrier_spec(tool_name@, result_json(*result)) {
            Some((n, i, _, _)) => Some((n, i)),
            None => None,
        },
{
    match parse_auth_barrier(tool_name, result) {
        Some(d) => Some((d.extension_name, d.instructions)),
        None => None,
    }
}

/// Tools that emit image sentinels.
pub open spec fn is_image_tool_name(name: Seq<char>) -> bool {
    name == "image_generate"@ || name == "image_edit"@
}

/// Whether a JSON payload is an image-generation sentinel.
pub open spec fn is_image_sentinel_payload(v: JsonValue) -> bool {
    json_str_field(v, "type"@) == Some("image_generated"@)
}

/// What an image-generation sentinel asks to broadcast.
#[derive(Debug)]
pub enum ImageSentinel {
    /// The output is not an image sentinel.
    NotSentinel,
    /// The output is a sentinel; `data_url` is present only when it is a
    /// `data:image/` URL, in which case it is broadcast with `path`.
    Sentinel { data_url: Option<String>, path: Option<String> },
}

/// Classifies a parsed tool output as an image sentinel.
fn image_sentinel_of_json(tool_name: &str, parsed: &Option<JsonValue>) -> (r: ImageSentinel)
    ensures
        r is NotSentinel <==> !(is_image_tool_name(tool_name@) && parsed is Some
            && is_image_sentinel_payload(parsed->0)),
        r matches ImageSentinel::Sentinel { data_url, path } ==> ({
            let v = parsed->0;
            &&& opt_chars(path) == json_str_field(v, "path"@)
            &&& opt_chars(data_url) == match json_str_field(v, "data"@) {
                Some(d) => if starts_with(d, "data:image/"@) {
                    Some(d)
                } else {
                    None
                },
                None => None,
            }
        }),
{
    if !(str_eq(tool_name, "image_generate") || str_eq(tool_name, "image_edit")) {
        return ImageSentinel::NotSentinel;
    }
    let v = match parsed {
        Some(v) => v,
        None => return ImageSentinel::NotSentinel,
    };
    let is_sentinel = match get_str(v, "type") {
        Some(t) => str_eq(t.as_str(), "image_generated"),
        None => false,
    };
    if !is_sentinel {
        return ImageSentinel::NotSentinel;
    }
    let data_url = match get_str(v, "data") {
        Some(d) => {
            let dv = chars_of(d.as_str());
            let prefix = chars_of("data:image/");
            let ok = range_starts_with(dv.as_slice(), 0, dv.len(), prefix.as_slice());
            assert(dv@.subrange(0, dv@.len() as int) =~= dv@);
            if ok {
                Some(d)
            } else {
                None
            }
        },
        None => None,
    };
    ImageSentinel::Sentinel { data_url, path: get_str(v, "path") }
}

/// The image-sentinel reading of a tool output `output` of tool
/// `tool_name`: a sentinel when the tool generates images and the output is
/// JSON with `type: "image_generated"`.
pub open spec fn image_sentinel_spec(tool_name: Seq<char>, output: Seq<char>, r: ImageSentinel) -> bool {
    let parsed = parsed_json(output);
    &&& (r is NotSentinel <==> !(is_image_tool_name(tool_name) && parsed is Some
        && is_image_sentinel_payload(parsed->0)))
    &&& (r matches ImageSentinel::Sentinel { data_url, path } ==> ({
        let v = parsed->0;
        &&& opt_chars(path) == json_str_field(v, "path"@)
        &&& opt_chars(data_url) == match json_str_field(v, "data"@) {
            Some(d) => if starts_with(d, "data:image/"@) {
                Some(d)
            } else {
                None
            },
            None => None,
        }
    }))
}

/// Classifies a tool output as an image sentinel and extracts the
/// broadcastable data URL (only a `data:image/` URL) and the file path.
pub fn image_sentinel(tool_name: &str, output: &str) -> (r: ImageSentinel)
    ensures
        image_sentinel_spec(tool_name@, output@, r),
{
    let parsed = parse_json(output);
    proof {
        if parsed is Some {
            let v = parsed->0;
            lemma_parsed_json(output@, v);
            let w = parsed_json(output@)->0;
            lemma_same_content_fields(v, w, "type"@);
            lemma_same_content_fields(v, w, "data"@);
            lemma_same_content_fields(v, w, "path"@);
        }
    }
    image_sentinel_of_json(tool_name, &parsed)
}

/// ` key=value` when `value` is present.
pub open spec fn tagged(key: Seq<char>, value: Option<Seq<char>>) -> Seq<char> {
    match value {
        Some(x) => " "@ + key + "="@ + x,
        None => Seq::empty(),
    }
}

/// One-line summary of an image sentinel payload: `[Image generated]`
/// followed by `type=`, `size=` and `path=` (or `source=`) when present.
pub open spec fn image_summary_of(v: JsonValue) -> Seq<char> {
    "[Image generated]"@ + tagged("type"@, json_str_field(v, "media_type"@)) + tagged(
        "size"@,
        json_str_field(v, "size"@),
    ) + match json_str_field(v, "path"@) {
        Some(p) => tagged("path"@, Some(p)),
        None => tagged("source"@, json_str_field(v, "source_path"@)),
    }
}

/// Appends ` key=value` to `s`.
fn push_tag(s: &mut String, key: &str, value: &String)
    ensures
        final(s)@ == old(s)@ + tagged(key@, Some(value@)),
{
    push_str(s, " ");
    push_str(s, key);
    push_str(s, "=");
    push_str(s, value.as_str());
}

/// Summary of a parsed image sentinel, or `None` when it is not one.
fn summary_of_json(parsed: &Option<JsonValue>) -> (r: Option<String>)
    ensures
        opt_chars(r) == match parsed {
            Some(v) => if is_image_sentinel_payload(*v) {
                Some(image_summary_of(*v))
            } else {
                None
            },
            None => None,
        },
{
    let v = match parsed {
        Some(v) => v,
        None => return None,
    };
    let is_sentinel = match get_str(v, "type") {
        Some(t) => str_eq(t.as_str(), "image_generated"),
        None => false,
    };
    if !is_sentinel {
        return None;
    }
    let mut out = "[Image generated]".to_owned();
    let ghost start = out@;
    if let Some(t) = get_str(v, "media_type") {
        push_tag(&mut out, "type", &t);
    }
    let ghost after_type = out@;
    if let Some(z) = get_str(v, "size") {
        push_tag(&mut out, "size", &z);
    }
    let ghost after_size = out@;
    match get_str(v, "path") {
        Some(p) => push_tag(&mut out, "path", &p),
        None => if let Some(src) = get_str(v, "source_path") {
            push_tag(&mut out, "source", &src);
        },
    }
    proof {
        let tail = match json_str_field(*v, "path"@) {
            Some(p) => tagged("path"@, Some(p)),
            None => tagged("source"@, json_str_field(*v, "source_path"@)),
        };
        assert(after_type =~= start + tagged("type"@, json_str_field(*v, "media_type"@)));
        assert(after_size =~= after_type + tagged("size"@, json_str_field(*v, "size"@)));
        assert(out@ =~= after_size + tail);
        assert(out@ =~= image_summary_of(*v));
    }
    Some(out)
}

/// Summary of an image sentinel output for the model's context, or `None`
/// when the output is not a sentinel.
pub fn image_sentinel_summary(output: &str) -> (r: Option<String>)
    ensures
        opt_chars(r) == match parsed_json(output@) {
            Some(v) => if is_image_sentinel_payload(v) {
                Some(image_summary_of(v))
            } else {
                None
            },
            None => None,
        },
{
    let parsed = parse_json(output);
    proof {
        if parsed is Some {
            let v = parsed->0;
            lemma_parsed_json(output@, v);
            let w = parsed_json(output@)->0;
            lemma_same_content_fields(v, w, "type"@);
            lemma_same_content_fields(v, w, "media_type"@);
            lemma_same_content_fields(v, w, "size"@);
            lemma_same_content_fields(v, w, "path"@);
            lemma_same_content_fields(v, w, "source_path"@);
        }
    }
    summary_of_json(&parsed)
}

/// Message folded into the context when a tool fails: `Tool '<name>' failed: <error>`.
pub open spec fn tool_failure_text(name: Seq<char>, error: Seq<char>) -> Seq<char> {
    "Tool '"@ + name + "' failed: "@ + error
}

/// Formats the context message for a failed tool.
pub fn tool_failure_message(name: &str, error: &str) -> (r: String)
    ensures
        r@ == tool_failure_text(name@, error@),
{
    let mut s = "Tool '".to_owned();
    push_str(&mut s, name);
    push_str(&mut s, "' failed: ");
    push_str(&mut s, error);
    s
}

/// Whether a result preview is sent to the channel: never for image
/// sentinels (they are broadcast separately) nor for empty previews.
pub fn should_send_preview(is_image_sentinel: bool, preview: &str) -> (b: bool)
    ensures
        b == (!is_image_sentinel && preview@.len() > 0),
{
    !is_image_sentinel && !preview.is_empty()
}

/// What postflight folds into the context for a runnable tool, before the
/// safety layer sanitizes and wraps it.
#[derive(Debug)]
pub struct PostflightText {
    /// The text to sanitize and fold back.
    pub text: String,
    /// Whether the tool failed.
    pub is_error: bool,
    /// Whether the output is an image sentinel (broadcast separately; no
    /// preview is sent for it).
    pub is_image_sentinel: bool,
}

/// The text folded back for a tool result: for a failure the failure
/// message; for an image sentinel its summary (`[Image generated]` when it
/// has none); otherwise the output itself.
pub open spec fn postflight_text_spec(name: Seq<char>, result: Result<Seq<char>, Seq<char>>, parsed: Option<
    JsonValue,
>) -> (Seq<char>, bool, bool) {
    match result {
        Err(e) => (tool_failure_text(name, e), true, false),
        Ok(output) => if is_image_tool_name(name) && parsed is Some && is_image_sentinel_payload(
            parsed->0,
        ) {
            (image_summary_of(parsed->0), false, true)
        } else {
            (output, false, false)
        },
    }
}

/// A tool output parsed as JSON; `None` for a failure or non-JSON output.
pub open spec fn output_json(result: Result<String, String>) -> Option<JsonValue> {
    match result {
        Ok(o) => parsed_json(o@),
        Err(_) => None,
    }
}

/// A tool result taken by its characters.
pub open spec fn result_chars(result: Result<String, String>) -> Result<Seq<char>, Seq<char>> {
    match result {
        Ok(o) => Ok(o@),
        Err(e) => Err(e@),
    }
}

/// Decide what a runnable tool's result contributes to the context.
pub fn postflight_text(name: &str, result: &Result<String, String>) -> (r: PostflightText)
    ensures
        (r.text@, r.is_error, r.is_image_sentinel) == postflight_text_spec(
            name@,
            result_chars(*result),
            output_json(*result),
        ),
{
    match result {
        Err(e) => PostflightText {
            text: tool_failure_message(name, e.as_str()),
            is_error: true,
            is_image_sentinel: false,
        },
        Ok(output) => {
            let sentinel = image_sentinel(name, output.as_str());
            match sentinel {
                ImageSentinel::Sentinel { .. } => {
                    let summary = match image_sentinel_summary(output.as_str()) {
                        Some(x) => x,
                        None => "[Image generated]".to_owned(),
                    };
                    PostflightText { text: summary, is_error: false, is_image_sentinel: true }
                },
                ImageSentinel::NotSentinel => PostflightText {
                    text: output.clone(),
                    is_error: false,
                    is_image_sentinel: false,
                },
            }
        },
    }
}

} // verus!
