use ironclaw::dispatcher::fold::{plan_runnable, PostflightFold};
use ironclaw::dispatcher::pipeline::{classify_tool_call, PreflightOutcome, ToolBatch};
use ironclaw::json::JsonValue;
use ironclaw::llm::{ChatMessage, Role, ToolCall};

fn call(id: &str, name: &str) -> ToolCall {
    ToolCall {
        id: id.to_string(),
        name: name.to_string(),
        arguments: JsonValue::Object(vec![]),
    }
}

fn group(calls: &Vec<ToolCall>, approval_at: Option<usize>, rejected_at: Option<usize>) -> ToolBatch {
    let mut batch = ToolBatch::new();
    while let Some(idx) = batch.next_call(calls) {
        let rejection = if Some(idx) == rejected_at {
            Some("Tool call rejected by hook: no".to_string())
        } else {
            None
        };
        let outcome = classify_tool_call(rejection, Some(idx) == approval_at);
        let tc = &calls[idx];
        batch.record(calls, call(&tc.id, &tc.name), outcome);
    }
    batch
}

#[test]
fn fold_appends_one_result_per_call_and_stops_at_auth() {
    let calls = vec![
        call("a", "echo"),
        call("b", "shell"),
        call("c", "http"),
        call("d", "tool_auth"),
        call("e", "echo"),
    ];
    let batch = group(&calls, None, Some(1));
    assert_eq!(batch.preflight.len(), 5);
    let mut messages = vec![ChatMessage::user("hi")];
    let mut fold = PostflightFold::begin(&messages);
    let results: Vec<Result<String, String>> = vec![
        Ok("out-a".to_string()),
        Ok("unused".to_string()),
        Err("boom".to_string()),
        Ok(r#"{"awaiting_token":true,"name":"ngrok","instructions":"paste token"}"#.to_string()),
        Ok("out-e".to_string()),
    ];
    let mut records = Vec::new();
    let mut stashed = Vec::new();
    let mut auth = None;
    while let Some(pos) = fold.next(&batch) {
        match &batch.preflight[pos].1 {
            PreflightOutcome::Rejected(_) => {
                let r = fold.fold_rejected(&batch, &mut messages);
                records.push((r.pf_idx, r.content, r.is_error));
            }
            PreflightOutcome::Runnable => {
                let plan = plan_runnable(&batch.preflight[pos].0.name, &results[pos]);
                let wrapped = format!("<w>{}</w>", plan.text);
                let actions =
                    fold.fold_runnable(&batch, &mut messages, &results[pos], &plan.text, &wrapped);
                records.push((actions.record.pf_idx, actions.record.content, actions.record.is_error));
                if let Some(s) = actions.stash {
                    stashed.push(s);
                }
                if let Some(a) = actions.auth {
                    auth = Some(a.extension_name);
                }
            }
        }
    }
    // Stopped right after the auth request: the last call got no result.
    assert_eq!(fold.pos, 4);
    assert_eq!(fold.deferred_auth.as_deref(), Some("paste token"));
    assert_eq!(auth.as_deref(), Some("ngrok"));
    assert_eq!(messages.len(), 5);
    for (j, id) in ["a", "b", "c", "d"].iter().enumerate() {
        let m = &messages[1 + j];
        assert_eq!(m.role, Role::Tool);
        assert_eq!(m.tool_call_id.as_deref(), Some(*id));
    }
    assert_eq!(messages[2].content, "Tool call rejected by hook: no");
    assert_eq!(messages[3].content, "<w>Tool 'http' failed: boom</w>");
    assert_eq!(records[2], (2, "<w>Tool 'http' failed: boom</w>".to_string(), true));
    assert_eq!(records[1], (1, "Tool call rejected by hook: no".to_string(), true));
    assert!(!records[0].2);
    // Failed calls are not stashed.
    assert_eq!(stashed.len(), 2);
    assert_eq!(stashed[0], "out-a");
}

#[test]
fn fold_before_approval_answers_every_earlier_call() {
    let calls = vec![call("a", "echo"), call("b", "read"), call("c", "shell"), call("d", "echo")];
    let batch = group(&calls, Some(2), None);
    assert_eq!(batch.preflight.len(), 2);
    assert_eq!(batch.approval_needed.as_ref().map(|c| c.idx), Some(2));
    let mut messages = Vec::new();
    let mut fold = PostflightFold::begin(&messages);
    while let Some(pos) = fold.next(&batch) {
        let result = Ok(format!("out-{pos}"));
        let actions = fold.fold_runnable(&batch, &mut messages, &result, "p", "w");
        assert!(actions.auth.is_none());
    }
    assert!(fold.deferred_auth.is_none());
    assert_eq!(messages.len(), 2);
    assert_eq!(messages[0].tool_call_id.as_deref(), Some("a"));
    assert_eq!(messages[1].tool_call_id.as_deref(), Some("b"));
}

#[test]
fn runnable_preview_skipped_for_image_sentinel_and_empty_text() {
    let calls = vec![call("i", "image_generate"), call("j", "echo")];
    let batch = group(&calls, None, None);
    let mut messages = Vec::new();
    let mut fold = PostflightFold::begin(&messages);
    let sentinel =
        Ok(r#"{"type":"image_generated","data":"data:image/png;base64,AA","path":"/tmp/x.png"}"#.to_string());
    let plan = plan_runnable("image_generate", &sentinel);
    assert_eq!(plan.text, "[Image generated] path=/tmp/x.png");
    assert_eq!(
        plan.broadcast,
        Some(("data:image/png;base64,AA".to_string(), Some("/tmp/x.png".to_string())))
    );
    let a = fold.fold_runnable(&batch, &mut messages, &sentinel, "preview", "w");
    assert_eq!(a.preview, None);
    let a = fold.fold_runnable(&batch, &mut messages, &Ok("x".to_string()), "  a \n b ", "w");
    assert_eq!(a.preview.as_deref(), Some("a b"));
    let plan = plan_runnable("echo", &Err("nope".to_string()));
    assert_eq!(plan.text, "Tool 'echo' failed: nope");
    assert_eq!(plan.broadcast, None);
}
