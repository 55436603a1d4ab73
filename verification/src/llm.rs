//! Chat message model used by the dispatcher and routines.

use vstd::prelude::*;

use crate::json::{JsonValue, JsonView};

verus! {

/// Author of a chat message.
#[derive(Clone, Copy, PartialEq, Eq, Structural, Debug)]
pub enum Role {
    System,
    User,
    Assistant,
    Tool,
}

/// A tool invocation requested by the model.
#[derive(Debug)]
pub struct ToolCall {
    pub id: String,
    pub name: String,
    pub arguments: JsonValue,
}

/// Content of a tool call.
pub struct ToolCallView {
    pub id: Seq<char>,
    pub name: Seq<char>,
    pub arguments: JsonView,
}

/// A message in a conversation with the model.
#[derive(Debug)]
pub struct ChatMessage {
    pub role: Role,
    pub content: String,
    pub tool_call_id: Option<String>,
    pub name: Option<String>,
    pub tool_calls: Option<Vec<ToolCall>>,
}

/// Content of a chat message.
pub struct MessageView {
    pub role: Role,
    pub content: Seq<char>,
    pub tool_call_id: Option<Seq<char>>,
    pub name: Option<Seq<char>>,
    pub tool_calls: Option<Seq<ToolCallView>>,
}

/// Characters of an optional string.
pub open spec fn opt_chars(s: Option<String>) -> Option<Seq<char>> {
    match s {
        Some(x) => Some(x@),
        None => None,
    }
}

/// Copies an optional string.
pub fn clone_opt_string(s: &Option<String>) -> (r: Option<String>)
    ensures
        opt_chars(r) == opt_chars(*s),
{
    match s {
        Some(x) => Some(x.clone()),
        None => None,
    }
}

impl ToolCall {
    /// Content of this tool call.
    pub open spec fn model(self) -> ToolCallView {
        ToolCallView { id: self.id@, name: self.name@, arguments: self.arguments.model() }
    }

    /// A copy of this tool call with the same content.
    pub fn clone_call(&self) -> (r: ToolCall)
        ensures
            r.model() == self.model(),
    {
        ToolCall {
            id: self.id.clone(),
            name: self.name.clone(),
            arguments: self.arguments.deep_clone(),
        }
    }
}

/// Content of a sequence of tool calls.
pub open spec fn calls_model(calls: Seq<ToolCall>) -> Seq<ToolCallView> {
    calls.map_values(|c: ToolCall| c.model())
}

/// Copies a list of tool calls.
pub fn clone_calls(calls: &Vec<ToolCall>) -> (r: Vec<ToolCall>)
    ensures
        calls_model(r@) == calls_model(calls@),
{
    let mut out: Vec<ToolCall> = Vec::new();
    let n = calls.len();
    let mut i: usize = 0;
    while i < n
        invariant
            n == calls@.len(),
            i <= n,
            out@.len() == i,
            forall|k: int| 0 <= k < i ==> #[trigger] out@[k].model() == calls@[k].model(),
        decreases n - i,
    {
        out.push(calls[i].clone_call());
        i = i + 1;
    }
    assert(calls_model(out@) =~= calls_model(calls@));
    out
}

impl ChatMessage {
    /// Content of this message.
    pub open spec fn model(self) -> MessageView {
        MessageView {
            role: self.role,
            content: self.content@,
            tool_call_id: opt_chars(self.tool_call_id),
            name: opt_chars(self.name),
            tool_calls: match self.tool_calls {
                Some(calls) => Some(calls_model(calls@)),
                None => None,
            },
        }
    }

    /// A copy of this message with the same content.
    pub fn clone_message(&self) -> (r: ChatMessage)
        ensures
            r.model() == self.model(),
    {
        ChatMessage {
            role: self.role,
            content: self.content.clone(),
            tool_call_id: clone_opt_string(&self.tool_call_id),
            name: clone_opt_string(&self.name),
            tool_calls: match &self.tool_calls {
                Some(calls) => Some(clone_calls(calls)),
                None => None,
            },
        }
    }

    /// A message with the given role and text and no tool data.
    pub fn with_role(role: Role, content: &str) -> (m: ChatMessage)
        ensures
            m.model() == plain_message(role, content@),
    {
        ChatMessage {
            role,
            content: content.to_owned(),
            tool_call_id: None,
            name: None,
            tool_calls: None,
        }
    }

    /// A system message.
    pub fn system(content: &str) -> (m: ChatMessage)
        ensures
            m.model() == plain_message(Role::System, content@),
    {
        Self::with_role(Role::System, content)
    }

    /// A user message.
    pub fn user(content: &str) -> (m: ChatMessage)
        ensures
            m.model() == plain_message(Role::User, content@),
    {
        Self::with_role(Role::User, content)
    }

    /// An assistant message.
    pub fn assistant(content: &str) -> (m: ChatMessage)
        ensures
            m.model() == plain_message(Role::Assistant, content@),
    {
        Self::with_role(Role::Assistant, content)
    }

    /// The result of tool call `id` of tool `name`.
    pub fn tool_result(id: &str, name: &str, content: &str) -> (m: ChatMessage)
        ensures
            m.model() == (MessageView {
                role: Role::Tool,
                content: content@,
                tool_call_id: Some(id@),
                name: Some(name@),
                tool_calls: None,
            }),
    {
        ChatMessage {
            role: Role::Tool,
            content: content.to_owned(),
            tool_call_id: Some(id.to_owned()),
            name: Some(name.to_owned()),
            tool_calls: None,
        }
    }

    /// An assistant message that requests tool calls.
    pub fn assistant_with_tool_calls(content: Option<String>, calls: Vec<ToolCall>) -> (m:
        ChatMessage)
        ensures
            m.model() == (MessageView {
                role: Role::Assistant,
                content: match content {
                    Some(c) => c@,
                    None => Seq::empty(),
                },
                tool_call_id: None,
                name: None,
                tool_calls: Some(calls_model(calls@)),
            }),
    {
        let text = match content {
            Some(c) => c,
            None => String::new(),
        };
        ChatMessage {
            role: Role::Assistant,
            content: text,
            tool_call_id: None,
            name: None,
            tool_calls: Some(calls),
        }
    }
}

/// A message with the given role and text and no tool data.
pub open spec fn plain_message(role: Role, content: Seq<char>) -> MessageView {
    MessageView { role, content, tool_call_id: None, name: None, tool_calls: None }
}

/// Content of a sequence of messages.
pub open spec fn messages_model(ms: Seq<ChatMessage>) -> Seq<MessageView> {
    ms.map_values(|m: ChatMessage| m.model())
}

} // verus!
