//! The conversation between a subagent and its model: messages, tool definitions
//! and tool calls.

use crate::json::{arguments_or_empty, compact_text, json_of, json_parse, json_print, parse_arguments, Json};
use crate::text::{ascii_lowercase, lemma_filter_push, lemma_views_push, lowercase, same_text, views};
use serde_json::Value;
use vstd::prelude::*;
use vstd::utf8::*;

verus! {

/// The function that a tool call names, with its arguments as JSON text.
#[derive(Debug, PartialEq, Eq)]
pub struct FunctionCall {
    pub name: String,
    pub arguments: String,
}

/// A tool call as it is written into an assistant message.
#[derive(Debug, PartialEq, Eq)]
pub struct ToolCall {
    pub id: String,
    pub call_type: String,
    pub function: FunctionCall,
}

/// The model of a [`ToolCall`].
pub struct ToolCallView {
    pub id: Seq<char>,
    pub call_type: Seq<char>,
    pub name: Seq<char>,
    pub arguments: Seq<char>,
}

impl View for ToolCall {
    type V = ToolCallView;

    open spec fn view(&self) -> ToolCallView {
        ToolCallView {
            id: self.id@,
            call_type: self.call_type@,
            name: self.function.name@,
            arguments: self.function.arguments@,
        }
    }
}

impl ToolCallView {
    /// A call of the function `name`.
    pub open spec fn function(id: Seq<char>, name: Seq<char>, arguments: Seq<char>) -> ToolCallView {
        ToolCallView { id, call_type: "function"@, name, arguments }
    }
}

impl ToolCall {
    /// A call of the function `name` with the given arguments text.
    pub fn function(id: String, name: String, arguments: String) -> (call: ToolCall)
        ensures
            call@ == ToolCallView::function(id@, name@, arguments@),
    {
        ToolCall { id, call_type: "function".to_string(), function: FunctionCall { name, arguments } }
    }
}

/// One message of a conversation.
#[derive(Debug, PartialEq, Eq)]
pub enum Message {
    System(String),
    User(String),
    Assistant { text: String, tool_calls: Vec<ToolCall> },
    ToolResult { call_id: String, output: String },
}

/// The model of a [`Message`].
pub enum MessageView {
    System(Seq<char>),
    User(Seq<char>),
    Assistant { text: Seq<char>, tool_calls: Seq<ToolCallView> },
    ToolResult { call_id: Seq<char>, output: Seq<char> },
}

impl View for Message {
    type V = MessageView;

    open spec fn view(&self) -> MessageView {
        match *self {
            Message::System(text) => MessageView::System(text@),
            Message::User(text) => MessageView::User(text@),
            Message::Assistant { text, tool_calls } => MessageView::Assistant {
                text: text@,
                tool_calls: views(tool_calls@),
            },
            Message::ToolResult { call_id, output } => MessageView::ToolResult {
                call_id: call_id@,
                output: output@,
            },
        }
    }
}

/// A tool that a model may call.
#[derive(Debug, PartialEq, Eq)]
pub struct ToolDefinition {
    pub name: String,
    pub description: String,
    pub parameters: Value,
}

/// The model of a [`ToolDefinition`].
pub struct ToolDefinitionView {
    pub name: Seq<char>,
    pub description: Seq<char>,
    pub parameters: Json,
}

impl View for ToolDefinition {
    type V = ToolDefinitionView;

    open spec fn view(&self) -> ToolDefinitionView {
        ToolDefinitionView {
            name: self.name@,
            description: self.description@,
            parameters: json_of(self.parameters),
        }
    }
}

/// Whether a tool's name, in lowercase, is that of the tool that starts subagents.
pub open spec fn names_task(name: Seq<char>) -> bool {
    lowercase(name) == "task"@
}

/// Whether a lowercase tool name is that of the tool that starts subagents.
pub fn is_task_name(lowered: &str) -> (result: bool)
    ensures
        result == (lowered@ == "task"@),
{
    same_text(lowered, "task")
}

/// The tools that a subagent may use: all but the one that starts subagents, in the
/// given order.
pub open spec fn offered(definitions: Seq<ToolDefinitionView>) -> Seq<ToolDefinitionView> {
    definitions.filter(|tool: ToolDefinitionView| !names_task(tool.name))
}

/// Whether no tool is named `task` in whatever mix of ASCII upper and lower case.
pub open spec fn none_spells_task(tools: Seq<ToolDefinitionView>) -> bool {
    forall|i: int|
        0 <= i < tools.len() && is_ascii_chars((#[trigger] tools[i]).name) ==> ascii_lowercase(
            tools[i].name,
        ) != "task"@
}

/// Keeps the tools that a subagent may use.
pub fn offered_tools(definitions: Vec<ToolDefinition>) -> (tools: Vec<ToolDefinition>)
    ensures
        views(tools@) == offered(views(definitions@)),
        none_spells_task(views(tools@)),
{
    let ghost all = definitions@;
    let ghost keep = |tool: ToolDefinitionView| !names_task(tool.name);
    let mut tools: Vec<ToolDefinition> = Vec::new();
    assert(views(tools@) =~= views(all.take(0)).filter(keep)) by {
        reveal(Seq::filter);
    }
    for tool in visited: definitions
        invariant
            visited.seq() == all,
            keep == (|tool: ToolDefinitionView| !names_task(tool.name)),
            views(tools@) == views(all.take(visited.index() as int)).filter(keep),
            none_spells_task(views(tools@)),
    {
        let lowered = tool.name.to_lowercase();
        proof {
            let i = visited.index() as int;
            assert(tool == all[i]);
            assert(all.take(i + 1) =~= all.take(i).push(all[i]));
            lemma_views_push(all.take(i), all[i]);
            lemma_filter_push(views(all.take(i)), tool@, keep);
        }
        if !is_task_name(lowered.as_str()) {
            let ghost before = tools@;
            tools.push(tool);
            proof {
                lemma_views_push(before, tool);
                assert forall|k: int|
                    0 <= k < views(tools@).len() && is_ascii_chars(
                        (#[trigger] views(tools@)[k]).name,
                    ) implies ascii_lowercase(views(tools@)[k].name) != "task"@ by {
                    if k < before.len() {
                        assert(views(tools@)[k] == views(before)[k]);
                    }
                }
            }
        }
    }
    assert(all.take(all.len() as int) =~= all);
    tools
}

/// A tool call that a model asked for, with its arguments parsed.
#[derive(Debug, PartialEq, Eq)]
pub struct RequestedCall {
    pub id: String,
    pub name: String,
    pub arguments: Value,
}

/// The model of a [`RequestedCall`].
pub struct RequestedCallView {
    pub id: Seq<char>,
    pub name: Seq<char>,
    pub arguments: Json,
}

impl View for RequestedCall {
    type V = RequestedCallView;

    open spec fn view(&self) -> RequestedCallView {
        RequestedCallView { id: self.id@, name: self.name@, arguments: json_of(self.arguments) }
    }
}

impl RequestedCallView {
    /// The call that a stream event with an arguments text asks for.
    pub open spec fn parsed(id: Seq<char>, name: Seq<char>, arguments: Seq<char>) -> RequestedCallView {
        RequestedCallView { id, name, arguments: arguments_or_empty(json_parse(arguments)) }
    }

    /// The call as it is written into the assistant message.
    pub open spec fn tool_call(self) -> ToolCallView {
        ToolCallView::function(self.id, self.name, json_print(self.arguments))
    }
}

impl RequestedCall {
    /// The call that a stream event with an arguments text asks for.
    pub fn parsed(id: String, name: String, arguments: &str) -> (call: RequestedCall)
        ensures
            call@ == RequestedCallView::parsed(id@, name@, arguments@),
    {
        RequestedCall { id, name, arguments: parse_arguments(arguments) }
    }

    /// The call as it is written into the assistant message; a call without
    /// arguments is written with a pair of braces.
    pub fn tool_call(&self) -> (call: ToolCall)
        ensures
            call@ == self@.tool_call(),
            self@.arguments == Json::empty_object() ==> call@.arguments == "{}"@,
    {
        ToolCall::function(self.id.clone(), self.name.clone(), compact_text(&self.arguments))
    }
}

} // verus!
