//! The `Task` tool: what its arguments ask for, and whether a subagent is started.

use crate::json::{json_of, text_member, Json};
use crate::text::{owned, text_view};
use serde_json::Value;
use vstd::prelude::*;
use vstd::string::*;

verus! {

/// The arguments of the `Task` tool. Callers name them in one of two ways: `agent`,
/// `task` and `context`, or `subagent_type`, `description` and `prompt`.
#[derive(Debug, PartialEq, Eq)]
pub struct TaskArguments {
    pub agent: Option<String>,
    pub task: Option<String>,
    pub context: Option<String>,
    pub description: Option<String>,
    pub prompt: Option<String>,
    pub subagent_type: Option<String>,
}

/// The model of [`TaskArguments`].
pub struct TaskArgumentsView {
    pub agent: Option<Seq<char>>,
    pub task: Option<Seq<char>>,
    pub context: Option<Seq<char>>,
    pub description: Option<Seq<char>>,
    pub prompt: Option<Seq<char>>,
    pub subagent_type: Option<Seq<char>>,
}

impl View for TaskArguments {
    type V = TaskArgumentsView;

    open spec fn view(&self) -> TaskArgumentsView {
        TaskArgumentsView {
            agent: text_view(self.agent),
            task: text_view(self.task),
            context: text_view(self.context),
            description: text_view(self.description),
            prompt: text_view(self.prompt),
            subagent_type: text_view(self.subagent_type),
        }
    }
}

/// What a subagent is asked to do.
#[derive(Debug, PartialEq, Eq)]
pub struct Delegation {
    pub description: String,
    pub prompt: String,
    pub subagent_type: String,
}

/// The model of a [`Delegation`].
pub struct DelegationView {
    pub description: Seq<char>,
    pub prompt: Seq<char>,
    pub subagent_type: Seq<char>,
}

impl View for Delegation {
    type V = DelegationView;

    open spec fn view(&self) -> DelegationView {
        DelegationView {
            description: self.description@,
            prompt: self.prompt@,
            subagent_type: self.subagent_type@,
        }
    }
}

/// The first of two optional values that is there, else the default.
pub open spec fn first_of<T>(first: Option<T>, second: Option<T>, default: T) -> T {
    match first {
        Some(value) => value,
        None => match second {
            Some(value) => value,
            None => default,
        },
    }
}

/// Instructions with the context, where there is one, after them.
pub open spec fn with_context(instructions: Seq<char>, context: Option<Seq<char>>) -> Seq<char> {
    match context {
        Some(text) => instructions + "\n\nContext: "@ + text,
        None => instructions,
    }
}

impl Json {
    /// A document read as the arguments of the `Task` tool.
    pub open spec fn task_arguments(self) -> TaskArgumentsView {
        TaskArgumentsView {
            agent: self.text_member("agent"@),
            task: self.text_member("task"@),
            context: self.text_member("context"@),
            description: self.text_member("description"@),
            prompt: self.text_member("prompt"@),
            subagent_type: self.text_member("subagent_type"@),
        }
    }
}

impl TaskArgumentsView {
    /// What the arguments ask for. A missing description or kind of subagent is
    /// taken from the agent's name, a missing prompt from the task.
    pub open spec fn delegation(self) -> DelegationView {
        DelegationView {
            description: first_of(self.description, self.agent, "Subagent task"@),
            prompt: if self.prompt is None && self.task is None {
                Seq::empty()
            } else {
                with_context(first_of(self.prompt, self.task, Seq::empty()), self.context)
            },
            subagent_type: first_of(self.subagent_type, self.agent, "code"@),
        }
    }
}

/// Copies the first of two optional strings that is there, else the default.
fn first_text(first: &Option<String>, second: &Option<String>, default: &str) -> (text: String)
    ensures
        text@ == first_of(text_view(*first), text_view(*second), default@),
{
    match first {
        Some(value) => value.clone(),
        None => match second {
            Some(value) => value.clone(),
            None => default.to_string(),
        },
    }
}

impl TaskArguments {
    /// Reads the arguments of the `Task` tool. What is missing or is no string counts
    /// as not given.
    pub fn read(arguments: &Value) -> (read: TaskArguments)
        ensures
            read@ == json_of(*arguments).task_arguments(),
    {
        TaskArguments {
            agent: owned(text_member(arguments, "agent")),
            task: owned(text_member(arguments, "task")),
            context: owned(text_member(arguments, "context")),
            description: owned(text_member(arguments, "description")),
            prompt: owned(text_member(arguments, "prompt")),
            subagent_type: owned(text_member(arguments, "subagent_type")),
        }
    }

    /// Works out what the arguments ask for.
    pub fn delegation(&self) -> (delegation: Delegation)
        ensures
            delegation@ == self@.delegation(),
    {
        let prompt = if self.prompt.is_none() && self.task.is_none() {
            String::new()
        } else {
            let mut text = first_text(&self.prompt, &self.task, "");
            if let Some(context) = &self.context {
                text.append("\n\nContext: ");
                text.append(context.as_str());
            }
            text
        };
        Delegation {
            description: first_text(&self.description, &self.agent, "Subagent task"),
            prompt,
            subagent_type: first_text(&self.subagent_type, &self.agent, "code"),
        }
    }
}

/// The two ways to name the arguments say the same: an agent with a task and a context
/// is a kind of subagent and a description of that name, with the prompt written out.
pub proof fn law_both_formats_agree(
    agent: Seq<char>,
    task: Seq<char>,
    context: Option<Seq<char>>,
)
    ensures
        (TaskArgumentsView {
            agent: Some(agent),
            task: Some(task),
            context,
            description: None,
            prompt: None,
            subagent_type: None,
        }).delegation() == (TaskArgumentsView {
            agent: None,
            task: None,
            context: None,
            description: Some(agent),
            prompt: Some(with_context(task, context)),
            subagent_type: Some(agent),
        }).delegation(),
{
}

/// Where the arguments of both ways are given, `prompt` goes before `task`, and
/// `description` and `subagent_type` go before `agent`.
pub proof fn law_explicit_arguments_win(
    arguments: TaskArgumentsView,
    agent: Option<Seq<char>>,
    task: Option<Seq<char>>,
)
    ensures
        arguments.prompt is Some ==> (TaskArgumentsView { task, ..arguments }).delegation()
            == arguments.delegation(),
        arguments.description is Some && arguments.subagent_type is Some ==> (TaskArgumentsView {
            agent,
            ..arguments
        }).delegation() == arguments.delegation(),
{
}

/// The prompt is empty exactly where no instructions are given, or empty ones without
/// a context. A context alone is no prompt.
pub proof fn law_prompt_is_empty_without_instructions(arguments: TaskArgumentsView)
    ensures
        arguments.delegation().prompt.len() == 0 <==> {
            ||| arguments.prompt is None && arguments.task is None
            ||| first_of(arguments.prompt, arguments.task, Seq::empty()).len() == 0
                && arguments.context is None
        },
{
    reveal_strlit("\n\nContext: ");
}

} // verus!
