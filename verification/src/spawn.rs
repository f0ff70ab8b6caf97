//! Whether a call of the `Task` tool starts a subagent.

use crate::json::json_of;
use crate::protocol::{Action, ActionView};
use crate::report::{session_id, session_id_text};
use crate::run::{Run, RunView};
use crate::task::{Delegation, DelegationView, TaskArguments};
use serde_json::Value;
use vstd::prelude::*;

verus! {

/// A tool result that waits to be handed back to the calling model.
#[derive(Debug, PartialEq, Eq)]
pub struct PendingToolResult {
    pub id: String,
    pub name: String,
    pub output: String,
    pub success: bool,
}

/// The model of a [`PendingToolResult`].
pub struct PendingToolResultView {
    pub id: Seq<char>,
    pub name: Seq<char>,
    pub output: Seq<char>,
    pub success: bool,
}

impl View for PendingToolResult {
    type V = PendingToolResultView;

    open spec fn view(&self) -> PendingToolResultView {
        PendingToolResultView {
            id: self.id@,
            name: self.name@,
            output: self.output@,
            success: self.success,
        }
    }
}

/// What the user interface shows of a running subagent.
#[derive(Debug, PartialEq, Eq)]
pub struct SubagentTaskDisplay {
    pub session_id: String,
    pub tool_call_id: String,
    pub description: String,
    pub subagent_type: String,
}

/// The model of a [`SubagentTaskDisplay`].
pub struct SubagentTaskDisplayView {
    pub session_id: Seq<char>,
    pub tool_call_id: Seq<char>,
    pub description: Seq<char>,
    pub subagent_type: Seq<char>,
}

impl View for SubagentTaskDisplay {
    type V = SubagentTaskDisplayView;

    open spec fn view(&self) -> SubagentTaskDisplayView {
        SubagentTaskDisplayView {
            session_id: self.session_id@,
            tool_call_id: self.tool_call_id@,
            description: self.description@,
            subagent_type: self.subagent_type@,
        }
    }
}

/// What becomes of a call of the `Task` tool.
pub enum Spawn {
    /// No subagent is started; the call is answered at once.
    Refused(PendingToolResult),
    /// A subagent is started: what to show of it, its run, and what the run asks for
    /// first.
    Started { display: SubagentTaskDisplay, run: Run, first_action: Action },
}

/// The model of a [`Spawn`].
pub enum SpawnView {
    Refused(PendingToolResultView),
    Started { display: SubagentTaskDisplayView, run: RunView, first_action: ActionView },
}

impl View for Spawn {
    type V = SpawnView;

    open spec fn view(&self) -> SpawnView {
        match *self {
            Spawn::Refused(result) => SpawnView::Refused(result@),
            Spawn::Started { display, run, first_action } => SpawnView::Started {
                display: display@,
                run: run@,
                first_action: first_action@,
            },
        }
    }
}

impl Spawn {
    /// Whether the run that is started, if one is, may be driven.
    pub open spec fn is_valid(&self) -> bool {
        match *self {
            Spawn::Refused(_) => true,
            Spawn::Started { run, .. } => run.is_valid(),
        }
    }
}

/// The part of the event loop that decides on subagents: which of the services that
/// they need are there.
pub struct EventLoop {
    pub has_tool_registry: bool,
    pub has_provider_manager: bool,
}

impl EventLoop {
    /// Why a subagent with this prompt is not started, if it is not.
    pub open spec fn refusal(&self, prompt: Seq<char>) -> Option<Seq<char>> {
        if prompt.len() == 0 {
            Some(
                "Task tool requires a 'task' or 'prompt' parameter with instructions for the subagent."@,
            )
        } else if !self.has_tool_registry {
            Some("Tool registry not available for subagent."@)
        } else if !self.has_provider_manager {
            Some("Provider not configured for subagent."@)
        } else {
            None
        }
    }

    /// What becomes of a call that asks for this delegation.
    pub open spec fn spawn(&self, id: Seq<char>, delegation: DelegationView) -> SpawnView {
        match self.refusal(delegation.prompt) {
            Some(reason) => SpawnView::Refused(
                PendingToolResultView { id, name: "Task"@, output: reason, success: false },
            ),
            None => SpawnView::Started {
                display: SubagentTaskDisplayView {
                    session_id: session_id_text(id),
                    tool_call_id: id,
                    description: delegation.description,
                    subagent_type: delegation.subagent_type,
                },
                run: RunView::initial(id, delegation),
                first_action: RunView::first_action(id),
            },
        }
    }

    fn refuse(tool_call_id: String, reason: &str) -> (spawn: Spawn)
        ensures
            spawn is Refused,
            spawn@ == SpawnView::Refused(
                (PendingToolResultView {
                    id: tool_call_id@,
                    name: "Task"@,
                    output: reason@,
                    success: false,
                }),
            ),
    {
        Spawn::Refused(
            PendingToolResult {
                id: tool_call_id,
                name: "Task".to_string(),
                output: reason.to_string(),
                success: false,
            },
        )
    }

    /// Starts a subagent for a delegation, or says why not.
    pub fn delegate(&self, tool_call_id: String, delegation: Delegation) -> (spawn: Spawn)
        ensures
            spawn@ == self.spawn(tool_call_id@, delegation@),
            spawn matches Spawn::Started { run, .. } ==> run@.id == tool_call_id@
                && run@.delegation == delegation@,
            spawn.is_valid(),
    {
        if delegation.prompt.as_str().is_empty() {
            return Self::refuse(
                tool_call_id,
                "Task tool requires a 'task' or 'prompt' parameter with instructions for the subagent.",
            );
        }
        if !self.has_tool_registry {
            return Self::refuse(tool_call_id, "Tool registry not available for subagent.");
        }
        if !self.has_provider_manager {
            return Self::refuse(tool_call_id, "Provider not configured for subagent.");
        }
        let display = SubagentTaskDisplay {
            session_id: session_id(tool_call_id.as_str()),
            tool_call_id: tool_call_id.clone(),
            description: delegation.description.clone(),
            subagent_type: delegation.subagent_type.clone(),
        };
        let (run, first_action) = Run::start(tool_call_id, delegation);
        Spawn::Started { display, run, first_action }
    }

    /// Starts a subagent for a call of the `Task` tool, or says why not.
    pub fn spawn_subagent(&self, tool_call_id: String, args: &Value) -> (spawn: Spawn)
        ensures
            spawn@ == self.spawn(tool_call_id@, json_of(*args).task_arguments().delegation()),
            spawn matches Spawn::Started { run, .. } ==> run@.id == tool_call_id@
                && run@.delegation == json_of(*args).task_arguments().delegation(),
            spawn.is_valid(),
    {
        self.delegate(tool_call_id, TaskArguments::read(args).delegation())
    }
}

/// A subagent is started exactly where there is a prompt and both services are there.
/// Otherwise the call is answered at once, by a failed result of the `Task` tool under the
/// id of the call, with a reason.
pub proof fn law_calls_start_or_are_answered(
    event_loop: EventLoop,
    id: Seq<char>,
    delegation: DelegationView,
)
    ensures
        event_loop.spawn(id, delegation) is Started <==> delegation.prompt.len() > 0
            && event_loop.has_tool_registry && event_loop.has_provider_manager,
        event_loop.spawn(id, delegation) matches SpawnView::Refused(result) ==> {
            &&& result.id == id
            &&& result.name == "Task"@
            &&& !result.success
            &&& result.output.len() > 0
        },
{
    reveal_strlit(
        "Task tool requires a 'task' or 'prompt' parameter with instructions for the subagent.",
    );
    reveal_strlit("Tool registry not available for subagent.");
    reveal_strlit("Provider not configured for subagent.");
}

} // verus!
