//! Laws of views: what the models of messages, calls, events and actions hold of the values
//! themselves, field by field.

use crate::chat::{Message, MessageView, RequestedCall, ToolCall, ToolDefinition};
use crate::json::json_of;
use crate::protocol::{
    Action, ActionView, ClientOutcome, ClientOutcomeView, Event, EventView, ResponseOutcome,
    ResponseOutcomeView, StreamOutcome, StreamOutcomeView, ToolEvent, ToolEventView,
};
use crate::report::{ToolOutcome, ToolOutcomeView};
use crate::run::ToolReply;
use crate::spawn::{PendingToolResult, Spawn, SpawnView, SubagentTaskDisplay};
use crate::task::{Delegation, TaskArguments};
use crate::text::{text_view, views};
use crate::todo::{Todo, TodoEntry};
use vstd::prelude::*;

verus! {

/// Whether `models` are the models of all items, in order.
pub open spec fn models_all<T: View>(models: Seq<T::V>, items: Seq<T>) -> bool {
    &&& models.len() == items.len()
    &&& forall|i: int| 0 <= i < items.len() ==> #[trigger] models[i] == items[i]@
}

/// Whether `model` is the model of an optional string.
pub open spec fn models_text(model: Option<Seq<char>>, text: Option<String>) -> bool {
    match text {
        Some(chars) => model == Some(chars@),
        None => model is None,
    }
}

/// The model of a tool call, a requested call and a tool definition holds every field.
pub proof fn law_calls_are_modelled_whole(
    call: ToolCall,
    requested: RequestedCall,
    tool: ToolDefinition,
)
    ensures
        call@.id == call.id@,
        call@.call_type == call.call_type@,
        call@.name == call.function.name@,
        call@.arguments == call.function.arguments@,
        requested@.id == requested.id@,
        requested@.name == requested.name@,
        requested@.arguments == json_of(requested.arguments),
        tool@.name == tool.name@,
        tool@.description == tool.description@,
        tool@.parameters == json_of(tool.parameters),
{
}

/// The model of a message is of its kind, and holds the whole message.
pub proof fn law_messages_are_modelled_whole(message: Message, reply: ToolReply)
    ensures
        match message {
            Message::System(text) => message@ == MessageView::System(text@),
            Message::User(text) => message@ == MessageView::User(text@),
            Message::Assistant { text, tool_calls } => {
                &&& message@ matches MessageView::Assistant { text: chars, tool_calls: models }
                &&& chars == text@
                &&& models_all(models, tool_calls@)
            },
            Message::ToolResult { call_id, output } => message@ == (MessageView::ToolResult {
                call_id: call_id@,
                output: output@,
            }),
        },
        reply@.call_id == reply.call_id@,
        reply@.output == reply.output@,
{
}

/// The model of what a run tells the user interface is of its kind, and holds every field.
pub proof fn law_notices_are_modelled_whole(notice: ToolEvent, todo: Todo, entry: TodoEntry)
    ensures
        match notice {
            ToolEvent::Started { id, name } => notice@ == (ToolEventView::Started {
                id: id@,
                name: name@,
            }),
            ToolEvent::TodoUpdated { session_id, todos } => {
                &&& notice@ matches ToolEventView::TodoUpdated { session_id: chars, todos: models }
                &&& chars == session_id@
                &&& models_all(models, todos@)
            },
            ToolEvent::Failed { id, name, error } => notice@ == (ToolEventView::Failed {
                id: id@,
                name: name@,
                error: error@,
            }),
            ToolEvent::Completed { id, name, output, success } => notice@
                == (ToolEventView::Completed { id: id@, name: name@, output: output@, success }),
        },
        todo@.content == todo.content@,
        todo@.status == todo.status@,
        models_text(entry@.content, entry.content),
        models_text(entry@.status, entry.status),
{
}

/// The model of an action is of its kind, and holds what it asks for.
pub proof fn law_actions_are_modelled_whole(action: Action)
    ensures
        match action {
            Action::Announce(notice) => action@ == ActionView::Announce(notice@),
            Action::Prepare => action@ == ActionView::Prepare,
            Action::AcquireClient => action@ == ActionView::AcquireClient,
            Action::Request { timeout_secs } => action@ == (ActionView::Request { timeout_secs }),
            Action::NextEvent { timeout_secs } => action@ == (ActionView::NextEvent {
                timeout_secs,
            }),
            Action::ExecuteTool => action@ == ActionView::ExecuteTool,
            Action::Finish(notice) => action@ == ActionView::Finish(notice@),
            Action::Stop => action@ == ActionView::Stop,
        },
{
}

/// The model of an event is of its kind, and holds all that the event says.
pub proof fn law_events_are_modelled_whole(event: Event)
    ensures
        match event {
            Event::Announced { delivered } => event@ == (EventView::Announced { delivered }),
            Event::Prepared { definitions, model } => {
                &&& event@ matches EventView::Prepared { definitions: models, model: chars }
                &&& models_all(models, definitions@)
                &&& chars == model@
            },
            Event::Client(outcome) => event@ == EventView::Client(outcome@),
            Event::Response(outcome) => event@ == EventView::Response(outcome@),
            Event::Stream(outcome) => event@ == EventView::Stream(outcome@),
            Event::Tool(outcome) => event@ == EventView::Tool(outcome@),
        },
{
}

/// The model of an outcome is of its kind, and holds all that the outcome says.
pub proof fn law_outcomes_are_modelled_whole(
    client: ClientOutcome,
    response: ResponseOutcome,
    stream: StreamOutcome,
    tool: ToolOutcome,
)
    ensures
        client@ == match client {
            ClientOutcome::Ready => ClientOutcomeView::Ready,
            ClientOutcome::Missing => ClientOutcomeView::Missing,
            ClientOutcome::Unavailable { error } => ClientOutcomeView::Unavailable {
                error: error@,
            },
        },
        response@ == match response {
            ResponseOutcome::Opened => ResponseOutcomeView::Opened,
            ResponseOutcome::Failed { error } => ResponseOutcomeView::Failed { error: error@ },
            ResponseOutcome::TimedOut => ResponseOutcomeView::TimedOut,
        },
        stream@ == match stream {
            StreamOutcome::Delta { text } => StreamOutcomeView::Delta { text: text@ },
            StreamOutcome::ToolCall { id, name, arguments } => StreamOutcomeView::ToolCall {
                id: id@,
                name: name@,
                arguments: arguments@,
            },
            StreamOutcome::Done => StreamOutcomeView::Done,
            StreamOutcome::Error { error } => StreamOutcomeView::Error { error: error@ },
            StreamOutcome::Other => StreamOutcomeView::Other,
            StreamOutcome::Failed { error } => StreamOutcomeView::Failed { error: error@ },
            StreamOutcome::Ended => StreamOutcomeView::Ended,
            StreamOutcome::TimedOut => StreamOutcomeView::TimedOut,
        },
        tool@ == match tool {
            ToolOutcome::Finished { success, output } => ToolOutcomeView::Finished {
                success,
                output: output@,
            },
            ToolOutcome::Failed { error } => ToolOutcomeView::Failed { error: error@ },
        },
{
}

/// The model of what a call asks for, and of what becomes of it, holds every field.
pub proof fn law_delegations_are_modelled_whole(
    arguments: TaskArguments,
    delegation: Delegation,
    result: PendingToolResult,
    display: SubagentTaskDisplay,
    spawn: Spawn,
)
    ensures
        models_text(arguments@.agent, arguments.agent),
        models_text(arguments@.task, arguments.task),
        models_text(arguments@.context, arguments.context),
        models_text(arguments@.description, arguments.description),
        models_text(arguments@.prompt, arguments.prompt),
        models_text(arguments@.subagent_type, arguments.subagent_type),
        delegation@.description == delegation.description@,
        delegation@.prompt == delegation.prompt@,
        delegation@.subagent_type == delegation.subagent_type@,
        result@.id == result.id@,
        result@.name == result.name@,
        result@.output == result.output@,
        result@.success == result.success,
        display@.session_id == display.session_id@,
        display@.tool_call_id == display.tool_call_id@,
        display@.description == display.description@,
        display@.subagent_type == display.subagent_type@,
        match spawn {
            Spawn::Refused(answer) => spawn@ == SpawnView::Refused(answer@),
            Spawn::Started { display: shown, run, first_action } => spawn@ == (SpawnView::Started {
                display: shown@,
                run: run@,
                first_action: first_action@,
            }),
        },
{
}

/// The model of an optional string holds all of its characters.
pub proof fn law_strings_are_modelled_whole(text: Option<String>)
    ensures
        models_text(text_view(text), text),
{
}

/// The views of a sequence hold every item at its place.
pub proof fn law_items_are_modelled_in_order<T: View>(items: Seq<T>)
    ensures
        models_all(views(items), items),
{
}

} // verus!
