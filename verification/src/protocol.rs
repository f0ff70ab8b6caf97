//! What a run and its driver tell each other.
//!
//! A run asks for one [`Action`] at a time; the driver performs it and reports the
//! outcome as an [`Event`].

use crate::chat::{ToolDefinition, ToolDefinitionView};
use crate::report::{ToolOutcome, ToolOutcomeView};
use crate::text::views;
use crate::todo::{Todo, TodoView};
use vstd::prelude::*;

verus! {

/// What a run tells the user interface.
#[derive(Debug, PartialEq, Eq)]
pub enum ToolEvent {
    Started { id: String, name: String },
    TodoUpdated { session_id: String, todos: Vec<Todo> },
    Failed { id: String, name: String, error: String },
    Completed { id: String, name: String, output: String, success: bool },
}

/// The model of a [`ToolEvent`].
pub enum ToolEventView {
    Started { id: Seq<char>, name: Seq<char> },
    TodoUpdated { session_id: Seq<char>, todos: Seq<TodoView> },
    Failed { id: Seq<char>, name: Seq<char>, error: Seq<char> },
    Completed { id: Seq<char>, name: Seq<char>, output: Seq<char>, success: bool },
}

impl View for ToolEvent {
    type V = ToolEventView;

    open spec fn view(&self) -> ToolEventView {
        match *self {
            ToolEvent::Started { id, name } => ToolEventView::Started { id: id@, name: name@ },
            ToolEvent::TodoUpdated { session_id, todos } => ToolEventView::TodoUpdated {
                session_id: session_id@,
                todos: views(todos@),
            },
            ToolEvent::Failed { id, name, error } => ToolEventView::Failed {
                id: id@,
                name: name@,
                error: error@,
            },
            ToolEvent::Completed { id, name, output, success } => ToolEventView::Completed {
                id: id@,
                name: name@,
                output: output@,
                success,
            },
        }
    }
}

/// What the driver of a run has to do next.
#[derive(Debug, PartialEq, Eq)]
pub enum Action {
    /// Tell the user interface, and report whether the message got through.
    Announce(ToolEvent),
    /// Fetch the tool definitions and the name of the model.
    Prepare,
    /// Get a client from the provider.
    AcquireClient,
    /// Send [`crate::run::Run::request`] and wait for the response to open.
    Request { timeout_secs: u64 },
    /// Wait for the next event of the response.
    NextEvent { timeout_secs: u64 },
    /// Execute [`crate::run::Run::current_call`].
    ExecuteTool,
    /// Tell the user interface; the run is over.
    Finish(ToolEvent),
    /// The run is over, and there is nobody to tell.
    Stop,
}

/// The model of an [`Action`].
pub enum ActionView {
    Announce(ToolEventView),
    Prepare,
    AcquireClient,
    Request { timeout_secs: u64 },
    NextEvent { timeout_secs: u64 },
    ExecuteTool,
    Finish(ToolEventView),
    Stop,
}

impl View for Action {
    type V = ActionView;

    open spec fn view(&self) -> ActionView {
        match *self {
            Action::Announce(event) => ActionView::Announce(event@),
            Action::Prepare => ActionView::Prepare,
            Action::AcquireClient => ActionView::AcquireClient,
            Action::Request { timeout_secs } => ActionView::Request { timeout_secs },
            Action::NextEvent { timeout_secs } => ActionView::NextEvent { timeout_secs },
            Action::ExecuteTool => ActionView::ExecuteTool,
            Action::Finish(event) => ActionView::Finish(event@),
            Action::Stop => ActionView::Stop,
        }
    }
}

/// Whether the provider handed out a client.
#[derive(Debug, PartialEq, Eq)]
pub enum ClientOutcome {
    Ready,
    Missing,
    Unavailable { error: String },
}

/// The model of a [`ClientOutcome`].
pub enum ClientOutcomeView {
    Ready,
    Missing,
    Unavailable { error: Seq<char> },
}

impl View for ClientOutcome {
    type V = ClientOutcomeView;

    open spec fn view(&self) -> ClientOutcomeView {
        match *self {
            ClientOutcome::Ready => ClientOutcomeView::Ready,
            ClientOutcome::Missing => ClientOutcomeView::Missing,
            ClientOutcome::Unavailable { error } => ClientOutcomeView::Unavailable {
                error: error@,
            },
        }
    }
}

/// Whether the provider opened a response.
#[derive(Debug, PartialEq, Eq)]
pub enum ResponseOutcome {
    Opened,
    Failed { error: String },
    TimedOut,
}

/// The model of a [`ResponseOutcome`].
pub enum ResponseOutcomeView {
    Opened,
    Failed { error: Seq<char> },
    TimedOut,
}

impl View for ResponseOutcome {
    type V = ResponseOutcomeView;

    open spec fn view(&self) -> ResponseOutcomeView {
        match *self {
            ResponseOutcome::Opened => ResponseOutcomeView::Opened,
            ResponseOutcome::Failed { error } => ResponseOutcomeView::Failed { error: error@ },
            ResponseOutcome::TimedOut => ResponseOutcomeView::TimedOut,
        }
    }
}

/// What the wait for the next event of a response brought.
#[derive(Debug, PartialEq, Eq)]
pub enum StreamOutcome {
    /// A piece of the model's text.
    Delta { text: String },
    /// A tool call, with its arguments as JSON text.
    ToolCall { id: String, name: String, arguments: String },
    /// The response is complete.
    Done,
    /// The model reports an error.
    Error { error: String },
    /// An event that does not matter to a run.
    Other,
    /// The stream broke.
    Failed { error: String },
    /// The stream ended without saying that the response is complete.
    Ended,
    /// Nothing came in time.
    TimedOut,
}

/// The model of a [`StreamOutcome`].
pub enum StreamOutcomeView {
    Delta { text: Seq<char> },
    ToolCall { id: Seq<char>, name: Seq<char>, arguments: Seq<char> },
    Done,
    Error { error: Seq<char> },
    Other,
    Failed { error: Seq<char> },
    Ended,
    TimedOut,
}

impl View for StreamOutcome {
    type V = StreamOutcomeView;

    open spec fn view(&self) -> StreamOutcomeView {
        match *self {
            StreamOutcome::Delta { text } => StreamOutcomeView::Delta { text: text@ },
            StreamOutcome::ToolCall { id, name, arguments } => StreamOutcomeView::ToolCall {
                id: id@,
                name: name@,
                arguments: arguments@,
            },
            StreamOutcome::Done => StreamOutcomeView::Done,
            StreamOutcome::Error { error } => StreamOutcomeView::Error { error: error@ },
            StreamOutcome::Other => StreamOutcomeView::Other,
            StreamOutcome::Failed { error } => StreamOutcomeView::Failed { error: error@ },
            StreamOutcome::Ended => StreamOutcomeView::Ended,
            StreamOutcome::TimedOut => StreamOutcomeView::TimedOut,
        }
    }
}

/// What became of an [`Action`].
#[derive(Debug, PartialEq, Eq)]
pub enum Event {
    /// Of [`Action::Announce`].
    Announced { delivered: bool },
    /// Of [`Action::Prepare`].
    Prepared { definitions: Vec<ToolDefinition>, model: String },
    /// Of [`Action::AcquireClient`].
    Client(ClientOutcome),
    /// Of [`Action::Request`].
    Response(ResponseOutcome),
    /// Of [`Action::NextEvent`].
    Stream(StreamOutcome),
    /// Of [`Action::ExecuteTool`].
    Tool(ToolOutcome),
}

/// The model of an [`Event`].
pub enum EventView {
    Announced { delivered: bool },
    Prepared { definitions: Seq<ToolDefinitionView>, model: Seq<char> },
    Client(ClientOutcomeView),
    Response(ResponseOutcomeView),
    Stream(StreamOutcomeView),
    Tool(ToolOutcomeView),
}

impl View for Event {
    type V = EventView;

    open spec fn view(&self) -> EventView {
        match *self {
            Event::Announced { delivered } => EventView::Announced { delivered },
            Event::Prepared { definitions, model } => EventView::Prepared {
                definitions: views(definitions@),
                model: model@,
            },
            Event::Client(outcome) => EventView::Client(outcome@),
            Event::Response(outcome) => EventView::Response(outcome@),
            Event::Stream(outcome) => EventView::Stream(outcome@),
            Event::Tool(outcome) => EventView::Tool(outcome@),
        }
    }
}

} // verus!
