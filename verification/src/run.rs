//! One run of a subagent, as a state machine.
//!
//! A run asks its driver for one [`Action`] at a time and is told the outcome as an
//! [`Event`]. [`Run::step`] decides what happens next; [`RunView::transition`] says
//! how.

use crate::chat::{
    none_spells_task, offered, offered_tools, Message, MessageView, RequestedCall, RequestedCallView,
    ToolCall, ToolDefinition, ToolDefinitionView,
};
use crate::report::{
    close_content, closing_content, report, report_text, session_id, session_id_text, system_prompt,
    system_prompt_text, ToolOutcome, ToolOutcomeView,
};
use crate::protocol::{
    Action, ActionView, ClientOutcome, ClientOutcomeView, Event, EventView, ResponseOutcome,
    ResponseOutcomeView, StreamOutcome, StreamOutcomeView, ToolEvent, ToolEventView,
};
use crate::task::{Delegation, DelegationView};
use crate::text::{lemma_views_push, views};
use crate::todo::{announced_todos, announcement};
use vstd::prelude::*;
use vstd::string::*;

verus! {

/// The most completion requests that one run makes.
pub const MAX_ITERATIONS: usize = 500;

/// The most tokens that one completion may have.
pub const MAX_TOKENS: u32 = 8192;

/// How long the provider may take to open a response.
pub const CONNECT_TIMEOUT_SECS: u64 = 120;

/// How long the provider may take between two events of a response.
pub const RESPONSE_TIMEOUT_SECS: u64 = 60;

/// What the model is told of one executed call.
pub struct ToolReply {
    pub call_id: String,
    pub output: String,
}

/// The model of a [`ToolReply`].
pub struct ToolReplyView {
    pub call_id: Seq<char>,
    pub output: Seq<char>,
}

impl View for ToolReply {
    type V = ToolReplyView;

    open spec fn view(&self) -> ToolReplyView {
        ToolReplyView { call_id: self.call_id@, output: self.output@ }
    }
}

impl ToolReplyView {
    /// The message that carries the reply.
    pub open spec fn message(self) -> MessageView {
        MessageView::ToolResult { call_id: self.call_id, output: self.output }
    }
}

/// Which event a run waits for.
#[derive(Clone, Copy, PartialEq, Eq, Structural, Debug)]
pub enum Phase {
    /// The start is being announced.
    Starting,
    /// The tool definitions and the model's name are being fetched.
    Preparing,
    /// A client is being acquired.
    Connecting,
    /// The response is being opened.
    Requesting,
    /// The response is being received.
    Streaming,
    /// A todo list is being announced.
    Announcing,
    /// A tool call is being executed.
    Executing,
    /// The run is over.
    Finished,
}

/// One run of a subagent.
pub struct Run {
    id: String,
    delegation: Delegation,
    model: String,
    tools: Vec<ToolDefinition>,
    messages: Vec<Message>,
    executed: Vec<String>,
    final_content: String,
    iteration: usize,
    content: String,
    calls: Vec<RequestedCall>,
    replies: Vec<ToolReply>,
    phase: Phase,
}

/// The model of a [`Run`].
pub struct RunView {
    /// The tool call that started the run.
    pub id: Seq<char>,
    /// What the run is asked to do.
    pub delegation: DelegationView,
    /// The name of the model.
    pub model: Seq<char>,
    /// The tools that the model may call.
    pub tools: Seq<ToolDefinitionView>,
    /// The conversation so far.
    pub messages: Seq<MessageView>,
    /// The records of all tool calls executed so far.
    pub executed: Seq<Seq<char>>,
    /// The last text of the model that was not empty.
    pub final_content: Seq<char>,
    /// The number of turns behind the current one.
    pub iteration: nat,
    /// The model's text in the current turn.
    pub content: Seq<char>,
    /// The calls that the model asks for in the current turn.
    pub calls: Seq<RequestedCallView>,
    /// The replies to the calls of the current turn that have been executed.
    pub replies: Seq<ToolReplyView>,
    /// Which event the run waits for.
    pub phase: Phase,
}

impl View for Run {
    type V = RunView;

    closed spec fn view(&self) -> RunView {
        RunView {
            id: self.id@,
            delegation: self.delegation@,
            model: self.model@,
            tools: views(self.tools@),
            messages: views(self.messages@),
            executed: views(self.executed@),
            final_content: self.final_content@,
            iteration: self.iteration as nat,
            content: self.content@,
            calls: views(self.calls@),
            replies: views(self.replies@),
            phase: self.phase,
        }
    }
}

impl RunView {
    /// A run at its start.
    pub open spec fn initial(id: Seq<char>, delegation: DelegationView) -> RunView {
        RunView {
            id,
            delegation,
            model: Seq::empty(),
            tools: Seq::empty(),
            messages: Seq::empty(),
            executed: Seq::empty(),
            final_content: Seq::empty(),
            iteration: 0,
            content: Seq::empty(),
            calls: Seq::empty(),
            replies: Seq::empty(),
            phase: Phase::Starting,
        }
    }

    /// The action that a run starts with.
    pub open spec fn first_action(id: Seq<char>) -> ActionView {
        ActionView::Announce(ToolEventView::Started { id, name: "Task"@ })
    }

    /// Whether the run is in the middle of a turn.
    pub open spec fn in_turn(self) -> bool {
        match self.phase {
            Phase::Connecting => true,
            Phase::Requesting => true,
            Phase::Streaming => true,
            Phase::Announcing => true,
            Phase::Executing => true,
            _ => false,
        }
    }

    /// Whether calls of the current turn remain to be executed.
    pub open spec fn in_calls(self) -> bool {
        self.phase == Phase::Announcing || self.phase == Phase::Executing
    }

    /// The call that is executed next.
    pub open spec fn call(self) -> RequestedCallView {
        self.calls[self.replies.len() as int]
    }

    /// What every reachable run satisfies.
    pub open spec fn well_formed(self) -> bool {
        &&& self.iteration <= MAX_ITERATIONS
        &&& self.in_turn() ==> self.iteration < MAX_ITERATIONS
        &&& self.in_calls() ==> self.replies.len() < self.calls.len()
        &&& self.phase == Phase::Preparing ==> self.iteration == 0
        &&& self.phase == Phase::Starting ==> self.iteration == 0
        &&& self.phase == Phase::Streaming ==> self.replies.len() == 0
    }

    /// Whether the run waits for this event, and can take it in.
    pub open spec fn accepts(self, event: EventView) -> bool {
        match event {
            EventView::Announced { .. } => self.phase == Phase::Starting || self.phase
                == Phase::Announcing,
            EventView::Prepared { .. } => self.phase == Phase::Preparing,
            EventView::Client(_) => self.phase == Phase::Connecting,
            EventView::Response(_) => self.phase == Phase::Requesting,
            EventView::Stream(_) => self.phase == Phase::Streaming,
            EventView::Tool(outcome) => self.phase == Phase::Executing && outcome.can_be_reported(),
        }
    }

    /// The report of a run that ends here.
    pub open spec fn report(self) -> Seq<char> {
        report_text(
            self.id,
            self.delegation.subagent_type,
            self.delegation.description,
            self.executed,
            self.final_content,
        )
    }

    /// The run ends with a failure.
    pub open spec fn fail(self, error: Seq<char>) -> (RunView, ActionView) {
        (
            RunView { phase: Phase::Finished, ..self },
            ActionView::Finish(ToolEventView::Failed { id: self.id, name: "Task"@, error }),
        )
    }

    /// The run ends with its report.
    pub open spec fn complete(self) -> (RunView, ActionView) {
        (
            RunView { phase: Phase::Finished, ..self },
            ActionView::Finish(
                ToolEventView::Completed {
                    id: self.id,
                    name: "Task"@,
                    output: self.report(),
                    success: true,
                },
            ),
        )
    }

    /// The run goes on with the next turn.
    pub open spec fn connect(self) -> (RunView, ActionView) {
        (RunView { phase: Phase::Connecting, ..self }, ActionView::AcquireClient)
    }

    /// The run waits for the next event of the response.
    pub open spec fn listen(self) -> (RunView, ActionView) {
        (
            RunView { phase: Phase::Streaming, ..self },
            ActionView::NextEvent { timeout_secs: RESPONSE_TIMEOUT_SECS },
        )
    }

    /// The run has the next call executed.
    pub open spec fn execute(self) -> (RunView, ActionView) {
        (RunView { phase: Phase::Executing, ..self }, ActionView::ExecuteTool)
    }

    /// The run turns to the next call: a todo list that it writes is announced first.
    pub open spec fn begin_call(self) -> (RunView, ActionView) {
        match announced_todos(self.call().name, self.call().arguments) {
            Some(todos) => (
                RunView { phase: Phase::Announcing, ..self },
                ActionView::Announce(
                    ToolEventView::TodoUpdated { session_id: session_id_text(self.id), todos },
                ),
            ),
            None => self.execute(),
        }
    }

    /// The response is complete: the run ends where the model called no tool, and
    /// turns to the calls otherwise.
    pub open spec fn end_response(self) -> (RunView, ActionView) {
        if self.calls.len() == 0 {
            RunView {
                final_content: closing_content(self.executed.len(), self.content),
                ..self
            }.complete()
        } else {
            self.begin_call()
        }
    }

    /// The messages of the current turn: the model's, then the replies to its calls.
    pub open spec fn turn_messages(self) -> Seq<MessageView> {
        seq![
            MessageView::Assistant {
                text: self.content,
                tool_calls: self.calls.map_values(|call: RequestedCallView| call.tool_call()),
            },
        ] + self.replies.map_values(|reply: ToolReplyView| reply.message())
    }

    /// All calls of the turn are executed: the turn joins the conversation, and the
    /// run goes on unless it has used up its turns.
    pub open spec fn end_turn(self) -> (RunView, ActionView) {
        let next = RunView {
            messages: self.messages + self.turn_messages(),
            final_content: if self.content.len() > 0 {
                self.content
            } else {
                self.final_content
            },
            iteration: self.iteration + 1,
            ..self
        };
        if next.iteration < MAX_ITERATIONS {
            next.connect()
        } else {
            next.complete()
        }
    }

    /// The user interface was told, or not: a run that cannot announce its start stops; a
    /// todo list that cannot be announced does not matter.
    pub open spec fn on_announced(self, delivered: bool) -> (RunView, ActionView) {
        if self.phase == Phase::Starting {
            if delivered {
                (RunView { phase: Phase::Preparing, ..self }, ActionView::Prepare)
            } else {
                (RunView { phase: Phase::Finished, ..self }, ActionView::Stop)
            }
        } else {
            self.execute()
        }
    }

    /// The tools and the model are known: the conversation opens with the two prompts.
    pub open spec fn on_prepared(
        self,
        definitions: Seq<ToolDefinitionView>,
        model: Seq<char>,
    ) -> (RunView, ActionView) {
        RunView {
            model,
            tools: offered(definitions),
            messages: seq![
                MessageView::System(
                    system_prompt_text(
                        self.delegation.subagent_type,
                        self.delegation.description,
                    ),
                ),
                MessageView::User(self.delegation.prompt),
            ],
            ..self
        }.connect()
    }

    /// There is a client, or the run fails.
    pub open spec fn on_client(self, outcome: ClientOutcomeView) -> (RunView, ActionView) {
        match outcome {
            ClientOutcomeView::Ready => (
                RunView { phase: Phase::Requesting, ..self },
                ActionView::Request { timeout_secs: CONNECT_TIMEOUT_SECS },
            ),
            ClientOutcomeView::Missing => self.fail("No client available"@),
            ClientOutcomeView::Unavailable { error } => self.fail(
                "Failed to initialize provider: "@ + error,
            ),
        }
    }

    /// The response is open, with nothing received yet, or the run fails.
    pub open spec fn on_response(self, outcome: ResponseOutcomeView) -> (RunView, ActionView) {
        match outcome {
            ResponseOutcomeView::Opened => RunView {
                content: Seq::empty(),
                calls: Seq::empty(),
                replies: Seq::empty(),
                ..self
            }.listen(),
            ResponseOutcomeView::Failed { error } => self.fail(error),
            ResponseOutcomeView::TimedOut => self.fail("Connection timeout"@),
        }
    }

    /// Text and tool calls are collected until the response is complete, or the run
    /// fails.
    pub open spec fn on_stream(self, outcome: StreamOutcomeView) -> (RunView, ActionView) {
        match outcome {
            StreamOutcomeView::Delta { text } => RunView {
                content: self.content + text,
                ..self
            }.listen(),
            StreamOutcomeView::ToolCall { id, name, arguments } => RunView {
                calls: self.calls.push(RequestedCallView::parsed(id, name, arguments)),
                ..self
            }.listen(),
            StreamOutcomeView::Other => self.listen(),
            StreamOutcomeView::Done => self.end_response(),
            StreamOutcomeView::Ended => self.end_response(),
            StreamOutcomeView::Error { error } => self.fail(error),
            StreamOutcomeView::Failed { error } => self.fail(error),
            StreamOutcomeView::TimedOut => self.fail(
                "The provider appears to be overloaded or your internet connection/proxy is experiencing issues communicating with it."@,
            ),
        }
    }

    /// The current call is executed: it is recorded, its reply is kept for the model, and
    /// the run turns to the next call, or to the next turn after the last one.
    pub open spec fn on_tool(self, outcome: ToolOutcomeView) -> (RunView, ActionView) {
        let next = RunView {
            executed: self.executed.push(outcome.record(self.call().name)),
            replies: self.replies.push(
                ToolReplyView {
                    call_id: self.call().id,
                    output: outcome.reply(self.call().name),
                },
            ),
            ..self
        };
        if next.replies.len() < next.calls.len() {
            next.begin_call()
        } else {
            next.end_turn()
        }
    }

    /// What an event makes of a run, and what the run then asks for.
    pub open spec fn transition(self, event: EventView) -> (RunView, ActionView) {
        match event {
            EventView::Announced { delivered } => self.on_announced(delivered),
            EventView::Prepared { definitions, model } => self.on_prepared(definitions, model),
            EventView::Client(outcome) => self.on_client(outcome),
            EventView::Response(outcome) => self.on_response(outcome),
            EventView::Stream(outcome) => self.on_stream(outcome),
            EventView::Tool(outcome) => self.on_tool(outcome),
        }
    }
}

/// A completion request: the conversation so far, and how the model is to go on.
pub struct CompletionRequest<'a> {
    pub messages: &'a Vec<Message>,
    pub model: &'a str,
    pub max_tokens: Option<u32>,
    pub seed: Option<u64>,
    pub tools: &'a Vec<ToolDefinition>,
    pub stream: bool,
}

impl Run {
    /// What every run satisfies, from its start on.
    pub open spec fn is_valid(&self) -> bool {
        &&& self@.well_formed()
        &&& none_spells_task(self@.tools)
    }

    /// A run at its start, and the action that it starts with.
    pub fn start(id: String, delegation: Delegation) -> (started: (Run, Action))
        ensures
            started.0@ == RunView::initial(id@, delegation@),
            started.0.is_valid(),
            started.1@ == RunView::first_action(id@),
    {
        let first = Action::Announce(
            ToolEvent::Started { id: id.clone(), name: "Task".to_string() },
        );
        let run = Run {
            id,
            delegation,
            model: String::new(),
            tools: Vec::new(),
            messages: Vec::new(),
            executed: Vec::new(),
            final_content: String::new(),
            iteration: 0,
            content: String::new(),
            calls: Vec::new(),
            replies: Vec::new(),
            phase: Phase::Starting,
        };
        proof {
            let initial = RunView::initial(id@, delegation@);
            assert(run@.tools =~= initial.tools);
            assert(run@.messages =~= initial.messages);
            assert(run@.executed =~= initial.executed);
            assert(run@.calls =~= initial.calls);
            assert(run@.replies =~= initial.replies);
        }
        (run, first)
    }

    /// Which event the run waits for.
    pub fn phase(&self) -> (phase: Phase)
        ensures
            phase == self@.phase,
    {
        self.phase
    }

    /// The number of turns behind the current one.
    pub fn iteration(&self) -> (iteration: usize)
        ensures
            iteration == self@.iteration,
    {
        self.iteration
    }

    /// The completion request of the current turn.
    pub fn request(&self) -> (request: CompletionRequest<'_>)
        ensures
            views(request.messages@) == self@.messages,
            request.model@ == self@.model,
            request.max_tokens == Some(MAX_TOKENS),
            request.seed is None,
            views(request.tools@) == self@.tools,
            self.is_valid() ==> none_spells_task(views(request.tools@)),
            request.stream,
    {
        CompletionRequest {
            messages: &self.messages,
            model: self.model.as_str(),
            max_tokens: Some(MAX_TOKENS),
            seed: None,
            tools: &self.tools,
            stream: true,
        }
    }

    /// The tool call to execute next.
    pub fn current_call(&self) -> (call: &RequestedCall)
        requires
            self.is_valid(),
            self@.in_calls(),
        ensures
            call@ == self@.call(),
    {
        &self.calls[self.replies.len()]
    }

    /// Tells whether the run waits for this event, and can take it in.
    pub fn accepts(&self, event: &Event) -> (result: bool)
        ensures
            result == self@.accepts(event@),
    {
        match event {
            Event::Announced { .. } => self.phase == Phase::Starting || self.phase
                == Phase::Announcing,
            Event::Prepared { .. } => self.phase == Phase::Preparing,
            Event::Client(_) => self.phase == Phase::Connecting,
            Event::Response(_) => self.phase == Phase::Requesting,
            Event::Stream(_) => self.phase == Phase::Streaming,
            Event::Tool(outcome) => self.phase == Phase::Executing && outcome.is_reportable(),
        }
    }

    fn fail(&mut self, error: String) -> (action: Action)
        ensures
            final(self)@ == old(self)@.fail(error@).0,
            action@ == old(self)@.fail(error@).1,
    {
        self.phase = Phase::Finished;
        Action::Finish(
            ToolEvent::Failed { id: self.id.clone(), name: "Task".to_string(), error },
        )
    }

    fn complete(&mut self) -> (action: Action)
        ensures
            final(self)@ == old(self)@.complete().0,
            action@ == old(self)@.complete().1,
    {
        self.phase = Phase::Finished;
        let output = report(
            self.id.as_str(),
            self.delegation.subagent_type.as_str(),
            self.delegation.description.as_str(),
            &self.executed,
            self.final_content.as_str(),
        );
        Action::Finish(
            ToolEvent::Completed {
                id: self.id.clone(),
                name: "Task".to_string(),
                output,
                success: true,
            },
        )
    }

    fn connect(&mut self) -> (action: Action)
        ensures
            final(self)@ == old(self)@.connect().0,
            action@ == old(self)@.connect().1,
    {
        self.phase = Phase::Connecting;
        Action::AcquireClient
    }

    fn listen(&mut self) -> (action: Action)
        ensures
            final(self)@ == old(self)@.listen().0,
            action@ == old(self)@.listen().1,
    {
        self.phase = Phase::Streaming;
        Action::NextEvent { timeout_secs: RESPONSE_TIMEOUT_SECS }
    }

    fn execute(&mut self) -> (action: Action)
        ensures
            final(self)@ == old(self)@.execute().0,
            action@ == old(self)@.execute().1,
    {
        self.phase = Phase::Executing;
        Action::ExecuteTool
    }

    fn begin_call(&mut self) -> (action: Action)
        requires
            old(self)@.replies.len() < old(self)@.calls.len(),
        ensures
            final(self)@ == old(self)@.begin_call().0,
            action@ == old(self)@.begin_call().1,
    {
        let call = &self.calls[self.replies.len()];
        match announcement(call.name.as_str(), &call.arguments) {
            Some(todos) => {
                self.phase = Phase::Announcing;
                Action::Announce(
                    ToolEvent::TodoUpdated { session_id: session_id(self.id.as_str()), todos },
                )
            },
            None => self.execute(),
        }
    }

    fn end_response(&mut self) -> (action: Action)
        requires
            old(self)@.replies.len() == 0,
        ensures
            final(self)@ == old(self)@.end_response().0,
            action@ == old(self)@.end_response().1,
    {
        if self.calls.len() == 0 {
            self.final_content = close_content(self.executed.len(), self.content.as_str());
            self.complete()
        } else {
            self.begin_call()
        }
    }

    fn end_turn(&mut self) -> (action: Action)
        requires
            old(self)@.iteration < MAX_ITERATIONS,
        ensures
            final(self)@ == old(self)@.end_turn().0,
            action@ == old(self)@.end_turn().1,
    {
        let ghost before = self@;
        let ghost messages = self.messages@;
        let tool_calls = self.tool_calls();
        self.messages.push(Message::Assistant { text: self.content.clone(), tool_calls });
        let ghost assistant = self.messages@.last();
        let mut i: usize = 0;
        while i < self.replies.len()
            invariant
                i <= self.replies.len(),
                self.messages@.len() == messages.len() + 1 + i,
                self.messages@.take(messages.len() as int) == messages,
                self.messages@[messages.len() as int] == assistant,
                forall|k: int|
                    0 <= k < i ==> (#[trigger] self.messages@[messages.len() + 1 + k])@
                        == self.replies@[k]@.message(),
                self@ == (RunView { messages: self@.messages, ..before }),
            decreases self.replies.len() - i,
        {
            self.messages.push(
                Message::ToolResult {
                    call_id: self.replies[i].call_id.clone(),
                    output: self.replies[i].output.clone(),
                },
            );
            i += 1;
        }
        proof {
            let turn = before.turn_messages();
            assert(self@.messages =~= before.messages + turn) by {
                assert forall|k: int| 0 <= k < self@.messages.len() implies self@.messages[k] == (
                before.messages + turn)[k] by {
                    if k < messages.len() {
                        assert(self.messages@.take(messages.len() as int)[k] == messages[k]);
                    } else if k > messages.len() {
                        let r = k - messages.len() - 1;
                        assert(self.messages@[messages.len() + 1 + r]@
                            == self.replies@[r]@.message());
                    }
                }
            }
        }
        if !self.content.as_str().is_empty() {
            self.final_content = self.content.clone();
        }
        self.iteration += 1;
        if self.iteration < MAX_ITERATIONS {
            self.connect()
        } else {
            self.complete()
        }
    }

    fn tool_calls(&self) -> (tool_calls: Vec<ToolCall>)
        ensures
            views(tool_calls@) == self@.calls.map_values(
                |call: RequestedCallView| call.tool_call(),
            ),
    {
        let mut tool_calls: Vec<ToolCall> = Vec::new();
        let mut i: usize = 0;
        while i < self.calls.len()
            invariant
                i <= self.calls.len(),
                tool_calls.len() == i,
                forall|k: int|
                    0 <= k < i ==> (#[trigger] tool_calls@[k])@ == self.calls@[k]@.tool_call(),
            decreases self.calls.len() - i,
        {
            tool_calls.push(self.calls[i].tool_call());
            i += 1;
        }
        assert(views(tool_calls@) =~= self@.calls.map_values(
            |call: RequestedCallView| call.tool_call(),
        ));
        tool_calls
    }

    fn on_announced(&mut self, delivered: bool) -> (action: Action)
        ensures
            final(self)@ == old(self)@.on_announced(delivered).0,
            action@ == old(self)@.on_announced(delivered).1,
    {
        if self.phase == Phase::Starting {
            if delivered {
                self.phase = Phase::Preparing;
                Action::Prepare
            } else {
                self.phase = Phase::Finished;
                Action::Stop
            }
        } else {
            self.execute()
        }
    }

    fn on_prepared(&mut self, definitions: Vec<ToolDefinition>, model: String) -> (action: Action)
        ensures
            final(self)@ == old(self)@.on_prepared(views(definitions@), model@).0,
            action@ == old(self)@.on_prepared(views(definitions@), model@).1,
            none_spells_task(final(self)@.tools),
    {
        self.model = model;
        self.tools = offered_tools(definitions);
        let system = Message::System(
            system_prompt(
                self.delegation.subagent_type.as_str(),
                self.delegation.description.as_str(),
            ),
        );
        let user = Message::User(self.delegation.prompt.clone());
        self.messages = vec![system, user];
        assert(self@.messages =~= seq![system@, user@]);
        self.connect()
    }

    fn on_client(&mut self, outcome: ClientOutcome) -> (action: Action)
        ensures
            final(self)@ == old(self)@.on_client(outcome@).0,
            action@ == old(self)@.on_client(outcome@).1,
    {
        match outcome {
            ClientOutcome::Ready => {
                self.phase = Phase::Requesting;
                Action::Request { timeout_secs: CONNECT_TIMEOUT_SECS }
            },
            ClientOutcome::Missing => self.fail("No client available".to_string()),
            ClientOutcome::Unavailable { error } => {
                let mut text = "Failed to initialize provider: ".to_string();
                text.append(error.as_str());
                self.fail(text)
            },
        }
    }

    fn on_response(&mut self, outcome: ResponseOutcome) -> (action: Action)
        ensures
            final(self)@ == old(self)@.on_response(outcome@).0,
            action@ == old(self)@.on_response(outcome@).1,
    {
        match outcome {
            ResponseOutcome::Opened => {
                self.content = String::new();
                self.calls = Vec::new();
                self.replies = Vec::new();
                assert(self@.calls =~= Seq::empty());
                assert(self@.replies =~= Seq::empty());
                self.listen()
            },
            ResponseOutcome::Failed { error } => self.fail(error),
            ResponseOutcome::TimedOut => self.fail("Connection timeout".to_string()),
        }
    }

    fn on_stream(&mut self, outcome: StreamOutcome) -> (action: Action)
        requires
            old(self)@.replies.len() == 0,
        ensures
            final(self)@ == old(self)@.on_stream(outcome@).0,
            action@ == old(self)@.on_stream(outcome@).1,
    {
        match outcome {
            StreamOutcome::Delta { text } => {
                self.content.append(text.as_str());
                self.listen()
            },
            StreamOutcome::ToolCall { id, name, arguments } => {
                let call = RequestedCall::parsed(id, name, arguments.as_str());
                proof {
                    lemma_views_push(self.calls@, call);
                }
                self.calls.push(call);
                self.listen()
            },
            StreamOutcome::Other => self.listen(),
            StreamOutcome::Done => self.end_response(),
            StreamOutcome::Ended => self.end_response(),
            StreamOutcome::Error { error } => self.fail(error),
            StreamOutcome::Failed { error } => self.fail(error),
            StreamOutcome::TimedOut => self.fail(
                "The provider appears to be overloaded or your internet connection/proxy is experiencing issues communicating with it.".to_string(),
            ),
        }
    }

    fn on_tool(&mut self, outcome: ToolOutcome) -> (action: Action)
        requires
            old(self)@.iteration < MAX_ITERATIONS,
            old(self)@.replies.len() < old(self)@.calls.len(),
            outcome@.can_be_reported(),
        ensures
            final(self)@ == old(self)@.on_tool(outcome@).0,
            action@ == old(self)@.on_tool(outcome@).1,
    {
        let call = &self.calls[self.replies.len()];
        let record = outcome.record(call.name.as_str());
        let reply = ToolReply {
            call_id: call.id.clone(),
            output: outcome.reply(call.name.as_str()),
        };
        proof {
            lemma_views_push(self.executed@, record);
            lemma_views_push(self.replies@, reply);
        }
        self.executed.push(record);
        self.replies.push(reply);
        if self.replies.len() < self.calls.len() {
            self.begin_call()
        } else {
            self.end_turn()
        }
    }

    /// Takes in what became of the last action, and says what to do next.
    pub fn step(&mut self, event: Event) -> (action: Action)
        requires
            old(self).is_valid(),
            old(self)@.accepts(event@),
        ensures
            final(self)@ == old(self)@.transition(event@).0,
            action@ == old(self)@.transition(event@).1,
            final(self).is_valid(),
    {
        match event {
            Event::Announced { delivered } => self.on_announced(delivered),
            Event::Prepared { definitions, model } => self.on_prepared(definitions, model),
            Event::Client(outcome) => self.on_client(outcome),
            Event::Response(outcome) => self.on_response(outcome),
            Event::Stream(outcome) => self.on_stream(outcome),
            Event::Tool(outcome) => self.on_tool(outcome),
        }
    }
}

} // verus!
