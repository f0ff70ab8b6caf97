//! Laws of turns: what a run says to its model, keeps and asks for, told from the events
//! alone.

use crate::call_laws::{
    holds_items, items_with_content, law_all_other_tools_are_offered,
    law_calls_without_a_list_announce_nothing, law_todo_lists_are_announced_whole, shows_items,
};
use crate::chat::{MessageView, RequestedCallView, ToolCallView, ToolDefinitionView};
use crate::json::{json_print, Json};
use crate::laws::{admitted, after, asked, streamed_calls, streamed_text};
use crate::protocol::{
    ActionView, ClientOutcomeView, EventView, ResponseOutcomeView, StreamOutcomeView,
    ToolEventView,
};
use crate::report::{ToolOutcomeView, GUIDANCE};
use crate::report_laws::{
    answers, law_records_say_what_happened, law_reports_are_complete,
    law_the_model_is_told_the_output, lists_or_none, records_outcome, reports, says_nothing, tells,
};
use crate::run::{Phase, RunView, ToolReplyView};
use crate::task::DelegationView;
use crate::text::{blank, decimal, lowercase};
use vstd::prelude::*;
use vstd::utf8::encode_utf8;

verus! {

/// The events since the last response was opened.
pub open spec fn since_opened(events: Seq<EventView>) -> Seq<EventView>
    decreases events.len(),
{
    if events.len() == 0 {
        Seq::empty()
    } else if events.last() == EventView::Response(ResponseOutcomeView::Opened) {
        Seq::empty()
    } else {
        since_opened(events.drop_last()).push(events.last())
    }
}

/// What became of the tool calls that were executed, in order.
pub open spec fn outcomes(events: Seq<EventView>) -> Seq<ToolOutcomeView>
    decreases events.len(),
{
    if events.len() == 0 {
        Seq::empty()
    } else {
        match events.last() {
            EventView::Tool(outcome) => outcomes(events.drop_last()).push(outcome),
            _ => outcomes(events.drop_last()),
        }
    }
}

/// The first call of the current response that is not executed yet.
pub open spec fn due_call(events: Seq<EventView>) -> RequestedCallView {
    streamed_calls(since_opened(events))[outcomes(since_opened(events)).len() as int]
}

/// Whether the last event is the outcome of the last call of the current response.
pub open spec fn ends_turn(events: Seq<EventView>) -> bool {
    &&& events.len() > 0
    &&& events.last() is Tool
    &&& outcomes(since_opened(events)).len() == streamed_calls(since_opened(events)).len()
}

/// The number of responses whose calls have all been executed.
pub open spec fn turns(events: Seq<EventView>) -> nat
    decreases events.len(),
{
    if events.len() == 0 {
        0
    } else if ends_turn(events) {
        turns(events.drop_last()) + 1
    } else {
        turns(events.drop_last())
    }
}

/// The text of the last response with text whose calls have all been executed.
pub open spec fn last_words(events: Seq<EventView>) -> Seq<char>
    decreases events.len(),
{
    if events.len() == 0 {
        Seq::empty()
    } else if ends_turn(events) && streamed_text(since_opened(events)).len() > 0 {
        streamed_text(since_opened(events))
    } else {
        last_words(events.drop_last())
    }
}

/// Whether `tool_calls` are these calls, in order, as an assistant message writes them.
pub open spec fn writes_calls(
    tool_calls: Seq<ToolCallView>,
    calls: Seq<RequestedCallView>,
) -> bool {
    &&& tool_calls.len() == calls.len()
    &&& forall|k: int|
        0 <= k < calls.len() ==> #[trigger] tool_calls[k] == (ToolCallView {
            id: calls[k].id,
            call_type: "function"@,
            name: calls[k].name,
            arguments: json_print(calls[k].arguments),
        })
}

/// Whether a message answers a call with what became of it.
pub open spec fn answers_call(
    message: MessageView,
    call: RequestedCallView,
    outcome: ToolOutcomeView,
) -> bool {
    message matches MessageView::ToolResult { call_id, output } && call_id == call.id && tells(
        output,
        call.name,
        outcome,
    )
}

/// Whether `messages` tell a turn over a response: a message of the assistant with all the
/// text of the response and all of its calls, then one answer to each call.
pub open spec fn tells_turn(messages: Seq<MessageView>, response: Seq<EventView>) -> bool {
    &&& messages.len() == 1 + streamed_calls(response).len()
    &&& messages[0] matches MessageView::Assistant { text, tool_calls } && text == streamed_text(
        response,
    ) && writes_calls(tool_calls, streamed_calls(response))
    &&& forall|k: int|
        0 <= k < streamed_calls(response).len() ==> answers_call(
            messages[k + 1],
            #[trigger] streamed_calls(response)[k],
            outcomes(response)[k],
        )
}

/// The two messages that a conversation opens with.
pub open spec fn opening(delegation: DelegationView) -> Seq<MessageView> {
    seq![
        MessageView::System(
            "You are a specialized "@ + delegation.subagent_type + " subagent working on: "@
                + delegation.description + GUIDANCE@,
        ),
        MessageView::User(delegation.prompt),
    ]
}

/// Whether `messages` are the conversation that events lead to: the opening once the run is
/// prepared, and then turn after turn.
pub open spec fn converses(
    messages: Seq<MessageView>,
    delegation: DelegationView,
    events: Seq<EventView>,
) -> bool
    decreases events.len(),
{
    if events.len() == 0 {
        messages.len() == 0
    } else if events.last() is Prepared {
        messages == opening(delegation)
    } else if ends_turn(events) {
        let said = messages.len() - 1 - streamed_calls(since_opened(events)).len();
        &&& said >= 0
        &&& converses(messages.take(said), delegation, events.drop_last())
        &&& tells_turn(messages.skip(said), since_opened(events))
    } else {
        converses(messages, delegation, events.drop_last())
    }
}

/// Whether `executed` are the records that events lead to: one for each tool call that was
/// executed, in order.
pub open spec fn records_calls(executed: Seq<Seq<char>>, events: Seq<EventView>) -> bool
    decreases events.len(),
{
    if events.len() == 0 {
        executed.len() == 0
    } else {
        match events.last() {
            EventView::Tool(outcome) => {
                &&& executed.len() > 0
                &&& records_calls(executed.drop_last(), events.drop_last())
                &&& records_outcome(executed.last(), due_call(events.drop_last()).name, outcome)
            },
            _ => records_calls(executed, events.drop_last()),
        }
    }
}

/// Whether a run that took these events has the given tools and model: all tools that it
/// was prepared with, in order, but those whose name in lowercase is `task`.
pub open spec fn equips(
    tools: Seq<ToolDefinitionView>,
    model: Seq<char>,
    events: Seq<EventView>,
) -> bool
    decreases events.len(),
{
    if events.len() == 0 {
        tools.len() == 0 && model.len() == 0
    } else {
        match events.last() {
            EventView::Prepared { definitions, model: given } => {
                &&& tools == definitions.filter(
                    |tool: ToolDefinitionView| lowercase(tool.name) != "task"@,
                )
                &&& model == given
            },
            _ => equips(tools, model, events.drop_last()),
        }
    }
}

/// What one more event adds to the current response.
proof fn lemma_response_grows(events: Seq<EventView>)
    requires
        events.len() > 0,
    ensures
        ({
            let now = since_opened(events);
            let before = since_opened(events.drop_last());
            match events.last() {
                EventView::Response(ResponseOutcomeView::Opened) => {
                    &&& streamed_text(now).len() == 0
                    &&& streamed_calls(now).len() == 0
                    &&& outcomes(now).len() == 0
                },
                EventView::Stream(StreamOutcomeView::Delta { text }) => {
                    &&& streamed_text(now) == streamed_text(before) + text
                    &&& streamed_calls(now) == streamed_calls(before)
                    &&& outcomes(now) == outcomes(before)
                },
                EventView::Stream(StreamOutcomeView::ToolCall { id, name, arguments }) => {
                    &&& streamed_text(now) == streamed_text(before)
                    &&& streamed_calls(now) == streamed_calls(before).push(
                        RequestedCallView::parsed(id, name, arguments),
                    )
                    &&& outcomes(now) == outcomes(before)
                },
                EventView::Tool(outcome) => {
                    &&& streamed_text(now) == streamed_text(before)
                    &&& streamed_calls(now) == streamed_calls(before)
                    &&& outcomes(now) == outcomes(before).push(outcome)
                },
                _ => {
                    &&& streamed_text(now) == streamed_text(before)
                    &&& streamed_calls(now) == streamed_calls(before)
                    &&& outcomes(now) == outcomes(before)
                },
            }
        }),
{
    let now = since_opened(events);
    let before = since_opened(events.drop_last());
    if events.last() != EventView::Response(ResponseOutcomeView::Opened) {
        assert(now.drop_last() =~= before);
        assert(now.last() == events.last());
    }
}

/// Whether a reply carries what became of a call.
spec fn replied(
    reply: ToolReplyView,
    call: RequestedCallView,
    outcome: ToolOutcomeView,
) -> bool {
    reply.call_id == call.id && tells(reply.output, call.name, outcome)
}

/// Whether a run has collected a response so far.
spec fn collected(run: RunView, response: Seq<EventView>) -> bool {
    &&& run.content == streamed_text(response)
    &&& run.calls == streamed_calls(response)
    &&& run.replies.len() == outcomes(response).len()
    &&& forall|k: int|
        0 <= k < run.replies.len() ==> replied(
            #[trigger] run.replies[k],
            streamed_calls(response)[k],
            outcomes(response)[k],
        )
}

/// Whether a run is where these events lead to.
spec fn follows(
    run: RunView,
    id: Seq<char>,
    delegation: DelegationView,
    events: Seq<EventView>,
) -> bool {
    &&& run.id == id
    &&& run.delegation == delegation
    &&& run.well_formed()
    &&& run.phase == Phase::Starting <==> events.len() == 0
    &&& run.iteration == turns(events)
    &&& records_calls(run.executed, events)
    &&& converses(run.messages, delegation, events)
    &&& equips(run.tools, run.model, events)
    &&& run.phase != Phase::Finished ==> run.final_content == last_words(events)
    &&& run.phase == Phase::Streaming || run.in_calls() ==> collected(run, since_opened(events))
}

/// The run once a call is executed, before it turns to what comes next.
spec fn noted(run: RunView, outcome: ToolOutcomeView) -> RunView {
    RunView {
        executed: run.executed.push(outcome.record(run.call().name)),
        replies: run.replies.push(
            ToolReplyView { call_id: run.call().id, output: outcome.reply(run.call().name) },
        ),
        ..run
    }
}

proof fn lemma_noted(
    run: RunView,
    id: Seq<char>,
    delegation: DelegationView,
    events: Seq<EventView>,
    outcome: ToolOutcomeView,
)
    requires
        events.len() > 0,
        events.last() == EventView::Tool(outcome),
        follows(run, id, delegation, events.drop_last()),
        run.accepts(events.last()),
    ensures
        run.call() == due_call(events.drop_last()),
        collected(noted(run, outcome), since_opened(events)),
        records_calls(noted(run, outcome).executed, events),
{
    lemma_response_grows(events);
    let next = noted(run, outcome);
    let name = run.call().name;
    law_the_model_is_told_the_output(outcome, name);
    law_records_say_what_happened(outcome, name);
    let before = since_opened(events.drop_last());
    let now = since_opened(events);
    assert(next.executed.drop_last() =~= run.executed);
    assert forall|k: int| 0 <= k < next.replies.len() implies replied(
        #[trigger] next.replies[k],
        streamed_calls(now)[k],
        outcomes(now)[k],
    ) by {
        if k < run.replies.len() {
            assert(replied(run.replies[k], streamed_calls(before)[k], outcomes(before)[k]));
        }
    }
}

proof fn lemma_turn_is_told(run: RunView, response: Seq<EventView>)
    requires
        collected(run, response),
        run.replies.len() == run.calls.len(),
    ensures
        tells_turn(run.turn_messages(), response),
{
    let messages = run.turn_messages();
    assert forall|k: int| 0 <= k < streamed_calls(response).len() implies answers_call(
        messages[k + 1],
        #[trigger] streamed_calls(response)[k],
        outcomes(response)[k],
    ) by {
        assert(replied(run.replies[k], streamed_calls(response)[k], outcomes(response)[k]));
        assert(messages[k + 1] == run.replies[k].message());
    }
}

proof fn lemma_run_follows(id: Seq<char>, delegation: DelegationView, events: Seq<EventView>)
    requires
        admitted(RunView::initial(id, delegation), events),
    ensures
        follows(after(RunView::initial(id, delegation), events), id, delegation, events),
    decreases events.len(),
{
    let start = RunView::initial(id, delegation);
    if events.len() > 0 {
        let run = after(start, events.drop_last());
        let next = after(start, events);
        lemma_run_follows(id, delegation, events.drop_last());
        lemma_response_grows(events);
        match events.last() {
            EventView::Prepared { definitions, model } => {
                law_all_other_tools_are_offered(definitions);
            },
            EventView::Tool(outcome) => {
                lemma_noted(run, id, delegation, events, outcome);
                let told = noted(run, outcome);
                if told.replies.len() == told.calls.len() {
                    lemma_turn_is_told(told, since_opened(events));
                    let said = run.messages.len() as int;
                    assert(next.messages == run.messages + told.turn_messages());
                    assert(next.messages.take(said) =~= run.messages);
                    assert(next.messages.skip(said) =~= told.turn_messages());
                }
            },
            _ => {},
        }
    }
}

/// What a run has said to its model and keeps, in any run, follows from the events: the
/// conversation, the records of the executed calls, the tools and the model, the number of
/// turns, and, while calls remain, which call is due.
pub proof fn law_runs_follow_their_events(
    id: Seq<char>,
    delegation: DelegationView,
    events: Seq<EventView>,
)
    requires
        admitted(RunView::initial(id, delegation), events),
    ensures
        ({
            let run = after(RunView::initial(id, delegation), events);
            &&& run.id == id
            &&& run.delegation == delegation
            &&& converses(run.messages, delegation, events)
            &&& records_calls(run.executed, events)
            &&& equips(run.tools, run.model, events)
            &&& run.iteration == turns(events)
            &&& run.in_calls() <==> run.phase == Phase::Announcing || run.phase
                == Phase::Executing
            &&& run.in_calls() ==> run.call() == due_call(events) && outcomes(
                since_opened(events),
            ).len() < streamed_calls(since_opened(events)).len()
        }),
{
    lemma_run_follows(id, delegation, events);
}

/// When the calls of a response are all executed, exactly one turn joins the conversation,
/// in every turn of any run: the message of the assistant, whose text is all the text of the
/// response, as it was streamed since the response was opened, and whose calls are all of
/// its calls; then the answer to each call, with the output that its event carried. No other
/// event but the preparation changes the conversation.
pub proof fn law_turns_join_the_conversation_whole(
    id: Seq<char>,
    delegation: DelegationView,
    events: Seq<EventView>,
)
    requires
        events.len() > 0,
        admitted(RunView::initial(id, delegation), events),
    ensures
        ({
            let start = RunView::initial(id, delegation);
            let before = after(start, events.drop_last()).messages;
            let now = after(start, events).messages;
            if events.last() is Prepared {
                now == opening(delegation)
            } else if ends_turn(events) {
                &&& now.len() == before.len() + 1 + streamed_calls(since_opened(events)).len()
                &&& now.take(before.len() as int) == before
                &&& now[before.len() as int] matches MessageView::Assistant { text, .. } && text
                    == streamed_text(since_opened(events))
                &&& tells_turn(now.skip(before.len() as int), since_opened(events))
            } else {
                now == before
            }
        }),
{
    let start = RunView::initial(id, delegation);
    let run = after(start, events.drop_last());
    lemma_run_follows(id, delegation, events.drop_last());
    lemma_run_follows(id, delegation, events);
    lemma_response_grows(events);
    if let EventView::Tool(outcome) = events.last() {
        lemma_noted(run, id, delegation, events, outcome);
        let told = noted(run, outcome);
        if told.replies.len() == told.calls.len() {
            let said = run.messages.len() as int;
            let now = after(start, events).messages;
            lemma_turn_is_told(told, since_opened(events));
            assert(now == run.messages + told.turn_messages());
            assert(now.take(said) =~= run.messages);
            assert(now.skip(said) =~= told.turn_messages());
            assert(now[said] == told.turn_messages()[0]);
        }
    }
}

/// The answer to a call, in the turn that joins the conversation, is the output that the
/// event of its execution carried, character for character, where that has at most 32000
/// bytes, whether or not the tool succeeded.
pub proof fn law_outputs_reach_the_model(
    id: Seq<char>,
    delegation: DelegationView,
    events: Seq<EventView>,
    k: int,
    success: bool,
    output: Seq<char>,
)
    requires
        ends_turn(events),
        admitted(RunView::initial(id, delegation), events),
        0 <= k < outcomes(since_opened(events)).len(),
        outcomes(since_opened(events))[k] == (ToolOutcomeView::Finished { success, output }),
        encode_utf8(output).len() <= 32_000,
    ensures
        ({
            let start = RunView::initial(id, delegation);
            let said = after(start, events.drop_last()).messages.len();
            after(start, events).messages[said + 1 + k] == (MessageView::ToolResult {
                call_id: streamed_calls(since_opened(events))[k].id,
                output,
            })
        }),
{
    law_turns_join_the_conversation_whole(id, delegation, events);
    let start = RunView::initial(id, delegation);
    let said = after(start, events.drop_last()).messages.len() as int;
    let turn = after(start, events).messages.skip(said);
    let call = streamed_calls(since_opened(events))[k];
    assert(answers_call(turn[k + 1], call, outcomes(since_opened(events))[k]));
    assert(turn[k + 1] == after(start, events).messages[said + 1 + k]);
}

/// Every tool call that is executed adds one record, which names the tool that was due and
/// says how the call ended; no other event changes the records.
pub proof fn law_every_executed_call_is_recorded(
    id: Seq<char>,
    delegation: DelegationView,
    events: Seq<EventView>,
)
    requires
        events.len() > 0,
        admitted(RunView::initial(id, delegation), events),
    ensures
        ({
            let start = RunView::initial(id, delegation);
            let before = after(start, events.drop_last()).executed;
            let now = after(start, events).executed;
            match events.last() {
                EventView::Tool(outcome) => {
                    &&& now.len() == before.len() + 1
                    &&& now.drop_last() == before
                    &&& records_outcome(now.last(), due_call(events.drop_last()).name, outcome)
                },
                _ => now == before,
            }
        }),
{
    let start = RunView::initial(id, delegation);
    let run = after(start, events.drop_last());
    lemma_run_follows(id, delegation, events.drop_last());
    lemma_run_follows(id, delegation, events);
    if let EventView::Tool(outcome) = events.last() {
        lemma_noted(run, id, delegation, events, outcome);
        assert(after(start, events).executed.drop_last() =~= run.executed);
    }
}

/// The phase of a run names what it asked for, and so what it waits for.
pub proof fn law_phases_name_what_is_awaited(
    id: Seq<char>,
    delegation: DelegationView,
    run: RunView,
    event: EventView,
)
    requires
        run.accepts(event),
    ensures
        RunView::initial(id, delegation).phase == Phase::Starting,
        run.transition(event).0.phase == match run.transition(event).1 {
            ActionView::Announce(_) => Phase::Announcing,
            ActionView::Prepare => Phase::Preparing,
            ActionView::AcquireClient => Phase::Connecting,
            ActionView::Request { .. } => Phase::Requesting,
            ActionView::NextEvent { .. } => Phase::Streaming,
            ActionView::ExecuteTool => Phase::Executing,
            ActionView::Finish(_) => Phase::Finished,
            ActionView::Stop => Phase::Finished,
        },
{
}

/// Whether an action ends a run with this failure.
pub open spec fn fails(action: ActionView, id: Seq<char>, error: Seq<char>) -> bool {
    action == ActionView::Finish(ToolEventView::Failed { id, name: "Task"@, error })
}

/// Whether `output` is the report of a run on an answer: content and a list of the executed
/// calls, and nothing else but the fixed text around them.
pub open spec fn reports_on(
    output: Seq<char>,
    id: Seq<char>,
    delegation: DelegationView,
    executed: Seq<Seq<char>>,
    answer: Seq<char>,
) -> bool {
    exists|content: Seq<char>, list: Seq<char>|
        answers(content, delegation.subagent_type, delegation.description, executed, answer)
            && lists_or_none(list, executed) && #[trigger] reports(
            output,
            content,
            list,
            id,
            delegation.subagent_type,
            delegation.description,
        )
}

/// Whether an action ends a run with the report on an answer.
pub open spec fn completes(
    action: ActionView,
    id: Seq<char>,
    delegation: DelegationView,
    executed: Seq<Seq<char>>,
    answer: Seq<char>,
) -> bool {
    &&& action matches ActionView::Finish(
        ToolEventView::Completed { id: named, name, output, success },
    )
    &&& named == id
    &&& name == "Task"@
    &&& success
    &&& reports_on(output, id, delegation, executed, answer)
}

/// Whether an action turns to a call: it announces the todo list that the call writes, if it
/// writes one, and has the call executed otherwise.
pub open spec fn turns_to(action: ActionView, id: Seq<char>, call: RequestedCallView) -> bool {
    match action {
        ActionView::Announce(ToolEventView::TodoUpdated { session_id, todos }) => {
            &&& call.name == "TodoWrite"@
            &&& session_id == "subagent_"@ + id
            &&& todos.len() > 0
            &&& exists|items: Seq<Json>| #[trigger]
                holds_items(call.arguments, "todos"@, items) && shows_items(todos, items)
        },
        ActionView::ExecuteTool => {
            ||| call.name != "TodoWrite"@
            ||| forall|items: Seq<Json>| #[trigger]
                holds_items(call.arguments, "todos"@, items) ==> items_with_content(items).len()
                    == 0
        },
        _ => false,
    }
}

/// What a run answers to events, told from the events and the records of its calls.
pub open spec fn responds(
    action: ActionView,
    id: Seq<char>,
    delegation: DelegationView,
    executed: Seq<Seq<char>>,
    events: Seq<EventView>,
) -> bool {
    let response = since_opened(events);
    let text = streamed_text(response);
    let calls = streamed_calls(response);
    match events.last() {
        EventView::Announced { delivered } => action == if events.len() > 1 {
            ActionView::ExecuteTool
        } else if delivered {
            ActionView::Prepare
        } else {
            ActionView::Stop
        },
        EventView::Prepared { .. } => action == ActionView::AcquireClient,
        EventView::Client(ClientOutcomeView::Ready) => action == (ActionView::Request {
            timeout_secs: 120,
        }),
        EventView::Client(ClientOutcomeView::Missing) => fails(action, id, "No client available"@),
        EventView::Client(ClientOutcomeView::Unavailable { error }) => fails(
            action,
            id,
            "Failed to initialize provider: "@ + error,
        ),
        EventView::Response(ResponseOutcomeView::Opened) => action == (ActionView::NextEvent {
            timeout_secs: 60,
        }),
        EventView::Response(ResponseOutcomeView::Failed { error }) => fails(action, id, error),
        EventView::Response(ResponseOutcomeView::TimedOut) => fails(
            action,
            id,
            "Connection timeout"@,
        ),
        EventView::Stream(StreamOutcomeView::Error { error }) => fails(action, id, error),
        EventView::Stream(StreamOutcomeView::Failed { error }) => fails(action, id, error),
        EventView::Stream(StreamOutcomeView::TimedOut) => fails(
            action,
            id,
            "The provider appears to be overloaded or your internet connection/proxy is experiencing issues communicating with it."@,
        ),
        EventView::Stream(outcome) => if outcome is Done || outcome is Ended {
            if calls.len() > 0 {
                turns_to(action, id, calls[0])
            } else if says_nothing(text) && executed.len() > 0 {
                completes(
                    action,
                    id,
                    delegation,
                    executed,
                    "Task completed with "@ + decimal(executed.len()) + " tool call(s)."@,
                )
            } else {
                completes(action, id, delegation, executed, text)
            }
        } else {
            action == (ActionView::NextEvent { timeout_secs: 60 })
        },
        EventView::Tool(_) => if !ends_turn(events) {
            turns_to(action, id, due_call(events))
        } else if turns(events) < 500 {
            action == ActionView::AcquireClient
        } else {
            completes(action, id, delegation, executed, last_words(events))
        },
    }
}

proof fn lemma_completes(run: RunView)
    ensures
        completes(run.complete().1, run.id, run.delegation, run.executed, run.final_content),
{
    let parts = law_reports_are_complete(
        run.id,
        run.delegation.subagent_type,
        run.delegation.description,
        run.executed,
        run.final_content,
    );
    assert(reports(
        run.report(),
        parts.0,
        parts.1,
        run.id,
        run.delegation.subagent_type,
        run.delegation.description,
    ));
    assert(reports_on(run.report(), run.id, run.delegation, run.executed, run.final_content));
}

proof fn lemma_turns_to(run: RunView)
    ensures
        turns_to(run.begin_call().1, run.id, run.call()),
{
    let call = run.call();
    if exists|items: Seq<Json>| holds_items(call.arguments, "todos"@, items) {
        let items = choose|items: Seq<Json>| holds_items(call.arguments, "todos"@, items);
        law_todo_lists_are_announced_whole(call.name, call.arguments, items);
    } else {
        law_calls_without_a_list_announce_nothing(call.name, call.arguments);
    }
}

/// What a run answers to every event of any run follows from the events: what it waits for
/// next and how long, which call it turns to, how it fails, and what it reports at its end.
pub proof fn law_answers_follow_the_events(
    id: Seq<char>,
    delegation: DelegationView,
    events: Seq<EventView>,
)
    requires
        events.len() > 0,
        admitted(RunView::initial(id, delegation), events),
    ensures
        responds(
            asked(RunView::initial(id, delegation), events).last(),
            id,
            delegation,
            after(RunView::initial(id, delegation), events).executed,
            events,
        ),
{
    let start = RunView::initial(id, delegation);
    let run = after(start, events.drop_last());
    lemma_run_follows(id, delegation, events.drop_last());
    lemma_run_follows(id, delegation, events);
    lemma_response_grows(events);
    let (next, action) = run.transition(events.last());
    assert(asked(start, events).last() == action);
    match events.last() {
        EventView::Stream(outcome) => {
            if outcome is Done || outcome is Ended {
                if run.calls.len() > 0 {
                    lemma_turns_to(run);
                } else {
                    assert(blank(run.content) == says_nothing(run.content));
                    lemma_completes(next);
                }
            }
        },
        EventView::Tool(outcome) => {
            lemma_noted(run, id, delegation, events, outcome);
            let told = noted(run, outcome);
            if told.replies.len() < told.calls.len() {
                lemma_turns_to(told);
            } else {
                lemma_completes(next);
            }
        },
        _ => {},
    }
}

} // verus!
