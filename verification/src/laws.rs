//! Laws of whole runs: what holds after any sequence of events that a driver can
//! report.

use crate::chat::{names_task, MessageView, RequestedCallView, ToolDefinitionView};
use crate::json::{json_parse, Json};
use crate::protocol::{ActionView, EventView, StreamOutcomeView, ToolEventView};
use crate::report::{closing_content, system_prompt_text};
use crate::run::{Phase, RunView, ToolReplyView, MAX_ITERATIONS};
use crate::task::DelegationView;
use crate::text::{blank, is_white_space, lemma_filter_push};
use vstd::prelude::*;

verus! {

/// The run after a sequence of events.
pub open spec fn after(run: RunView, events: Seq<EventView>) -> RunView
    decreases events.len(),
{
    if events.len() == 0 {
        run
    } else {
        after(run, events.drop_last()).transition(events.last()).0
    }
}

/// The actions that a run asks for in answer to a sequence of events.
pub open spec fn asked(run: RunView, events: Seq<EventView>) -> Seq<ActionView>
    decreases events.len(),
{
    if events.len() == 0 {
        Seq::empty()
    } else {
        asked(run, events.drop_last()).push(
            after(run, events.drop_last()).transition(events.last()).1,
        )
    }
}

/// Whether the run waits for each of the events when it comes.
pub open spec fn admitted(run: RunView, events: Seq<EventView>) -> bool
    decreases events.len(),
{
    events.len() > 0 ==> admitted(run, events.drop_last()) && after(
        run,
        events.drop_last(),
    ).accepts(events.last())
}

/// Whether an event is an outcome of an action. A tool output over the size limit counts
/// only where it can be cut there.
pub open spec fn is_outcome_of(event: EventView, action: ActionView) -> bool {
    match action {
        ActionView::Announce(_) => event is Announced,
        ActionView::Prepare => event is Prepared,
        ActionView::AcquireClient => event is Client,
        ActionView::Request { .. } => event is Response,
        ActionView::NextEvent { .. } => event is Stream,
        ActionView::ExecuteTool => event matches EventView::Tool(outcome)
            && outcome.can_be_reported(),
        ActionView::Finish(_) => false,
        ActionView::Stop => false,
    }
}

/// A run waits for the outcomes of the action that it asked for, and for nothing else:
/// a driver that performs each action and reports what became of it is always heard.
pub proof fn law_outcomes_are_awaited(run: RunView, event: EventView, reported: EventView)
    requires
        run.accepts(event),
    ensures
        run.transition(event).0.accepts(reported) <==> is_outcome_of(
            reported,
            run.transition(event).1,
        ),
{
}

/// At its start a run waits for the outcomes of its first action, and for nothing else.
pub proof fn law_first_outcome_is_awaited(
    id: Seq<char>,
    delegation: DelegationView,
    reported: EventView,
)
    ensures
        RunView::initial(id, delegation).accepts(reported) <==> is_outcome_of(
            reported,
            RunView::first_action(id),
        ),
{
}

/// Every run stays well formed.
pub proof fn law_runs_stay_well_formed(run: RunView, events: Seq<EventView>)
    requires
        run.well_formed(),
        admitted(run, events),
    ensures
        after(run, events).well_formed(),
    decreases events.len(),
{
    if events.len() > 0 {
        law_runs_stay_well_formed(run, events.drop_last());
    }
}

/// A run keeps the id of the tool call that started it, and what it was asked to do.
pub proof fn law_identity_is_kept(run: RunView, events: Seq<EventView>)
    ensures
        after(run, events).id == run.id,
        after(run, events).delegation == run.delegation,
    decreases events.len(),
{
    if events.len() > 0 {
        law_identity_is_kept(run, events.drop_last());
    }
}

/// Whether an action asks for a completion.
pub open spec fn is_request(action: ActionView) -> bool {
    action is Request
}

/// Whether an action is the last of a run.
pub open spec fn is_ending(action: ActionView) -> bool {
    action is Finish || action is Stop
}

/// The number of completions that a run has asked for in answer to the events.
pub open spec fn requests(run: RunView, events: Seq<EventView>) -> nat {
    asked(run, events).filter(|action: ActionView| is_request(action)).len()
}

/// The number of endings of a run in answer to the events.
pub open spec fn endings(run: RunView, events: Seq<EventView>) -> nat {
    asked(run, events).filter(|action: ActionView| is_ending(action)).len()
}

proof fn lemma_counts_after(run: RunView, events: Seq<EventView>)
    requires
        events.len() > 0,
    ensures
        ({
            let action = after(run, events.drop_last()).transition(events.last()).1;
            &&& requests(run, events) == requests(run, events.drop_last()) + if is_request(action) {
                1nat
            } else {
                0nat
            }
            &&& endings(run, events) == endings(run, events.drop_last()) + if is_ending(action) {
                1nat
            } else {
                0nat
            }
        }),
{
    let action = after(run, events.drop_last()).transition(events.last()).1;
    let before = asked(run, events.drop_last());
    lemma_filter_push(before, action, |action: ActionView| is_request(action));
    lemma_filter_push(before, action, |action: ActionView| is_ending(action));
}

/// The requests of a run up to its current turn.
pub open spec fn turns_requested(run: RunView) -> nat {
    if run.in_turn() && run.phase != Phase::Connecting {
        run.iteration + 1
    } else {
        run.iteration
    }
}

proof fn lemma_requests_follow_turns(
    id: Seq<char>,
    delegation: DelegationView,
    events: Seq<EventView>,
)
    requires
        admitted(RunView::initial(id, delegation), events),
    ensures
        ({
            let start = RunView::initial(id, delegation);
            let run = after(start, events);
            &&& run.phase != Phase::Finished ==> requests(start, events) == turns_requested(run)
            &&& requests(start, events) <= MAX_ITERATIONS
        }),
    decreases events.len(),
{
    let start = RunView::initial(id, delegation);
    if events.len() > 0 {
        lemma_requests_follow_turns(id, delegation, events.drop_last());
        law_runs_stay_well_formed(start, events.drop_last());
        lemma_counts_after(start, events);
    } else {
        reveal(Seq::filter);
    }
}

/// A run asks for at most as many completions as the limit on turns allows.
pub proof fn law_requests_are_bounded(
    id: Seq<char>,
    delegation: DelegationView,
    events: Seq<EventView>,
)
    requires
        admitted(RunView::initial(id, delegation), events),
    ensures
        requests(RunView::initial(id, delegation), events) <= MAX_ITERATIONS,
{
    lemma_requests_follow_turns(id, delegation, events);
}

/// A run ends once: it has asked for exactly one ending where it is over and for none
/// where it is not, and a run that is over takes no further event.
pub proof fn law_runs_end_once(id: Seq<char>, delegation: DelegationView, events: Seq<EventView>)
    requires
        admitted(RunView::initial(id, delegation), events),
    ensures
        ({
            let start = RunView::initial(id, delegation);
            let run = after(start, events);
            &&& endings(start, events) == if run.phase == Phase::Finished {
                1nat
            } else {
                0nat
            }
            &&& run.phase == Phase::Finished ==> forall|event: EventView| !run.accepts(event)
            &&& run.phase == Phase::Finished ==> is_ending(asked(start, events).last())
        }),
    decreases events.len(),
{
    let start = RunView::initial(id, delegation);
    if events.len() > 0 {
        law_runs_end_once(id, delegation, events.drop_last());
        lemma_counts_after(start, events);
    } else {
        reveal(Seq::filter);
    }
}

/// What a run tells the user interface at its end is either a failure or its report, and
/// names the tool call that started it, and the `Task` tool.
pub proof fn law_endings_name_the_call(run: RunView, event: EventView)
    requires
        run.accepts(event),
    ensures
        run.transition(event).1 matches ActionView::Finish(notice) ==> match notice {
            ToolEventView::Failed { id, name, .. } => id == run.id && name == "Task"@,
            ToolEventView::Completed { id, name, output, success } => id == run.id && name
                == "Task"@ && output == run.transition(event).0.report() && success,
            _ => false,
        },
{
}

/// Whether a todo list could be announced makes no difference to the run: the tool is
/// executed either way.
pub proof fn law_todo_delivery_does_not_matter(run: RunView)
    requires
        run.phase == Phase::Announcing,
    ensures
        run.transition(EventView::Announced { delivered: false }) == run.transition(
            EventView::Announced { delivered: true },
        ),
        run.transition(EventView::Announced { delivered: false }).1 == ActionView::ExecuteTool,
{
}

/// Whether no tool is the one that starts subagents.
pub open spec fn none_delegates(tools: Seq<ToolDefinitionView>) -> bool {
    forall|i: int| 0 <= i < tools.len() ==> !names_task((#[trigger] tools[i]).name)
}

/// A subagent is never offered the tool that starts subagents.
pub proof fn law_no_nested_delegation(
    id: Seq<char>,
    delegation: DelegationView,
    events: Seq<EventView>,
)
    ensures
        none_delegates(after(RunView::initial(id, delegation), events).tools),
    decreases events.len(),
{
    if events.len() > 0 {
        law_no_nested_delegation(id, delegation, events.drop_last());
        broadcast use vstd::seq_lib::group_filter_ensures;

    }
}

/// The pieces of text among the events of a response, in order.
pub open spec fn streamed_text(events: Seq<EventView>) -> Seq<char>
    decreases events.len(),
{
    if events.len() == 0 {
        Seq::empty()
    } else {
        match events.last() {
            EventView::Stream(StreamOutcomeView::Delta { text }) => streamed_text(
                events.drop_last(),
            ) + text,
            _ => streamed_text(events.drop_last()),
        }
    }
}

/// The tool calls among the events of a response, in order, with their arguments parsed;
/// arguments that are not JSON count as the object without members.
pub open spec fn streamed_calls(events: Seq<EventView>) -> Seq<RequestedCallView>
    decreases events.len(),
{
    if events.len() == 0 {
        Seq::empty()
    } else {
        match events.last() {
            EventView::Stream(
                StreamOutcomeView::ToolCall { id, name, arguments },
            ) => streamed_calls(events.drop_last()).push(
                RequestedCallView {
                    id,
                    name,
                    arguments: match json_parse(arguments) {
                        Some(document) => document,
                        None => Json::Object(Map::empty()),
                    },
                },
            ),
            _ => streamed_calls(events.drop_last()),
        }
    }
}

/// Whether an event leaves the response open.
pub open spec fn keeps_streaming(event: EventView) -> bool {
    match event {
        EventView::Stream(StreamOutcomeView::Delta { .. }) => true,
        EventView::Stream(StreamOutcomeView::ToolCall { .. }) => true,
        EventView::Stream(StreamOutcomeView::Other) => true,
        _ => false,
    }
}

/// A run collects the text and the tool calls of a response in the order in which they
/// come, however they are mixed, and nothing else of it changes meanwhile.
pub proof fn law_responses_are_collected_in_order(run: RunView, events: Seq<EventView>)
    requires
        run.phase == Phase::Streaming,
        forall|i: int| 0 <= i < events.len() ==> keeps_streaming(#[trigger] events[i]),
    ensures
        admitted(run, events),
        after(run, events) == (RunView {
            content: run.content + streamed_text(events),
            calls: run.calls + streamed_calls(events),
            ..run
        }),
    decreases events.len(),
{
    if events.len() > 0 {
        let before = events.drop_last();
        assert forall|i: int| 0 <= i < before.len() implies keeps_streaming(
            #[trigger] before[i],
        ) by {
            assert(before[i] == events[i]);
        }
        law_responses_are_collected_in_order(run, before);
        assert(keeps_streaming(events[events.len() - 1]));
    }
    assert(after(run, events).content =~= run.content + streamed_text(events));
    assert(after(run, events).calls =~= run.calls + streamed_calls(events));
}

/// How far a turn of a run is from its end.
pub open spec fn stages_left(run: RunView) -> nat {
    match run.phase {
        Phase::Starting => 6,
        Phase::Preparing => 5,
        Phase::Connecting => 4,
        Phase::Requesting => 3,
        Phase::Streaming => 2,
        Phase::Announcing => 1,
        Phase::Executing => 1,
        Phase::Finished => 0,
    }
}

/// How many steps the calls of the current turn may still take.
pub open spec fn call_steps_left(run: RunView) -> int {
    if run.phase == Phase::Announcing {
        2 * (run.calls.len() - run.replies.len())
    } else if run.phase == Phase::Executing {
        2 * (run.calls.len() - run.replies.len()) - 1
    } else {
        0
    }
}

/// Every event brings a run closer to its end, but for those that leave a response
/// open: a run over responses that end, ends.
pub proof fn law_runs_make_progress(run: RunView, event: EventView)
    requires
        run.well_formed(),
        run.accepts(event),
        !keeps_streaming(event),
    ensures
        ({
            let next = run.transition(event).0;
            decreases_to!(
                MAX_ITERATIONS - run.iteration,
                stages_left(run),
                call_steps_left(run)
                => MAX_ITERATIONS - next.iteration,
                stages_left(next),
                call_steps_left(next)
            )
        }),
{
}

/// Whether a message is the reply to a call with this id.
pub open spec fn replies_to(message: MessageView, call_id: Seq<char>) -> bool {
    message matches MessageView::ToolResult { call_id: answered, .. } && answered == call_id
}

/// Whether the message at a place of a conversation stands where it may: the system
/// prompt first, the user's prompt second, after an assistant's message the replies to
/// its calls, one each and in order, and a reply nowhere else.
pub open spec fn well_placed(messages: Seq<MessageView>, i: int) -> bool {
    match messages[i] {
        MessageView::System(_) => i == 0,
        MessageView::User(_) => i == 1,
        MessageView::Assistant { tool_calls, .. } => {
            &&& 1 <= tool_calls.len()
            &&& i + tool_calls.len() < messages.len()
            &&& forall|k: int|
                0 <= k < tool_calls.len() ==> replies_to(
                    messages[i + 1 + k],
                    (#[trigger] tool_calls[k]).id,
                )
        },
        MessageView::ToolResult { .. } => exists|j: int|
            #![trigger messages[j]]
            0 <= j < i && messages[j] is Assistant && i - j
                <= messages[j]->Assistant_tool_calls.len(),
    }
}

/// Whether every message of a conversation stands where it may.
pub open spec fn answered(messages: Seq<MessageView>) -> bool {
    forall|i: int| 0 <= i < messages.len() ==> #[trigger] well_placed(messages, i)
}

/// The number of replies to tool calls in a conversation.
pub open spec fn reply_count(messages: Seq<MessageView>) -> nat {
    messages.filter(|message: MessageView| message is ToolResult).len()
}

/// Whether a run's conversation is in order: it opens with the system prompt and the
/// user's prompt, every tool call in it is answered, and there is one record for each
/// reply, given or about to be given.
pub open spec fn conversation_in_order(run: RunView) -> bool {
    &&& run.messages.len() > 0 ==> {
        &&& run.messages.len() >= 2
        &&& run.messages[0] == MessageView::System(
            system_prompt_text(run.delegation.subagent_type, run.delegation.description),
        )
        &&& run.messages[1] == MessageView::User(run.delegation.prompt)
    }
    &&& run.in_turn() ==> run.messages.len() > 0
    &&& answered(run.messages)
    &&& run.in_calls() ==> forall|k: int|
        0 <= k < run.replies.len() ==> (#[trigger] run.replies[k]).call_id == run.calls[k].id
    &&& run.executed.len() == reply_count(run.messages) + if run.in_calls() {
        run.replies.len()
    } else {
        0
    }
    &&& run.phase == Phase::Starting || run.phase == Phase::Preparing ==> run.executed.len() == 0
        && run.messages.len() == 0
}

proof fn lemma_replies_are_results(replies: Seq<ToolReplyView>)
    ensures
        reply_count(replies.map_values(|reply: ToolReplyView| reply.message())) == replies.len(),
    decreases replies.len(),
{
    reveal(Seq::filter);
    let messages = replies.map_values(|reply: ToolReplyView| reply.message());
    if replies.len() > 0 {
        let before = replies.drop_last();
        lemma_replies_are_results(before);
        assert(messages.drop_last() =~= before.map_values(
            |reply: ToolReplyView| reply.message(),
        ));
    }
}

/// A turn that joins a conversation adds one reply for each of its calls.
proof fn lemma_turn_replies(run: RunView)
    ensures
        reply_count(run.messages + run.turn_messages()) == reply_count(run.messages)
            + run.replies.len(),
{
    let is_reply = |message: MessageView| message is ToolResult;
    let assistant = MessageView::Assistant {
        text: run.content,
        tool_calls: run.calls.map_values(|call: RequestedCallView| call.tool_call()),
    };
    let replies = run.replies.map_values(|reply: ToolReplyView| reply.message());
    assert(run.messages + run.turn_messages() =~= run.messages.push(assistant) + replies);
    Seq::filter_distributes_over_add(run.messages.push(assistant), replies, is_reply);
    lemma_filter_push(run.messages, assistant, is_reply);
    lemma_replies_are_results(run.replies);
}

/// A turn whose calls are all executed keeps a conversation answered.
proof fn lemma_turn_is_answered(run: RunView)
    requires
        run.messages.len() >= 2,
        answered(run.messages),
        run.calls.len() >= 1,
        run.replies.len() == run.calls.len(),
        forall|k: int|
            0 <= k < run.replies.len() ==> (#[trigger] run.replies[k]).call_id == run.calls[k].id,
    ensures
        answered(run.messages + run.turn_messages()),
{
    let old_messages = run.messages;
    let messages = run.messages + run.turn_messages();
    let n = old_messages.len() as int;
    let tool_calls = run.calls.map_values(|call: RequestedCallView| call.tool_call());
    assert(messages[n] == MessageView::Assistant { text: run.content, tool_calls });
    assert forall|k: int| 0 <= k < run.replies.len() implies messages[n + 1 + k]
        == #[trigger] run.replies[k].message() by {}
    assert forall|i: int| 0 <= i < messages.len() implies #[trigger] well_placed(messages, i) by {
        if i < n {
            assert(well_placed(old_messages, i));
            assert(messages[i] == old_messages[i]);
            if let MessageView::Assistant { tool_calls: calls, .. } = old_messages[i] {
                assert forall|k: int| 0 <= k < calls.len() implies replies_to(
                    messages[i + 1 + k],
                    (#[trigger] calls[k]).id,
                ) by {
                    assert(replies_to(old_messages[i + 1 + k], calls[k].id));
                }
            }
            if old_messages[i] is ToolResult {
                let j = choose|j: int|
                    #![trigger old_messages[j]]
                    0 <= j < i && old_messages[j] is Assistant && i - j
                        <= old_messages[j]->Assistant_tool_calls.len();
                assert(messages[j] == old_messages[j]);
            }
        } else if i == n {
            assert forall|k: int| 0 <= k < tool_calls.len() implies replies_to(
                messages[i + 1 + k],
                (#[trigger] tool_calls[k]).id,
            ) by {
                assert(messages[n + 1 + k] == run.replies[k].message());
                assert(tool_calls[k].id == run.calls[k].id);
            }
        } else {
            assert(messages[n + 1 + (i - n - 1)] == run.replies[i - n - 1].message());
            assert(messages[n] is Assistant);
        }
    }
}

proof fn lemma_step_keeps_conversation(run: RunView, event: EventView)
    requires
        run.well_formed(),
        conversation_in_order(run),
        run.accepts(event),
    ensures
        conversation_in_order(run.transition(event).0),
{
    let next = run.transition(event).0;
    match event {
        EventView::Prepared { definitions, model } => {
            let is_reply = |message: MessageView| message is ToolResult;
            let none = Seq::<MessageView>::empty();
            lemma_filter_push(none, next.messages[0], is_reply);
            lemma_filter_push(none.push(next.messages[0]), next.messages[1], is_reply);
            assert(next.messages =~= none.push(next.messages[0]).push(next.messages[1]));
            assert(none.filter(is_reply).len() == 0) by {
                reveal(Seq::filter);
            }
        },
        EventView::Tool(outcome) => {
            let told = RunView {
                executed: run.executed.push(outcome.record(run.call().name)),
                replies: run.replies.push(
                    ToolReplyView {
                        call_id: run.call().id,
                        output: outcome.reply(run.call().name),
                    },
                ),
                ..run
            };
            assert forall|k: int| 0 <= k < told.replies.len() implies (
            #[trigger] told.replies[k]).call_id == told.calls[k].id by {
                if k < run.replies.len() {
                    assert(told.replies[k] == run.replies[k]);
                }
            }
            if told.replies.len() == told.calls.len() {
                lemma_turn_replies(told);
                lemma_turn_is_answered(told);
            }
        },
        _ => {},
    }
}

/// The conversation of a run is always in order: the prompts open it, every tool call
/// in it is answered by exactly one reply in the order of the calls, and there are as
/// many records of executed calls as replies.
pub proof fn law_conversations_stay_in_order(
    id: Seq<char>,
    delegation: DelegationView,
    events: Seq<EventView>,
)
    requires
        admitted(RunView::initial(id, delegation), events),
    ensures
        conversation_in_order(after(RunView::initial(id, delegation), events)),
    decreases events.len(),
{
    let start = RunView::initial(id, delegation);
    if events.len() > 0 {
        law_conversations_stay_in_order(id, delegation, events.drop_last());
        law_runs_stay_well_formed(start, events.drop_last());
        lemma_step_keeps_conversation(after(start, events.drop_last()), events.last());
    } else {
        reveal(Seq::filter);
    }
}

/// A conversation only grows: what was said before the current turn stays as it is.
pub proof fn law_conversations_only_grow(run: RunView, event: EventView)
    requires
        run.in_turn(),
        run.accepts(event),
    ensures
        run.messages.is_prefix_of(run.transition(event).0.messages),
        run.executed.is_prefix_of(run.transition(event).0.executed),
        run.transition(event).0.tools == run.tools,
        run.transition(event).0.model == run.model,
{
}

/// The text that stands in for a blank last answer after tool calls is not blank.
proof fn lemma_closing_content_is_not_blank(executed: nat, content: Seq<char>)
    requires
        executed > 0,
    ensures
        !blank(closing_content(executed, content)),
{
    reveal_strlit("Task completed with ");
    let text = closing_content(executed, content);
    if blank(content) {
        assert(text[0] == 'T');
        assert(!is_white_space(text[0]));
    }
}

/// A run that completes after tool calls without any text to report has used up all of
/// its turns: a model that stops calling tools always leaves a report with content.
pub proof fn law_no_summary_only_at_the_turn_limit(run: RunView, event: EventView)
    requires
        run.well_formed(),
        run.accepts(event),
    ensures
        ({
            let (next, action) = run.transition(event);
            (action matches ActionView::Finish(notice) && notice is Completed) && next.executed.len()
                > 0 && blank(next.final_content) ==> next.iteration == MAX_ITERATIONS
        }),
{
    if run.executed.len() > 0 {
        lemma_closing_content_is_not_blank(run.executed.len(), run.content);
    }
}

} // verus!
