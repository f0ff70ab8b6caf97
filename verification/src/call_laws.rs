//! Laws of calls: what the JSON arguments of a tool call come to, told from the documents
//! themselves.

use crate::chat::{offered, MessageView, RequestedCallView, ToolCallView, ToolDefinitionView};
use crate::json::{arguments_or_empty, json_parse, json_print, Json};
use crate::laws::after;
use crate::protocol::{ActionView, EventView, ToolEventView};
use crate::report::GUIDANCE;
use crate::run::RunView;
use crate::spawn::{EventLoop, PendingToolResultView, SpawnView, SubagentTaskDisplayView};
use crate::task::{DelegationView, TaskArgumentsView};
use crate::text::{lemma_filter_push, lowercase};
use crate::todo::{announced_todos, listed, TodoView};
use vstd::prelude::*;

verus! {

/// Whether a document is an object with the string `text` under `key`.
pub open spec fn holds_text(document: Json, key: Seq<char>, text: Seq<char>) -> bool {
    document matches Json::Object(members) && members.dom().contains(key) && members[key]
        == Json::Text(text)
}

/// Whether a document is an object with some string under `key`.
pub open spec fn holds_some_text(document: Json, key: Seq<char>) -> bool {
    exists|text: Seq<char>| holds_text(document, key, text)
}

/// Whether a document is an object with the array `items` under `key`.
pub open spec fn holds_items(document: Json, key: Seq<char>, items: Seq<Json>) -> bool {
    document matches Json::Object(members) && members.dom().contains(key) && members[key]
        == Json::List(items)
}

/// Whether `found` is the string under `key` of a document, or nothing where there is
/// none.
pub open spec fn reads(document: Json, key: Seq<char>, found: Option<Seq<char>>) -> bool {
    match found {
        Some(text) => holds_text(document, key, text),
        None => !holds_some_text(document, key),
    }
}

/// A member is read as a string exactly where it is one, and then whole.
pub proof fn law_strings_are_read_whole(document: Json, key: Seq<char>)
    ensures
        reads(document, key, document.text_member(key)),
{
    if let Some(text) = document.text_member(key) {
        assert(holds_text(document, key, text));
    } else {
        assert forall|text: Seq<char>| !holds_text(document, key, text) by {}
    }
}

/// What is read under a key is determined by the document.
proof fn lemma_reads_once(
    document: Json,
    key: Seq<char>,
    one: Option<Seq<char>>,
    other: Option<Seq<char>>,
)
    requires
        reads(document, key, one),
        reads(document, key, other),
    ensures
        one == other,
{
    if let Some(text) = one {
        assert(holds_text(document, key, text));
    }
    if let Some(text) = other {
        assert(holds_text(document, key, text));
    }
}

/// A call of the `Task` tool, from its arguments to the run.
///
/// The instructions are the string under `prompt`, else that under `task`, with the string
/// under `context` after them. Where there are none the call is refused, and likewise where
/// a service is missing. Otherwise a run is started whose prompt they are, with the string
/// under `description` and `subagent_type`, else that under `agent`, else a default, as its
/// description and kind; and once it is prepared, its conversation opens with them.
pub proof fn law_calls_reach_the_run(
    event_loop: EventLoop,
    id: Seq<char>,
    arguments: Json,
    agent: Option<Seq<char>>,
    task: Option<Seq<char>>,
    context: Option<Seq<char>>,
    description: Option<Seq<char>>,
    prompt: Option<Seq<char>>,
    subagent_type: Option<Seq<char>>,
    definitions: Seq<ToolDefinitionView>,
    model: Seq<char>,
)
    requires
        reads(arguments, "agent"@, agent),
        reads(arguments, "task"@, task),
        reads(arguments, "context"@, context),
        reads(arguments, "description"@, description),
        reads(arguments, "prompt"@, prompt),
        reads(arguments, "subagent_type"@, subagent_type),
    ensures
        ({
            let instructions = if prompt is Some {
                prompt
            } else {
                task
            };
            let asked = match (instructions, context) {
                (None, _) => Seq::<char>::empty(),
                (Some(text), None) => text,
                (Some(text), Some(more)) => text + "\n\nContext: "@ + more,
            };
            let what = match (description, agent) {
                (Some(text), _) => text,
                (None, Some(text)) => text,
                (None, None) => "Subagent task"@,
            };
            let kind = match (subagent_type, agent) {
                (Some(text), _) => text,
                (None, Some(text)) => text,
                (None, None) => "code"@,
            };
            let delegation = DelegationView {
                description: what,
                prompt: asked,
                subagent_type: kind,
            };
            let outcome = event_loop.spawn(id, arguments.task_arguments().delegation());
            &&& arguments.task_arguments() == (TaskArgumentsView {
                agent,
                task,
                context,
                description,
                prompt,
                subagent_type,
            })
            &&& arguments.task_arguments().delegation() == delegation
            &&& if asked.len() == 0 {
                outcome == SpawnView::Refused(
                    PendingToolResultView {
                        id,
                        name: "Task"@,
                        output:
                            "Task tool requires a 'task' or 'prompt' parameter with instructions for the subagent."@,
                        success: false,
                    },
                )
            } else if !event_loop.has_tool_registry {
                outcome == SpawnView::Refused(
                    PendingToolResultView {
                        id,
                        name: "Task"@,
                        output: "Tool registry not available for subagent."@,
                        success: false,
                    },
                )
            } else if !event_loop.has_provider_manager {
                outcome == SpawnView::Refused(
                    PendingToolResultView {
                        id,
                        name: "Task"@,
                        output: "Provider not configured for subagent."@,
                        success: false,
                    },
                )
            } else {
                &&& outcome matches SpawnView::Started { display, run, first_action }
                &&& display == SubagentTaskDisplayView {
                    session_id: "subagent_"@ + id,
                    tool_call_id: id,
                    description: what,
                    subagent_type: kind,
                }
                &&& first_action == ActionView::Announce(
                    ToolEventView::Started { id, name: "Task"@ },
                )
                &&& run == RunView::initial(id, delegation)
                &&& run.id == id
                &&& run.delegation.prompt == asked
                &&& run.delegation.description == what
                &&& run.delegation.subagent_type == kind
                &&& after(
                    run,
                    seq![
                        EventView::Announced { delivered: true },
                        EventView::Prepared { definitions, model },
                    ],
                ).messages == seq![
                    MessageView::System(
                        "You are a specialized "@ + kind + " subagent working on: "@ + what
                            + GUIDANCE@,
                    ),
                    MessageView::User(asked),
                ]
            }
        }),
{
    law_strings_are_read_whole(arguments, "agent"@);
    law_strings_are_read_whole(arguments, "task"@);
    law_strings_are_read_whole(arguments, "context"@);
    law_strings_are_read_whole(arguments, "description"@);
    law_strings_are_read_whole(arguments, "prompt"@);
    law_strings_are_read_whole(arguments, "subagent_type"@);
    lemma_reads_once(arguments, "agent"@, agent, arguments.text_member("agent"@));
    lemma_reads_once(arguments, "task"@, task, arguments.text_member("task"@));
    lemma_reads_once(arguments, "context"@, context, arguments.text_member("context"@));
    lemma_reads_once(arguments, "description"@, description, arguments.text_member("description"@));
    lemma_reads_once(arguments, "prompt"@, prompt, arguments.text_member("prompt"@));
    lemma_reads_once(
        arguments,
        "subagent_type"@,
        subagent_type,
        arguments.text_member("subagent_type"@),
    );
    let delegation = arguments.task_arguments().delegation();
    let run = RunView::initial(id, delegation);
    let announced = EventView::Announced { delivered: true };
    let prepared = EventView::Prepared { definitions, model };
    let both = seq![announced, prepared];
    assert(both.drop_last() =~= seq![announced]);
    assert(seq![announced].drop_last() =~= Seq::empty());
    assert(after(run, Seq::empty()) == run);
    assert(after(run, seq![announced]) == run.transition(announced).0);
    assert(after(run, both) == after(run, seq![announced]).transition(prepared).0);
    assert(after(run, both).messages[1] == MessageView::User(delegation.prompt));
}

/// Whether `todo` is what an item of an array says: its content, and its status, which is
/// pending where the item says nothing.
pub open spec fn shows_item(todo: TodoView, item: Json) -> bool {
    &&& holds_text(item, "content"@, todo.content)
    &&& if holds_some_text(item, "status"@) {
        holds_text(item, "status"@, todo.status)
    } else {
        todo.status == "pending"@
    }
}

/// The items of an array that have a string as their content, in order.
pub open spec fn items_with_content(items: Seq<Json>) -> Seq<Json> {
    items.filter(|item: Json| holds_some_text(item, "content"@))
}

/// Whether a todo list shows an array: one todo for each item that has a string as its
/// content, in the order of the array.
pub open spec fn shows_items(todos: Seq<TodoView>, items: Seq<Json>) -> bool {
    &&& todos.len() == items_with_content(items).len()
    &&& forall|k: int|
        0 <= k < todos.len() ==> shows_item(#[trigger] todos[k], items_with_content(items)[k])
}

proof fn lemma_listed_shows_items(items: Seq<Json>)
    ensures
        shows_items(listed(items.map_values(|item: Json| item.todo_entry())), items),
    decreases items.len(),
{
    let has_content = |item: Json| holds_some_text(item, "content"@);
    let read = |item: Json| item.todo_entry();
    let entries = items.map_values(read);
    reveal(Seq::filter_map);
    if items.len() == 0 {
        reveal(Seq::filter);
    } else {
        let before = items.drop_last();
        let item = items.last();
        lemma_listed_shows_items(before);
        lemma_filter_push(before, item, has_content);
        assert(items =~= before.push(item));
        assert(entries.drop_last() =~= before.map_values(read));
        assert(entries.last() == item.todo_entry());
        law_strings_are_read_whole(item, "content"@);
        law_strings_are_read_whole(item, "status"@);
        let shown = listed(before.map_values(read));
        let todos = listed(entries);
        if let Some(todo) = item.todo_entry().item() {
            assert(todos =~= shown.push(todo));
            assert(holds_text(item, "content"@, todo.content));
            if holds_some_text(item, "status"@) {
                assert(holds_text(item, "status"@, todo.status));
            }
            assert(items_with_content(items) == items_with_content(before).push(item));
            assert forall|k: int| 0 <= k < todos.len() implies shows_item(
                #[trigger] todos[k],
                items_with_content(items)[k],
            ) by {
                if k < shown.len() {
                    assert(shows_item(shown[k], items_with_content(before)[k]));
                }
            }
        } else {
            assert(todos =~= shown);
        }
    }
}

/// The todo list that a call announces shows the array under `todos` of its arguments, no
/// item with content left out. A list is announced exactly by calls of `TodoWrite` whose
/// array has such an item.
pub proof fn law_todo_lists_are_announced_whole(name: Seq<char>, arguments: Json, items: Seq<Json>)
    requires
        holds_items(arguments, "todos"@, items),
    ensures
        announced_todos(name, arguments) is Some <==> name == "TodoWrite"@ && items_with_content(
            items,
        ).len() > 0,
        announced_todos(name, arguments) matches Some(todos) ==> shows_items(todos, items),
{
    lemma_listed_shows_items(items);
}

/// A call without an array under `todos` announces nothing.
pub proof fn law_calls_without_a_list_announce_nothing(name: Seq<char>, arguments: Json)
    requires
        forall|items: Seq<Json>| !holds_items(arguments, "todos"@, items),
    ensures
        announced_todos(name, arguments) is None,
{
    if let Some(items) = arguments.items_member("todos"@) {
        assert(holds_items(arguments, "todos"@, items));
    }
}

/// A requested call keeps its id and its name; its arguments are the parsed document, or
/// the object without members where the text is not JSON.
pub proof fn law_requested_calls_are_kept(id: Seq<char>, name: Seq<char>, arguments: Seq<char>)
    ensures
        ({
            let call = RequestedCallView::parsed(id, name, arguments);
            &&& call.id == id
            &&& call.name == name
            &&& json_parse(arguments) matches Some(document) ==> call.arguments == document
            &&& json_parse(arguments) is None ==> call.arguments == Json::Object(Map::empty())
        }),
        arguments_or_empty(json_parse(arguments)) == RequestedCallView::parsed(
            id,
            name,
            arguments,
        ).arguments,
{
}

/// A call is written into the conversation as a function call of the same id and name,
/// with its whole arguments as JSON text.
pub proof fn law_calls_are_written_whole(call: RequestedCallView)
    ensures
        call.tool_call() == (ToolCallView {
            id: call.id,
            call_type: "function"@,
            name: call.name,
            arguments: json_print(call.arguments),
        }),
{
}

/// All tools are offered, in the given order and as they were defined, but those whose name
/// in lowercase is `task`.
pub proof fn law_all_other_tools_are_offered(definitions: Seq<ToolDefinitionView>)
    ensures
        offered(definitions) == definitions.filter(
            |tool: ToolDefinitionView| lowercase(tool.name) != "task"@,
        ),
{
    let keep = |tool: ToolDefinitionView| lowercase(tool.name) != "task"@;
    lemma_offered(definitions, keep);
}

proof fn lemma_offered(
    definitions: Seq<ToolDefinitionView>,
    keep: spec_fn(ToolDefinitionView) -> bool,
)
    requires
        forall|tool: ToolDefinitionView| #[trigger] keep(tool) == (lowercase(tool.name) != "task"@),
    ensures
        offered(definitions) == definitions.filter(keep),
    decreases definitions.len(),
{
    reveal(Seq::filter);
    if definitions.len() > 0 {
        lemma_offered(definitions.drop_last(), keep);
    }
}

} // verus!
