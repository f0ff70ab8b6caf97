use serde_json::Value;
use subagent::chat::{
    is_task_name, offered_tools, FunctionCall, RequestedCall, ToolCall, ToolDefinition,
};
use subagent::json::{items_member, or_empty_object, parse_arguments, text_member};
use subagent::todo::{announcement, list_items, read_entries, read_entry, Todo, TodoEntry};

fn json(text: &str) -> Value {
    serde_json::from_str(text).unwrap()
}

fn tool(name: &str) -> ToolDefinition {
    ToolDefinition {
        name: name.to_string(),
        description: format!("the {} tool", name),
        parameters: json(r#"{"type":"object"}"#),
    }
}

fn todo(content: &str, status: &str) -> Todo {
    Todo { content: content.to_string(), status: status.to_string() }
}

fn entry(content: Option<&str>, status: Option<&str>) -> TodoEntry {
    TodoEntry { content: content.map(str::to_string), status: status.map(str::to_string) }
}

#[test]
fn the_task_tool_is_not_offered_in_any_case() {
    let names = ["Read", "Task", "TASK", "task", "tAsK", "Tas\u{212a}", "Tasks", "SubTask", "Edit"];
    let tools = offered_tools(names.iter().map(|n| tool(n)).collect());
    let kept: Vec<&str> = tools.iter().map(|t| t.name.as_str()).collect();
    assert_eq!(kept, ["Read", "Tasks", "SubTask", "Edit"]);
    assert_eq!(tools[0], tool("Read"));
    assert_eq!(offered_tools(vec![]), vec![]);
}

#[test]
fn only_the_lowercase_name_is_that_of_the_task_tool() {
    assert!(is_task_name("task"));
    assert!(!is_task_name("Task"));
    assert!(!is_task_name("tasks"));
    assert!(!is_task_name(""));
}

#[test]
fn members_are_read_by_kind() {
    let value = json(r#"{"a":"x","b":[1,2],"c":null}"#);
    assert_eq!(text_member(&value, "a"), Some("x"));
    assert_eq!(text_member(&value, "b"), None);
    assert_eq!(text_member(&value, "c"), None);
    assert_eq!(text_member(&value, "d"), None);
    assert_eq!(items_member(&value, "b").map(|items| items.len()), Some(2));
    assert_eq!(items_member(&value, "a"), None);
    assert_eq!(text_member(&json("[\"a\"]"), "a"), None);
    assert_eq!(text_member(&json("\"a\""), "a"), None);
}

#[test]
fn arguments_that_are_no_json_are_empty() {
    assert_eq!(parse_arguments(r#"{"path":"a.rs"}"#), json(r#"{"path":"a.rs"}"#));
    assert_eq!(parse_arguments(""), json("{}"));
    assert_eq!(parse_arguments("{\"path\":"), json("{}"));
    assert_eq!(parse_arguments("{} x"), json("{}"));
    assert_eq!(parse_arguments(" 7 "), json("7"));
    assert_eq!(or_empty_object(None), json("{}"));
    assert_eq!(or_empty_object(Some(json("[1]"))), json("[1]"));
}

#[test]
fn calls_are_written_with_compact_arguments() {
    let call = RequestedCall::parsed(
        "id".to_string(),
        "Read".to_string(),
        "{ \"path\" : \"a.rs\", \"line\": 3 }",
    );
    assert_eq!(call.arguments, json(r#"{"path":"a.rs","line":3}"#));
    assert_eq!(
        call.tool_call(),
        ToolCall {
            id: "id".to_string(),
            call_type: "function".to_string(),
            function: FunctionCall {
                name: "Read".to_string(),
                arguments: r#"{"line":3,"path":"a.rs"}"#.to_string(),
            },
        }
    );
    let call = RequestedCall::parsed("id".to_string(), "Read".to_string(), "not json");
    assert_eq!(call.tool_call().function.arguments, "{}");
    assert_eq!(
        ToolCall::function("i".to_string(), "n".to_string(), "a".to_string()).call_type,
        "function"
    );
}

#[test]
fn todo_entries_keep_their_strings() {
    assert_eq!(
        read_entry(&json(r#"{"content":"write","status":"completed"}"#)),
        entry(Some("write"), Some("completed"))
    );
    assert_eq!(read_entry(&json(r#"{"content":7}"#)), entry(None, None));
    assert_eq!(read_entry(&json("\"write\"")), entry(None, None));
    assert_eq!(
        read_entries(&json(r#"{"todos":[{"content":"a"},{}]}"#)),
        Some(vec![entry(Some("a"), None), entry(None, None)])
    );
    assert_eq!(read_entries(&json(r#"{"todos":{}}"#)), None);
    assert_eq!(read_entries(&json("{}")), None);
}

#[test]
fn todo_items_need_content_and_are_pending_by_default() {
    assert_eq!(
        list_items(vec![
            entry(Some("a"), None),
            entry(None, Some("completed")),
            entry(Some("b"), Some("in_progress")),
            entry(Some(""), None),
        ]),
        vec![todo("a", "pending"), todo("b", "in_progress"), todo("", "pending")]
    );
    assert_eq!(entry(None, None).item(), None);
}

#[test]
fn only_todo_write_with_items_announces() {
    let args = json(r#"{"todos":[{"content":"a","status":"completed"},7]}"#);
    assert_eq!(announcement("TodoWrite", &args), Some(vec![todo("a", "completed")]));
    assert_eq!(announcement("todowrite", &args), None);
    assert_eq!(announcement("Read", &args), None);
    assert_eq!(announcement("TodoWrite", &json(r#"{"todos":[]}"#)), None);
    assert_eq!(announcement("TodoWrite", &json(r#"{"todos":[{"status":"x"}]}"#)), None);
    assert_eq!(announcement("TodoWrite", &json("{}")), None);
}
