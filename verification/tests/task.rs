use serde_json::Value;
use subagent::command::{CommandExecutor, CommandResult, ModalType, ParsedCommand};
use subagent::protocol::{Action, ToolEvent};
use subagent::run::Phase;
use subagent::spawn::{EventLoop, PendingToolResult, Spawn, SubagentTaskDisplay};
use subagent::task::{Delegation, TaskArguments};

fn json(text: &str) -> Value {
    serde_json::from_str(text).unwrap()
}

fn delegation(description: &str, prompt: &str, subagent_type: &str) -> Delegation {
    Delegation {
        description: description.to_string(),
        prompt: prompt.to_string(),
        subagent_type: subagent_type.to_string(),
    }
}

fn asked_for(text: &str) -> Delegation {
    TaskArguments::read(&json(text)).delegation()
}

fn ready() -> EventLoop {
    EventLoop { has_tool_registry: true, has_provider_manager: true }
}

fn refusal(event_loop: EventLoop, args: &str) -> PendingToolResult {
    match event_loop.spawn_subagent("call_1".to_string(), &json(args)) {
        Spawn::Refused(result) => result,
        Spawn::Started { .. } => panic!("started"),
    }
}

fn refused_with(reason: &str) -> PendingToolResult {
    PendingToolResult {
        id: "call_1".to_string(),
        name: "Task".to_string(),
        output: reason.to_string(),
        success: false,
    }
}

#[test]
fn mcp_command_opens_the_panel_whatever_its_arguments() {
    let executor = CommandExecutor {};
    for args in [vec![], vec!["list".to_string()], vec!["add".to_string(), "x".to_string()]] {
        let cmd = ParsedCommand { name: "mcp".to_string(), args };
        assert_eq!(executor.cmd_mcp(&cmd), CommandResult::OpenModal(ModalType::McpManager));
    }
}

#[test]
fn arguments_of_the_api_format() {
    assert_eq!(
        asked_for(r#"{"agent":"research","task":"find it","context":"in src"}"#),
        delegation("research", "find it\n\nContext: in src", "research")
    );
    assert_eq!(
        asked_for(r#"{"agent":"research","task":"find it"}"#),
        delegation("research", "find it", "research")
    );
}

#[test]
fn arguments_of_the_internal_format() {
    assert_eq!(
        asked_for(r#"{"description":"Find","prompt":"find it","subagent_type":"explore"}"#),
        delegation("Find", "find it", "explore")
    );
}

#[test]
fn both_formats_agree() {
    assert_eq!(
        asked_for(r#"{"agent":"a","task":"t","context":"c"}"#),
        asked_for(r#"{"description":"a","prompt":"t\n\nContext: c","subagent_type":"a"}"#)
    );
}

#[test]
fn explicit_arguments_win() {
    assert_eq!(
        asked_for(r#"{"agent":"a","task":"t","description":"d","prompt":"p","subagent_type":"s"}"#),
        delegation("d", "p", "s")
    );
}

#[test]
fn missing_arguments_have_defaults() {
    assert_eq!(asked_for("{}"), delegation("Subagent task", "", "code"));
    assert_eq!(asked_for(r#"{"prompt":"p"}"#), delegation("Subagent task", "p", "code"));
}

#[test]
fn arguments_that_are_no_strings_do_not_count() {
    assert_eq!(
        asked_for(r#"{"prompt":7,"task":"t","description":null,"agent":["x"],"context":{}}"#),
        delegation("Subagent task", "t", "code")
    );
    assert_eq!(asked_for(r#"["prompt"]"#), delegation("Subagent task", "", "code"));
    assert_eq!(asked_for("\"prompt\""), delegation("Subagent task", "", "code"));
}

#[test]
fn a_context_alone_is_no_prompt() {
    assert_eq!(asked_for(r#"{"context":"c"}"#).prompt, "");
    assert_eq!(asked_for(r#"{"task":"","context":"c"}"#).prompt, "\n\nContext: c");
    assert_eq!(asked_for(r#"{"task":""}"#).prompt, "");
}

#[test]
fn calls_without_instructions_are_refused() {
    let reason =
        "Task tool requires a 'task' or 'prompt' parameter with instructions for the subagent.";
    assert_eq!(refusal(ready(), "{}"), refused_with(reason));
    assert_eq!(refusal(ready(), r#"{"context":"c"}"#), refused_with(reason));
    // It goes before missing services.
    let bare = EventLoop { has_tool_registry: false, has_provider_manager: false };
    assert_eq!(refusal(bare, "{}"), refused_with(reason));
}

#[test]
fn calls_without_a_registry_are_refused() {
    let reason = "Tool registry not available for subagent.";
    for has_provider_manager in [false, true] {
        let event_loop = EventLoop { has_tool_registry: false, has_provider_manager };
        assert_eq!(refusal(event_loop, r#"{"prompt":"p"}"#), refused_with(reason));
    }
}

#[test]
fn calls_without_a_provider_are_refused() {
    let event_loop = EventLoop { has_tool_registry: true, has_provider_manager: false };
    assert_eq!(
        refusal(event_loop, r#"{"prompt":"p"}"#),
        refused_with("Provider not configured for subagent.")
    );
}

#[test]
fn other_calls_start_a_subagent() {
    let args = json(r#"{"agent":"research","task":"find it"}"#);
    match ready().spawn_subagent("call_1".to_string(), &args) {
        Spawn::Refused(result) => panic!("refused: {:?}", result),
        Spawn::Started { display, run, first_action } => {
            assert_eq!(
                display,
                SubagentTaskDisplay {
                    session_id: "subagent_call_1".to_string(),
                    tool_call_id: "call_1".to_string(),
                    description: "research".to_string(),
                    subagent_type: "research".to_string(),
                }
            );
            assert_eq!(run.phase(), Phase::Starting);
            assert_eq!(run.iteration(), 0);
            assert_eq!(
                first_action,
                Action::Announce(ToolEvent::Started {
                    id: "call_1".to_string(),
                    name: "Task".to_string(),
                })
            );
        }
    }
}

#[test]
fn a_context_makes_an_empty_task_acceptable() {
    let args = json(r#"{"task":"","context":"c"}"#);
    match ready().spawn_subagent("call_1".to_string(), &args) {
        Spawn::Refused(result) => panic!("refused: {:?}", result),
        Spawn::Started { run, .. } => assert_eq!(run.phase(), Phase::Starting),
    }
}
