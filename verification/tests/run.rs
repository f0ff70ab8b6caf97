use serde_json::Value;
use subagent::chat::{FunctionCall, Message, ToolCall, ToolDefinition};
use subagent::protocol::{
    Action, ClientOutcome, Event, ResponseOutcome, StreamOutcome, ToolEvent,
};
use subagent::report::{system_prompt, ToolOutcome};
use subagent::run::{Phase, Run};
use subagent::task::Delegation;
use subagent::todo::Todo;

fn json(text: &str) -> Value {
    serde_json::from_str(text).unwrap()
}

fn new_run() -> Run {
    let delegation = Delegation {
        description: "Fix it".to_string(),
        prompt: "please fix".to_string(),
        subagent_type: "code".to_string(),
    };
    let (run, action) = Run::start("call_1".to_string(), delegation);
    assert_eq!(
        action,
        Action::Announce(ToolEvent::Started { id: "call_1".to_string(), name: "Task".to_string() })
    );
    run
}

fn step(run: &mut Run, event: Event) -> Action {
    assert!(run.accepts(&event), "{:?} in {:?}", event, run.phase());
    run.step(event)
}

fn prepared() -> Run {
    let mut run = new_run();
    assert_eq!(step(&mut run, Event::Announced { delivered: true }), Action::Prepare);
    let definitions = ["Read", "Task", "TodoWrite"]
        .iter()
        .map(|name| ToolDefinition {
            name: name.to_string(),
            description: "d".to_string(),
            parameters: json("{}"),
        })
        .collect();
    let event = Event::Prepared { definitions, model: "m-1".to_string() };
    assert_eq!(step(&mut run, event), Action::AcquireClient);
    run
}

fn open(run: &mut Run) {
    assert_eq!(
        step(run, Event::Client(ClientOutcome::Ready)),
        Action::Request { timeout_secs: 120 }
    );
    assert_eq!(
        step(run, Event::Response(ResponseOutcome::Opened)),
        Action::NextEvent { timeout_secs: 60 }
    );
}

fn streaming() -> Run {
    let mut run = prepared();
    open(&mut run);
    run
}

fn say(run: &mut Run, text: &str) {
    let event = Event::Stream(StreamOutcome::Delta { text: text.to_string() });
    assert_eq!(step(run, event), Action::NextEvent { timeout_secs: 60 });
}

fn call(run: &mut Run, id: &str, name: &str, arguments: &str) {
    let event = Event::Stream(StreamOutcome::ToolCall {
        id: id.to_string(),
        name: name.to_string(),
        arguments: arguments.to_string(),
    });
    assert_eq!(step(run, event), Action::NextEvent { timeout_secs: 60 });
}

fn done() -> Event {
    Event::Stream(StreamOutcome::Done)
}

fn finished(success: bool, output: &str) -> Event {
    Event::Tool(ToolOutcome::Finished { success, output: output.to_string() })
}

fn failure(error: &str) -> Action {
    Action::Finish(ToolEvent::Failed {
        id: "call_1".to_string(),
        name: "Task".to_string(),
        error: error.to_string(),
    })
}

fn completion(content: &str, tools: &str) -> Action {
    Action::Finish(ToolEvent::Completed {
        id: "call_1".to_string(),
        name: "Task".to_string(),
        output: format!(
            "{}\n\nTools executed:\n{}\n\n<task_metadata>\nsession_id: subagent_call_1\n\
             agent_type: code\ndescription: Fix it\n</task_metadata>",
            content, tools
        ),
        success: true,
    })
}

fn assert_over(run: &Run) {
    assert_eq!(run.phase(), Phase::Finished);
    assert!(!run.accepts(&Event::Announced { delivered: true }));
    assert!(!run.accepts(&Event::Prepared { definitions: vec![], model: String::new() }));
    assert!(!run.accepts(&Event::Client(ClientOutcome::Ready)));
    assert!(!run.accepts(&Event::Response(ResponseOutcome::Opened)));
    assert!(!run.accepts(&done()));
    assert!(!run.accepts(&finished(true, "")));
}

#[test]
fn a_run_that_cannot_announce_itself_stops() {
    let mut run = new_run();
    assert_eq!(step(&mut run, Event::Announced { delivered: false }), Action::Stop);
    assert_over(&run);
}

#[test]
fn the_first_request_opens_the_conversation() {
    let run = streaming();
    let request = run.request();
    assert_eq!(
        *request.messages,
        vec![
            Message::System(system_prompt("code", "Fix it")),
            Message::User("please fix".to_string()),
        ]
    );
    assert_eq!(request.model, "m-1");
    assert_eq!(request.max_tokens, Some(8192));
    assert_eq!(request.seed, None);
    assert!(request.stream);
    let names: Vec<&str> = request.tools.iter().map(|t| t.name.as_str()).collect();
    assert_eq!(names, ["Read", "TodoWrite"]);
}

#[test]
fn a_run_awaits_only_the_outcome_it_asked_for() {
    let run = prepared();
    assert_eq!(run.phase(), Phase::Connecting);
    assert!(run.accepts(&Event::Client(ClientOutcome::Missing)));
    assert!(!run.accepts(&Event::Announced { delivered: true }));
    assert!(!run.accepts(&Event::Response(ResponseOutcome::Opened)));
    assert!(!run.accepts(&done()));
    assert!(!run.accepts(&finished(true, "")));
}

#[test]
fn a_provider_that_cannot_be_initialized_fails_the_run() {
    let mut run = prepared();
    let event = Event::Client(ClientOutcome::Unavailable { error: "no key".to_string() });
    assert_eq!(step(&mut run, event), failure("Failed to initialize provider: no key"));
    assert_over(&run);
}

#[test]
fn a_missing_client_fails_the_run() {
    let mut run = prepared();
    assert_eq!(
        step(&mut run, Event::Client(ClientOutcome::Missing)),
        failure("No client available")
    );
    assert_over(&run);
}

#[test]
fn a_refused_request_fails_the_run() {
    let mut run = prepared();
    step(&mut run, Event::Client(ClientOutcome::Ready));
    let event = Event::Response(ResponseOutcome::Failed { error: "quota".to_string() });
    assert_eq!(step(&mut run, event), failure("quota"));
    assert_over(&run);
}

#[test]
fn a_connection_timeout_fails_the_run() {
    let mut run = prepared();
    step(&mut run, Event::Client(ClientOutcome::Ready));
    assert_eq!(
        step(&mut run, Event::Response(ResponseOutcome::TimedOut)),
        failure("Connection timeout")
    );
    assert_over(&run);
}

#[test]
fn errors_in_the_response_fail_the_run() {
    let mut run = streaming();
    let event = Event::Stream(StreamOutcome::Error { error: "overloaded".to_string() });
    assert_eq!(step(&mut run, event), failure("overloaded"));
    assert_over(&run);

    let mut run = streaming();
    let event = Event::Stream(StreamOutcome::Failed { error: "reset".to_string() });
    assert_eq!(step(&mut run, event), failure("reset"));
    assert_over(&run);

    let mut run = streaming();
    assert_eq!(
        step(&mut run, Event::Stream(StreamOutcome::TimedOut)),
        failure(
            "The provider appears to be overloaded or your internet connection/proxy is \
             experiencing issues communicating with it."
        )
    );
    assert_over(&run);
}

#[test]
fn text_is_collected_in_order() {
    let mut run = streaming();
    say(&mut run, "all ");
    let other = step(&mut run, Event::Stream(StreamOutcome::Other));
    assert_eq!(other, Action::NextEvent { timeout_secs: 60 });
    say(&mut run, "good");
    assert_eq!(step(&mut run, done()), completion("all good", "No tools executed"));
    assert_over(&run);
}

#[test]
fn a_stream_that_just_ends_counts_as_done() {
    let mut run = streaming();
    say(&mut run, "partial");
    assert_eq!(
        step(&mut run, Event::Stream(StreamOutcome::Ended)),
        completion("partial", "No tools executed")
    );
}

#[test]
fn an_empty_answer_without_calls_is_reported_as_such() {
    let mut run = streaming();
    assert_eq!(
        step(&mut run, done()),
        completion(
            "The code subagent completed but produced no output or tool calls. \
             This may indicate an issue with the task or model response.",
            "No tools executed"
        )
    );
}

#[test]
fn calls_are_executed_in_order_and_answered() {
    let mut run = streaming();
    call(&mut run, "a", "Read", "{\"path\": \"x\"}");
    say(&mut run, "reading");
    call(&mut run, "b", "Edit", "oops");
    assert_eq!(step(&mut run, done()), Action::ExecuteTool);
    assert_eq!(run.current_call().id, "a");
    assert_eq!(run.current_call().name, "Read");
    assert_eq!(run.current_call().arguments, json(r#"{"path":"x"}"#));
    assert_eq!(step(&mut run, finished(true, "contents")), Action::ExecuteTool);
    assert_eq!(run.current_call().id, "b");
    assert_eq!(run.current_call().arguments, json("{}"));
    let event = Event::Tool(ToolOutcome::Failed { error: "boom".to_string() });
    assert_eq!(step(&mut run, event), Action::AcquireClient);
    assert_eq!(run.iteration(), 1);

    let tool_call = |id: &str, name: &str, arguments: &str| ToolCall {
        id: id.to_string(),
        call_type: "function".to_string(),
        function: FunctionCall { name: name.to_string(), arguments: arguments.to_string() },
    };
    assert_eq!(
        run.request().messages[2..],
        [
            Message::Assistant {
                text: "reading".to_string(),
                tool_calls: vec![
                    tool_call("a", "Read", r#"{"path":"x"}"#),
                    tool_call("b", "Edit", "{}"),
                ],
            },
            Message::ToolResult { call_id: "a".to_string(), output: "contents".to_string() },
            Message::ToolResult {
                call_id: "b".to_string(),
                output: "Error executing Edit: boom".to_string(),
            },
        ]
    );

    open(&mut run);
    assert_eq!(
        step(&mut run, done()),
        completion("Task completed with 2 tool call(s).", "Read: success\nEdit: error")
    );
    assert_over(&run);
}

#[test]
fn a_failed_tool_is_recorded_and_the_run_goes_on() {
    let mut run = streaming();
    call(&mut run, "a", "Read", "{}");
    step(&mut run, done());
    assert_eq!(step(&mut run, finished(false, "no such file")), Action::AcquireClient);
    open(&mut run);
    say(&mut run, "gave up");
    assert_eq!(step(&mut run, done()), completion("gave up", "Read: failed"));
}

#[test]
fn todo_lists_are_announced_before_the_tool_runs() {
    for delivered in [true, false] {
        let mut run = streaming();
        call(&mut run, "a", "TodoWrite", r#"{"todos":[{"content":"x"},{"status":"done"}]}"#);
        assert_eq!(
            step(&mut run, done()),
            Action::Announce(ToolEvent::TodoUpdated {
                session_id: "subagent_call_1".to_string(),
                todos: vec![Todo { content: "x".to_string(), status: "pending".to_string() }],
            })
        );
        assert_eq!(run.phase(), Phase::Announcing);
        assert_eq!(step(&mut run, Event::Announced { delivered }), Action::ExecuteTool);
        assert_eq!(run.current_call().name, "TodoWrite");
        assert_eq!(step(&mut run, finished(true, "ok")), Action::AcquireClient);
    }
}

#[test]
fn a_second_call_can_announce_too() {
    let mut run = streaming();
    call(&mut run, "a", "Read", "{}");
    call(&mut run, "b", "TodoWrite", r#"{"todos":[{"content":"x","status":"completed"}]}"#);
    assert_eq!(step(&mut run, done()), Action::ExecuteTool);
    match step(&mut run, finished(true, "")) {
        Action::Announce(ToolEvent::TodoUpdated { todos, .. }) => {
            assert_eq!(todos[0].status, "completed")
        }
        other => panic!("{:?}", other),
    }
}

#[test]
fn empty_todo_lists_are_not_announced() {
    let mut run = streaming();
    call(&mut run, "a", "TodoWrite", r#"{"todos":[]}"#);
    assert_eq!(step(&mut run, done()), Action::ExecuteTool);
}

#[test]
fn long_outputs_reach_the_model_cut() {
    let mut run = streaming();
    call(&mut run, "a", "Read", "{}");
    step(&mut run, done());
    step(&mut run, finished(true, &"x".repeat(32_001)));
    match &run.request().messages[3] {
        Message::ToolResult { output, .. } => assert_eq!(
            *output,
            format!(
                "{}...\n\n[Output truncated: 32001 bytes total, showing first 32000 bytes]",
                "x".repeat(32_000)
            )
        ),
        other => panic!("{:?}", other),
    }
}

#[test]
fn outputs_that_cannot_be_cut_are_not_accepted() {
    let mut run = streaming();
    call(&mut run, "a", "Read", "{}");
    step(&mut run, done());
    let output = format!("x{}", "\u{e9}".repeat(20_000));
    assert!(!run.accepts(&finished(true, &output)));
    assert!(run.accepts(&finished(true, "fine")));
}

/// Runs until the turn limit, with one call and this text in every turn.
fn exhausted(text: &str) -> Action {
    let mut run = prepared();
    let mut requests = 0;
    loop {
        assert_eq!(run.iteration(), requests);
        open(&mut run);
        requests += 1;
        say(&mut run, text);
        call(&mut run, "a", "Read", "{}");
        assert_eq!(step(&mut run, done()), Action::ExecuteTool);
        match step(&mut run, finished(true, "o")) {
            Action::AcquireClient => {}
            action => {
                assert_eq!(requests, 500);
                assert_eq!(run.iteration(), 500);
                assert_eq!(run.request().messages.len(), 2 + 2 * 500);
                assert_over(&run);
                return action;
            }
        }
    }
}

#[test]
fn a_run_ends_at_the_turn_limit_with_its_last_text() {
    let tools = vec!["Read: success"; 500].join("\n");
    assert_eq!(exhausted("still busy"), completion("still busy", &tools));
}

#[test]
fn a_run_without_text_at_the_turn_limit_reports_counts() {
    let tools = vec!["Read: success"; 500].join("\n");
    assert_eq!(
        exhausted(""),
        completion(
            "The code subagent completed 500 tool call(s) (500 successful, 0 failed) \
             but did not provide a textual summary. Task: Fix it",
            &tools
        )
    );
    assert_eq!(exhausted(" "), exhausted(""));
}

#[test]
fn a_final_answer_replaces_earlier_text() {
    let mut run = streaming();
    say(&mut run, "working");
    call(&mut run, "a", "Read", "{}");
    step(&mut run, done());
    step(&mut run, finished(true, ""));
    open(&mut run);
    say(&mut run, " done ");
    assert_eq!(step(&mut run, done()), completion(" done ", "Read: success"));
}
