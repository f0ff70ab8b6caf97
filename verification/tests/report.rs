use subagent::report::{
    cap_output, close_content, effective_content, is_cappable, report, session_id, system_prompt,
    tools_summary, ToolOutcome, MAX_TOOL_OUTPUT_SIZE,
};

fn strings(lines: &[&str]) -> Vec<String> {
    lines.iter().map(|l| l.to_string()).collect()
}

fn finished(success: bool, output: &str) -> ToolOutcome {
    ToolOutcome::Finished { success, output: output.to_string() }
}

#[test]
fn the_system_prompt_names_kind_and_task() {
    let expected = [
        "You are a specialized code subagent working on: Fix it",
        "",
        "You have access to tools like Read, Edit, Grep, Glob, LS, Execute, Batch, TodoWrite, etc.",
        "Note: You cannot use the Task tool (no nested delegation).",
        "",
        "IMPORTANT - Todo List:",
        "- For any multi-step task, IMMEDIATELY use TodoWrite to create a todo list",
        "- Update the todo list as you progress (mark items in_progress or completed)",
        "- This provides real-time visibility to the user",
        "- Keep only ONE item as in_progress at a time",
        "",
        "Use Batch to execute multiple tools in parallel for efficiency.",
        "If a tool fails, try an alternative approach instead of giving up.",
        "Complete the task and provide a clear summary when done.",
    ]
    .join("\n");
    assert_eq!(system_prompt("code", "Fix it"), expected);
}

#[test]
fn sessions_are_named_after_the_call() {
    assert_eq!(session_id("call_7"), "subagent_call_7");
    assert_eq!(session_id(""), "subagent_");
}

#[test]
fn outputs_up_to_the_limit_are_kept() {
    let output = "x".repeat(MAX_TOOL_OUTPUT_SIZE);
    assert!(is_cappable(&output));
    assert_eq!(cap_output(output.clone()), output);
    assert_eq!(cap_output(String::new()), "");
}

#[test]
fn longer_outputs_are_cut_with_a_note() {
    let output = "x".repeat(MAX_TOOL_OUTPUT_SIZE + 1);
    let expected = format!(
        "{}...\n\n[Output truncated: 32001 bytes total, showing first 32000 bytes]",
        "x".repeat(32_000)
    );
    assert_eq!(cap_output(output), expected);
}

#[test]
fn the_limit_counts_bytes() {
    // Two bytes each: the limit falls between two characters.
    let output = "\u{e9}".repeat(20_000);
    assert!(is_cappable(&output));
    let expected = format!(
        "{}...\n\n[Output truncated: 40000 bytes total, showing first 32000 bytes]",
        "\u{e9}".repeat(16_000)
    );
    assert_eq!(cap_output(output), expected);
}

#[test]
fn an_output_with_a_character_across_the_limit_cannot_be_cut() {
    let output = format!("x{}", "\u{e9}".repeat(20_000));
    assert!(!is_cappable(&output));
    assert!(!finished(true, &output).is_reportable());
    assert!(finished(true, "short").is_reportable());
    assert!(ToolOutcome::Failed { error: output }.is_reportable());
}

#[test]
fn outcomes_are_recorded_in_one_word() {
    assert_eq!(finished(true, "out").record("Read"), "Read: success");
    assert_eq!(finished(false, "out").record("Read"), "Read: failed");
    let failed = ToolOutcome::Failed { error: "boom".to_string() };
    assert_eq!(failed.record("Read"), "Read: error");
}

#[test]
fn the_model_is_told_the_output_or_the_error() {
    assert_eq!(finished(true, "out").reply("Read"), "out");
    assert_eq!(finished(false, "no such file").reply("Read"), "no such file");
    let failed = ToolOutcome::Failed { error: "boom".to_string() };
    assert_eq!(failed.reply("Read"), "Error executing Read: boom");
}

#[test]
fn a_blank_last_answer_after_calls_is_replaced_by_a_count() {
    assert_eq!(close_content(3, " \n"), "Task completed with 3 tool call(s).");
    assert_eq!(close_content(3, " done \n"), " done \n");
    assert_eq!(close_content(0, " \n"), " \n");
}

#[test]
fn executed_tools_are_listed_line_by_line() {
    assert_eq!(tools_summary(&vec![]), "No tools executed");
    assert_eq!(
        tools_summary(&strings(&["Read: success", "Edit: failed"])),
        "Read: success\nEdit: failed"
    );
}

#[test]
fn content_is_the_answer_or_a_stand_in() {
    assert_eq!(effective_content("code", "Fix it", &vec![], "done"), "done");
    assert_eq!(
        effective_content("code", "Fix it", &vec![], "\t"),
        "The code subagent completed but produced no output or tool calls. \
         This may indicate an issue with the task or model response."
    );
    assert_eq!(
        effective_content("code", "Fix it", &strings(&["Read: success", "Edit: error"]), ""),
        "The code subagent completed 2 tool call(s) (1 successful, 1 failed) \
         but did not provide a textual summary. Task: Fix it"
    );
}

#[test]
fn a_report_lists_content_tools_and_metadata() {
    assert_eq!(
        report("call_1", "code", "Fix it", &strings(&["Read: success"]), "done"),
        "done\n\nTools executed:\nRead: success\n\n<task_metadata>\nsession_id: subagent_call_1\n\
         agent_type: code\ndescription: Fix it\n</task_metadata>"
    );
    assert_eq!(
        report("c", "k", "d", &vec![], "done"),
        "done\n\nTools executed:\nNo tools executed\n\n<task_metadata>\nsession_id: subagent_c\n\
         agent_type: k\ndescription: d\n</task_metadata>"
    );
}
