//! The texts of a subagent: its system prompt, what it records of each tool call,
//! and the report that it ends with.

use crate::text::{
    blank, contains, decimal, decimal_text, is_blank, is_white_space, join, joined, lemma_filter_push,
    lemma_views_push, occurs_in, views,
};
use vstd::prelude::*;
use vstd::string::*;
use vstd::utf8::*;

verus! {

/// The longest tool output, in bytes, that is passed on uncut.
pub const MAX_TOOL_OUTPUT_SIZE: usize = 32_000;

/// The part of the system prompt that is the same for every subagent.
pub const GUIDANCE: &'static str = "\n\n\
    You have access to tools like Read, Edit, Grep, Glob, LS, Execute, Batch, TodoWrite, etc.\n\
    Note: You cannot use the Task tool (no nested delegation).\n\n\
    IMPORTANT - Todo List:\n\
    - For any multi-step task, IMMEDIATELY use TodoWrite to create a todo list\n\
    - Update the todo list as you progress (mark items in_progress or completed)\n\
    - This provides real-time visibility to the user\n\
    - Keep only ONE item as in_progress at a time\n\n\
    Use Batch to execute multiple tools in parallel for efficiency.\n\
    If a tool fails, try an alternative approach instead of giving up.\n\
    Complete the task and provide a clear summary when done.";

/// The system prompt of a subagent.
pub open spec fn system_prompt_text(subagent_type: Seq<char>, description: Seq<char>) -> Seq<char> {
    "You are a specialized "@ + subagent_type + " subagent working on: "@ + description + GUIDANCE@
}

/// Writes the system prompt of a subagent.
pub fn system_prompt(subagent_type: &str, description: &str) -> (text: String)
    ensures
        text@ == system_prompt_text(subagent_type@, description@),
{
    let mut text = "You are a specialized ".to_string();
    text.append(subagent_type);
    text.append(" subagent working on: ");
    text.append(description);
    text.append(GUIDANCE);
    text
}

/// The session name of a subagent, from the tool call that started it.
pub open spec fn session_id_text(id: Seq<char>) -> Seq<char> {
    "subagent_"@ + id
}

/// Writes the session name of a subagent.
pub fn session_id(id: &str) -> (text: String)
    ensures
        text@ == session_id_text(id@),
{
    let mut text = "subagent_".to_string();
    text.append(id);
    text
}

/// How the execution of one tool call ended.
#[derive(Debug, PartialEq, Eq)]
pub enum ToolOutcome {
    /// The tool ran and says whether it succeeded.
    Finished { success: bool, output: String },
    /// The tool could not be run.
    Failed { error: String },
}

/// The model of a [`ToolOutcome`].
pub enum ToolOutcomeView {
    Finished { success: bool, output: Seq<char> },
    Failed { error: Seq<char> },
}

impl View for ToolOutcome {
    type V = ToolOutcomeView;

    open spec fn view(&self) -> ToolOutcomeView {
        match *self {
            ToolOutcome::Finished { success, output } => ToolOutcomeView::Finished {
                success,
                output: output@,
            },
            ToolOutcome::Failed { error } => ToolOutcomeView::Failed { error: error@ },
        }
    }
}

/// Whether an output can be cut at the size limit: it is within the limit, or the
/// limit falls between two of its characters.
pub open spec fn can_be_capped(output: Seq<char>) -> bool {
    encode_utf8(output).len() > MAX_TOOL_OUTPUT_SIZE ==> is_char_boundary(
        encode_utf8(output),
        MAX_TOOL_OUTPUT_SIZE as int,
    )
}

/// An output within the size limit as it is; of a longer one the part within the
/// limit, with a note of the two sizes.
pub open spec fn capped_output(output: Seq<char>) -> Seq<char> {
    let bytes = encode_utf8(output);
    if bytes.len() > MAX_TOOL_OUTPUT_SIZE {
        decode_utf8(bytes.subrange(0, MAX_TOOL_OUTPUT_SIZE as int))
            + "...\n\n[Output truncated: "@ + decimal(bytes.len())
            + " bytes total, showing first "@ + decimal(MAX_TOOL_OUTPUT_SIZE as nat)
            + " bytes]"@
    } else {
        output
    }
}

/// Tells whether an output can be cut at the size limit.
pub fn is_cappable(output: &str) -> (result: bool)
    ensures
        result == can_be_capped(output@),
{
    output.as_bytes().len() <= MAX_TOOL_OUTPUT_SIZE || output.is_char_boundary(MAX_TOOL_OUTPUT_SIZE)
}

/// Cuts an output at the size limit.
pub fn cap_output(output: String) -> (text: String)
    requires
        can_be_capped(output@),
    ensures
        text@ == capped_output(output@),
{
    let size = output.as_str().as_bytes().len();
    if size > MAX_TOOL_OUTPUT_SIZE {
        let (head, _tail) = output.as_str().split_at(MAX_TOOL_OUTPUT_SIZE);
        proof {
            encode_utf8_decode_utf8(head@);
        }
        let mut text = head.to_string();
        text.append("...\n\n[Output truncated: ");
        text.append(decimal_text(size).as_str());
        text.append(" bytes total, showing first ");
        text.append(decimal_text(MAX_TOOL_OUTPUT_SIZE).as_str());
        text.append(" bytes]");
        text
    } else {
        output
    }
}

impl ToolOutcomeView {
    /// Whether the outcome's output, where it has one, can be cut at the size limit.
    pub open spec fn can_be_reported(self) -> bool {
        match self {
            ToolOutcomeView::Finished { output, .. } => can_be_capped(output),
            ToolOutcomeView::Failed { .. } => true,
        }
    }

    /// Whether the tool ran and succeeded.
    pub open spec fn is_success(self) -> bool {
        self matches ToolOutcomeView::Finished { success, .. } && success
    }

    /// The one word for the outcome.
    pub open spec fn status(self) -> Seq<char> {
        match self {
            ToolOutcomeView::Finished { success: true, .. } => "success"@,
            ToolOutcomeView::Finished { success: false, .. } => "failed"@,
            ToolOutcomeView::Failed { .. } => "error"@,
        }
    }

    /// The record of a call of the tool `name`.
    pub open spec fn record(self, name: Seq<char>) -> Seq<char> {
        name + ": "@ + self.status()
    }

    /// What the model is told of a call of the tool `name`.
    pub open spec fn reply(self, name: Seq<char>) -> Seq<char> {
        match self {
            ToolOutcomeView::Finished { output, .. } => capped_output(output),
            ToolOutcomeView::Failed { error } => "Error executing "@ + name + ": "@ + error,
        }
    }
}

impl ToolOutcome {
    /// Tells whether the outcome's output, where it has one, can be cut at the size
    /// limit.
    pub fn is_reportable(&self) -> (result: bool)
        ensures
            result == self@.can_be_reported(),
    {
        match self {
            ToolOutcome::Finished { output, .. } => is_cappable(output.as_str()),
            ToolOutcome::Failed { .. } => true,
        }
    }

    /// Writes the record of a call of the tool `name`.
    pub fn record(&self, name: &str) -> (text: String)
        ensures
            text@ == self@.record(name@),
    {
        let mut text = name.to_string();
        text.append(": ");
        match self {
            ToolOutcome::Finished { success, .. } => if *success {
                text.append("success");
            } else {
                text.append("failed");
            },
            ToolOutcome::Failed { .. } => text.append("error"),
        }
        text
    }

    /// Writes what the model is told of a call of the tool `name`.
    pub fn reply(self, name: &str) -> (text: String)
        requires
            self@.can_be_reported(),
        ensures
            text@ == self@.reply(name@),
            self matches ToolOutcome::Finished { output, .. } ==> (encode_utf8(output@).len()
                <= MAX_TOOL_OUTPUT_SIZE ==> text@ == output@),
    {
        match self {
            ToolOutcome::Finished { output, .. } => cap_output(output),
            ToolOutcome::Failed { error } => {
                let mut text = "Error executing ".to_string();
                text.append(name);
                text.append(": ");
                text.append(error.as_str());
                text
            },
        }
    }
}

/// The final content of a turn in which the model called no tool: its text, or a
/// count of the calls made before where the text is blank and there were any.
pub open spec fn closing_content(executed: nat, content: Seq<char>) -> Seq<char> {
    if executed > 0 && blank(content) {
        "Task completed with "@ + decimal(executed) + " tool call(s)."@
    } else {
        content
    }
}

/// Writes the final content of a turn in which the model called no tool.
pub fn close_content(executed: usize, content: &str) -> (text: String)
    ensures
        text@ == closing_content(executed as nat, content@),
{
    if executed > 0 && is_blank(content) {
        let mut text = "Task completed with ".to_string();
        text.append(decimal_text(executed).as_str());
        text.append(" tool call(s).");
        text
    } else {
        content.to_string()
    }
}

/// The lines of a report that list the recorded tool calls.
pub open spec fn tools_summary_text(executed: Seq<Seq<char>>) -> Seq<char> {
    if executed.len() == 0 {
        "No tools executed"@
    } else {
        joined(executed, "\n"@)
    }
}

/// Writes the lines of a report that list the recorded tool calls.
pub fn tools_summary(executed: &Vec<String>) -> (text: String)
    ensures
        text@ == tools_summary_text(views(executed@)),
{
    if executed.len() == 0 {
        "No tools executed".to_string()
    } else {
        join(executed, "\n")
    }
}

/// Whether a record counts as a successful call.
pub open spec fn counts_as_success(record: Seq<char>) -> bool {
    occurs_in("success"@, record)
}

/// Whether a record counts as a failed call.
pub open spec fn counts_as_failure(record: Seq<char>) -> bool {
    occurs_in("error"@, record) || occurs_in("failed"@, record)
}

/// The number of records that count as successful calls.
pub open spec fn success_count(executed: Seq<Seq<char>>) -> nat {
    executed.filter(|record: Seq<char>| counts_as_success(record)).len()
}

/// The number of records that count as failed calls.
pub open spec fn failure_count(executed: Seq<Seq<char>>) -> nat {
    executed.filter(|record: Seq<char>| counts_as_failure(record)).len()
}

/// Counts the records of successful and of failed calls.
pub fn count_outcomes(executed: &Vec<String>) -> (counts: (usize, usize))
    ensures
        counts.0 == success_count(views(executed@)),
        counts.1 == failure_count(views(executed@)),
{
    let mut successes: usize = 0;
    let mut failures: usize = 0;
    let ghost good = |record: Seq<char>| counts_as_success(record);
    let ghost bad = |record: Seq<char>| counts_as_failure(record);
    assert(views(executed@.take(0)) =~= Seq::empty());
    proof {
        reveal(Seq::filter);
    }
    let mut i: usize = 0;
    while i < executed.len()
        invariant
            i <= executed.len(),
            good == (|record: Seq<char>| counts_as_success(record)),
            bad == (|record: Seq<char>| counts_as_failure(record)),
            successes == views(executed@.take(i as int)).filter(good).len(),
            failures == views(executed@.take(i as int)).filter(bad).len(),
            successes <= i,
            failures <= i,
        decreases executed.len() - i,
    {
        let record = executed[i].as_str();
        proof {
            assert(executed@.take(i + 1) =~= executed@.take(i as int).push(executed@[i as int]));
            lemma_views_push(executed@.take(i as int), executed@[i as int]);
            lemma_filter_push(views(executed@.take(i as int)), record@, good);
            lemma_filter_push(views(executed@.take(i as int)), record@, bad);
        }
        if contains(record, "success") {
            successes += 1;
        }
        if contains(record, "error") || contains(record, "failed") {
            failures += 1;
        }
        i += 1;
    }
    assert(executed@.take(executed.len() as int) =~= executed@);
    (successes, failures)
}

/// What a report says in place of the model's text, where that is blank.
pub open spec fn fallback_content(
    subagent_type: Seq<char>,
    description: Seq<char>,
    executed: Seq<Seq<char>>,
) -> Seq<char> {
    if executed.len() == 0 {
        "The "@ + subagent_type
            + " subagent completed but produced no output or tool calls. This may indicate an issue with the task or model response."@
    } else {
        "The "@ + subagent_type + " subagent completed "@ + decimal(executed.len())
            + " tool call(s) ("@ + decimal(success_count(executed)) + " successful, "@
            + decimal(failure_count(executed))
            + " failed) but did not provide a textual summary. Task: "@ + description
    }
}

/// The content of a report: the model's text, or a stand-in where that is blank.
pub open spec fn effective_content_text(
    subagent_type: Seq<char>,
    description: Seq<char>,
    executed: Seq<Seq<char>>,
    final_content: Seq<char>,
) -> Seq<char> {
    if blank(final_content) {
        fallback_content(subagent_type, description, executed)
    } else {
        final_content
    }
}

/// Writes the content of a report.
pub fn effective_content(
    subagent_type: &str,
    description: &str,
    executed: &Vec<String>,
    final_content: &str,
) -> (text: String)
    ensures
        text@ == effective_content_text(
            subagent_type@,
            description@,
            views(executed@),
            final_content@,
        ),
{
    if is_blank(final_content) {
        let mut text = "The ".to_string();
        text.append(subagent_type);
        if executed.len() == 0 {
            text.append(
                " subagent completed but produced no output or tool calls. This may indicate an issue with the task or model response.",
            );
        } else {
            let (successes, failures) = count_outcomes(executed);
            text.append(" subagent completed ");
            text.append(decimal_text(executed.len()).as_str());
            text.append(" tool call(s) (");
            text.append(decimal_text(successes).as_str());
            text.append(" successful, ");
            text.append(decimal_text(failures).as_str());
            text.append(" failed) but did not provide a textual summary. Task: ");
            text.append(description);
        }
        text
    } else {
        final_content.to_string()
    }
}

/// The block at the end of every report that says which subagent wrote it.
pub open spec fn metadata_text(
    id: Seq<char>,
    subagent_type: Seq<char>,
    description: Seq<char>,
) -> Seq<char> {
    "<task_metadata>\nsession_id: "@ + session_id_text(id) + "\nagent_type: "@ + subagent_type
        + "\ndescription: "@ + description + "\n</task_metadata>"@
}

/// The report that a subagent ends with.
pub open spec fn report_text(
    id: Seq<char>,
    subagent_type: Seq<char>,
    description: Seq<char>,
    executed: Seq<Seq<char>>,
    final_content: Seq<char>,
) -> Seq<char> {
    effective_content_text(subagent_type, description, executed, final_content)
        + "\n\nTools executed:\n"@ + tools_summary_text(executed) + "\n\n"@ + metadata_text(
        id,
        subagent_type,
        description,
    )
}

/// Writes the report that a subagent ends with.
pub fn report(
    id: &str,
    subagent_type: &str,
    description: &str,
    executed: &Vec<String>,
    final_content: &str,
) -> (text: String)
    ensures
        text@ == report_text(
            id@,
            subagent_type@,
            description@,
            views(executed@),
            final_content@,
        ),
{
    let mut metadata = "<task_metadata>\nsession_id: ".to_string();
    metadata.append(session_id(id).as_str());
    metadata.append("\nagent_type: ");
    metadata.append(subagent_type);
    metadata.append("\ndescription: ");
    metadata.append(description);
    metadata.append("\n</task_metadata>");

    let mut text = effective_content(subagent_type, description, executed, final_content);
    text.append("\n\nTools executed:\n");
    text.append(tools_summary(executed).as_str());
    text.append("\n\n");
    text.append(metadata.as_str());
    text
}

/// A report always has content, whatever the model said.
pub proof fn law_reports_have_content(
    subagent_type: Seq<char>,
    description: Seq<char>,
    executed: Seq<Seq<char>>,
    final_content: Seq<char>,
)
    ensures
        !blank(effective_content_text(subagent_type, description, executed, final_content)),
{
    reveal_strlit("The ");
    let text = effective_content_text(subagent_type, description, executed, final_content);
    if blank(final_content) {
        assert(text[0] == 'T');
        assert(!is_white_space(text[0]));
    }
}

/// A report opens with its content and closes with the block that says which subagent
/// wrote it.
pub proof fn law_reports_open_and_close(
    id: Seq<char>,
    subagent_type: Seq<char>,
    description: Seq<char>,
    executed: Seq<Seq<char>>,
    final_content: Seq<char>,
)
    ensures
        ({
            let text = report_text(id, subagent_type, description, executed, final_content);
            &&& effective_content_text(
                subagent_type,
                description,
                executed,
                final_content,
            ).is_prefix_of(text)
            &&& metadata_text(id, subagent_type, description).is_suffix_of(text)
        }),
{
    let text = report_text(id, subagent_type, description, executed, final_content);
    let content = effective_content_text(subagent_type, description, executed, final_content);
    let metadata = metadata_text(id, subagent_type, description);
    assert(content =~= text.subrange(0, content.len() as int));
    assert(metadata =~= text.subrange(text.len() - metadata.len(), text.len() as int));
}

/// What is passed on of an output over the size limit opens with those of its
/// characters that fill the limit exactly.
pub proof fn law_long_outputs_keep_their_beginning(output: Seq<char>) -> (kept: int)
    requires
        can_be_capped(output),
        encode_utf8(output).len() > MAX_TOOL_OUTPUT_SIZE,
    ensures
        0 <= kept <= output.len(),
        encode_utf8(output.take(kept)).len() == MAX_TOOL_OUTPUT_SIZE,
        output.take(kept).is_prefix_of(capped_output(output)),
{
    let bytes = encode_utf8(output);
    let size = MAX_TOOL_OUTPUT_SIZE as int;
    let head = decode_utf8(bytes.subrange(0, size));
    encode_utf8_valid_utf8(output);
    encode_utf8_decode_utf8(output);
    valid_utf8_split(bytes, size);
    decode_utf8_split(bytes, size);
    decode_utf8_encode_utf8(bytes.subrange(0, size));
    let kept = head.len() as int;
    assert(output.take(kept) =~= head);
    assert(head =~= capped_output(output).subrange(0, kept));
    kept
}

/// An output within the size limit is passed on as it is.
pub proof fn law_short_outputs_are_kept(output: Seq<char>)
    requires
        encode_utf8(output).len() <= MAX_TOOL_OUTPUT_SIZE,
    ensures
        can_be_capped(output),
        capped_output(output) == output,
{
}

/// An occurrence in `name + tail` that is none in `name`, of a needle that lacks the
/// first character of `tail`, lies in the rest of `tail`.
proof fn lemma_occurs_in_tail(needle: Seq<char>, name: Seq<char>, tail: Seq<char>) -> (at: int)
    requires
        occurs_in(needle, name + tail),
        !occurs_in(needle, name),
        needle.len() > 0,
        tail.len() > 0,
        !needle.contains(tail[0]),
    ensures
        1 <= at,
        at + needle.len() <= tail.len(),
        tail[at] == needle[0],
{
    let text = name + tail;
    let start = choose|at: int|
        0 <= at && at + needle.len() <= text.len() && #[trigger] text.subrange(
            at,
            at + needle.len(),
        ) == needle;
    let found = text.subrange(start, start + needle.len());
    if start + needle.len() <= name.len() {
        assert(name.subrange(start, start + needle.len()) =~= found);
    } else if start <= name.len() {
        assert(found[name.len() - start] == tail[0]);
        assert(needle.contains(tail[0]));
    }
    assert(found[0] == tail[start - name.len()]);
    start - name.len()
}

/// A needle that begins with no character of the status at which it would fit, has no
/// colon and does not occur in the name, does not occur in the record.
proof fn lemma_not_in_record(needle: Seq<char>, name: Seq<char>, status: Seq<char>)
    requires
        needle.len() > 0,
        !occurs_in(needle, name),
        !needle.contains(':'),
        needle[0] != ' ',
        forall|k: int|
            0 <= k && k + needle.len() <= status.len() ==> #[trigger] status[k] != needle[0],
    ensures
        !occurs_in(needle, name + ": "@ + status),
{
    reveal_strlit(": ");
    let tail = ": "@ + status;
    assert(name + ": "@ + status =~= name + tail);
    assert(tail[0] == ':');
    if occurs_in(needle, name + tail) {
        let at = lemma_occurs_in_tail(needle, name, tail);
        if at == 1 {
            assert(tail[at] == ' ');
        } else {
            assert(tail[at] == status[at - 2]);
        }
    }
}

proof fn lemma_status_in_record(name: Seq<char>, status: Seq<char>)
    ensures
        occurs_in(status, name + ": "@ + status),
{
    let record = name + ": "@ + status;
    let from = record.len() - status.len();
    assert(record.subrange(from, from + status.len()) =~= status);
}

proof fn lemma_success_is_no_failure(name: Seq<char>)
    requires
        !counts_as_failure(name),
    ensures
        !counts_as_failure(name + ": "@ + "success"@),
{
    reveal_strlit("success");
    assert(!occurs_in("error"@, name + ": "@ + "success"@)) by {
        reveal_strlit("error");
        lemma_not_in_record("error"@, name, "success"@);
    }
    assert(!occurs_in("failed"@, name + ": "@ + "success"@)) by {
        reveal_strlit("failed");
        lemma_not_in_record("failed"@, name, "success"@);
    }
}

proof fn lemma_failure_is_no_success(name: Seq<char>)
    requires
        !counts_as_success(name),
    ensures
        !counts_as_success(name + ": "@ + "failed"@),
        !counts_as_success(name + ": "@ + "error"@),
{
    reveal_strlit("success");
    assert(!counts_as_success(name + ": "@ + "failed"@)) by {
        reveal_strlit("failed");
        lemma_not_in_record("success"@, name, "failed"@);
    }
    assert(!counts_as_success(name + ": "@ + "error"@)) by {
        reveal_strlit("error");
        lemma_not_in_record("success"@, name, "error"@);
    }
}

/// A record counts under its own outcome. Where the name of the tool holds none of the
/// words that are looked for, it counts under no other.
pub proof fn law_records_count_by_outcome(outcome: ToolOutcomeView, name: Seq<char>)
    ensures
        outcome.is_success() ==> counts_as_success(outcome.record(name)),
        !outcome.is_success() ==> counts_as_failure(outcome.record(name)),
        !counts_as_success(name) && !counts_as_failure(name) ==> {
            &&& counts_as_success(outcome.record(name)) == outcome.is_success()
            &&& counts_as_failure(outcome.record(name)) == !outcome.is_success()
        },
{
    lemma_status_in_record(name, outcome.status());
    if !counts_as_success(name) && !counts_as_failure(name) {
        lemma_success_is_no_failure(name);
        lemma_failure_is_no_success(name);
    }
}

/// Where every record counts as either a success or a failure and none as both, the
/// two counts of a report add up to the number of calls.
pub proof fn law_counts_add_up(executed: Seq<Seq<char>>)
    requires
        forall|i: int|
            0 <= i < executed.len() ==> counts_as_success(#[trigger] executed[i])
                != counts_as_failure(executed[i]),
    ensures
        success_count(executed) + failure_count(executed) == executed.len(),
    decreases executed.len(),
{
    reveal(Seq::filter);
    if executed.len() > 0 {
        assert(counts_as_success(executed[executed.len() - 1]) != counts_as_failure(
            executed[executed.len() - 1],
        ));
        assert forall|i: int| 0 <= i < executed.drop_last().len() implies counts_as_success(
            #[trigger] executed.drop_last()[i],
        ) != counts_as_failure(executed.drop_last()[i]) by {
            assert(executed.drop_last()[i] == executed[i]);
        }
        law_counts_add_up(executed.drop_last());
    }
}

} // verus!
