//! Laws of texts: what the model and the user are told, told from what happened.

use crate::report::{
    can_be_capped, capped_output, closing_content, counts_as_failure, counts_as_success,
    effective_content_text, failure_count, report_text, success_count, tools_summary_text,
    ToolOutcomeView,
};
use crate::text::{blank, decimal, digit, is_white_space, joined, occurs_in};
use vstd::prelude::*;
use vstd::utf8::*;

verus! {

/// The number that a string of decimal digits stands for.
pub open spec fn decimal_value(text: Seq<char>) -> int
    decreases text.len(),
{
    if text.len() == 0 {
        0
    } else {
        10 * decimal_value(text.drop_last()) + (text.last() as int - '0' as int)
    }
}

/// Whether a string is made of decimal digits.
pub open spec fn all_digits(text: Seq<char>) -> bool {
    forall|i: int| 0 <= i < text.len() ==> '0' <= #[trigger] text[i] && text[i] <= '9'
}

proof fn lemma_digit(d: nat)
    requires
        d < 10,
    ensures
        digit(d).len() == 1,
        digit(d)[0] as int == d + '0' as int,
{
    reveal_strlit("0");
    reveal_strlit("1");
    reveal_strlit("2");
    reveal_strlit("3");
    reveal_strlit("4");
    reveal_strlit("5");
    reveal_strlit("6");
    reveal_strlit("7");
    reveal_strlit("8");
    reveal_strlit("9");
}

/// A number is written in decimal digits that stand for it, without leading zeros.
pub proof fn law_numbers_are_written_in_decimal(n: nat)
    ensures
        all_digits(decimal(n)),
        decimal_value(decimal(n)) == n,
        decimal(n).len() > 0,
        n > 0 ==> decimal(n)[0] != '0',
    decreases n,
{
    lemma_digit(n % 10);
    if n < 10 {
        let text = decimal(n);
        assert(text.drop_last() =~= Seq::empty());
        assert(decimal_value(text.drop_last()) == 0);
    } else {
        law_numbers_are_written_in_decimal(n / 10);
        let head = decimal(n / 10);
        let text = decimal(n);
        assert(text.drop_last() =~= head);
        assert(text.last() == digit(n % 10)[0]);
        assert(text[0] == head[0]);
        assert forall|i: int| 0 <= i < text.len() implies '0' <= #[trigger] text[i] && text[i]
            <= '9' by {
            if i < head.len() {
                assert(text[i] == head[i]);
            }
        }
    }
}

/// The size limit in decimal.
proof fn lemma_limit_in_decimal()
    ensures
        decimal(32_000) == "32000"@,
{
    reveal_with_fuel(decimal, 6);
    reveal_strlit("0");
    reveal_strlit("2");
    reveal_strlit("3");
    reveal_strlit("32000");
    assert(decimal(3) == "3"@);
    assert(decimal(32) == decimal(3) + "2"@);
    assert(decimal(320) == decimal(32) + "0"@);
    assert(decimal(3_200) == decimal(320) + "0"@);
    assert(decimal(32_000) == decimal(3_200) + "0"@);
    assert(decimal(32_000) =~= "32000"@);
}

/// Whether `text` is an output of more than 32000 bytes, cut: its first characters, as many
/// as take up 32000 bytes, and a note of the two sizes.
pub open spec fn is_cut(text: Seq<char>, output: Seq<char>) -> bool {
    exists|kept: int|
        0 <= kept <= output.len() && encode_utf8(#[trigger] output.take(kept)).len() == 32_000
            && text == output.take(kept) + "...\n\n[Output truncated: "@ + decimal(
            encode_utf8(output).len(),
        ) + " bytes total, showing first 32000 bytes]"@
}

/// Whether `text` is what the model is to be told of a call of the tool `name`: the tool's
/// own output, character for character, where that has at most 32000 bytes, and the output
/// cut otherwise, whether or not the tool succeeded; and the error where it could not be
/// run.
pub open spec fn tells(text: Seq<char>, name: Seq<char>, outcome: ToolOutcomeView) -> bool {
    match outcome {
        ToolOutcomeView::Finished { output, .. } => if encode_utf8(output).len() <= 32_000 {
            text == output
        } else {
            is_cut(text, output)
        },
        ToolOutcomeView::Failed { error } => text == "Error executing "@ + name + ": "@ + error,
    }
}

/// The model is told the output of a tool that ran, whole up to the limit, and the error of
/// one that could not be run.
pub proof fn law_the_model_is_told_the_output(outcome: ToolOutcomeView, name: Seq<char>)
    requires
        outcome.can_be_reported(),
    ensures
        tells(outcome.reply(name), name, outcome),
{
    if let ToolOutcomeView::Finished { output, .. } = outcome {
        if encode_utf8(output).len() > 32_000 {
            law_long_outputs_are_cut_with_a_note(output);
        }
    }
}

/// An output over the limit is cut, with a note of the two sizes.
pub proof fn law_long_outputs_are_cut_with_a_note(output: Seq<char>)
    requires
        encode_utf8(output).len() > 32_000,
        is_char_boundary(encode_utf8(output), 32_000),
    ensures
        is_cut(capped_output(output), output),
{
    lemma_limit_in_decimal();
    let bytes = encode_utf8(output);
    let head = decode_utf8(bytes.subrange(0, 32_000));
    encode_utf8_valid_utf8(output);
    encode_utf8_decode_utf8(output);
    valid_utf8_split(bytes, 32_000);
    decode_utf8_split(bytes, 32_000);
    decode_utf8_encode_utf8(bytes.subrange(0, 32_000));
    assert(output.take(head.len() as int) =~= head);
    reveal_strlit(" bytes total, showing first ");
    reveal_strlit("32000");
    reveal_strlit(" bytes]");
    reveal_strlit(" bytes total, showing first 32000 bytes]");
    assert(" bytes total, showing first "@ + "32000"@ + " bytes]"@
        =~= " bytes total, showing first 32000 bytes]"@);
    assert(capped_output(output) =~= output.take(head.len() as int)
        + "...\n\n[Output truncated: "@ + decimal(bytes.len())
        + " bytes total, showing first 32000 bytes]"@);
}

/// Every outcome can be reported, but for an output of more than 32000 bytes in which a
/// character lies across the limit.
pub proof fn law_reportable_outcomes(outcome: ToolOutcomeView)
    ensures
        outcome matches ToolOutcomeView::Finished { output, .. } ==> (can_be_capped(output)
            <==> outcome.can_be_reported()),
        outcome.can_be_reported() <==> match outcome {
            ToolOutcomeView::Finished { output, .. } => encode_utf8(output).len() <= 32_000
                || is_char_boundary(encode_utf8(output), 32_000),
            ToolOutcomeView::Failed { .. } => true,
        },
{
}

/// Whether `record` is the record of a call of the tool `name`: the name and one word for
/// the outcome.
pub open spec fn records_outcome(
    record: Seq<char>,
    name: Seq<char>,
    outcome: ToolOutcomeView,
) -> bool {
    match outcome {
        ToolOutcomeView::Finished { success, .. } => record == if success {
            name + ": "@ + "success"@
        } else {
            name + ": "@ + "failed"@
        },
        ToolOutcomeView::Failed { .. } => record == name + ": "@ + "error"@,
    }
}

/// A record holds the whole name of the tool, and says how the call ended.
pub proof fn law_records_say_what_happened(outcome: ToolOutcomeView, name: Seq<char>)
    ensures
        records_outcome(outcome.record(name), name, outcome),
{
}

/// Where an item begins in a text of items with a separator between each two of them.
pub open spec fn item_start(items: Seq<Seq<char>>, separator: Seq<char>, i: int) -> int
    decreases i,
{
    if i <= 0 {
        0
    } else {
        item_start(items, separator, i - 1) + items[i - 1].len() + separator.len()
    }
}

/// Whether `part` stands in `text` at the position `from`.
pub open spec fn stands_at(text: Seq<char>, from: int, part: Seq<char>) -> bool {
    &&& 0 <= from
    &&& from + part.len() <= text.len()
    &&& text.subrange(from, from + part.len()) == part
}

/// Whether the item `i` stands in `text` at its place, and the separator before it, unless
/// it is the first.
pub open spec fn item_stands(
    text: Seq<char>,
    items: Seq<Seq<char>>,
    separator: Seq<char>,
    i: int,
) -> bool {
    &&& stands_at(text, item_start(items, separator, i), items[i])
    &&& i > 0 ==> stands_at(text, item_start(items, separator, i) - separator.len(), separator)
}

/// Whether `text` is made of the items, in order, with the separator between each two of
/// them, and of nothing else.
pub open spec fn joins(text: Seq<char>, items: Seq<Seq<char>>, separator: Seq<char>) -> bool {
    if items.len() == 0 {
        text.len() == 0
    } else {
        &&& text.len() + separator.len() == item_start(items, separator, items.len() as int)
        &&& forall|i: int|
            0 <= i < items.len() ==> #[trigger] item_stands(text, items, separator, i)
    }
}

/// Whether `list` is made of the records, in order, one a line, and of nothing else.
pub open spec fn lists(list: Seq<char>, records: Seq<Seq<char>>) -> bool {
    records.len() > 0 && joins(list, records, "\n"@)
}

proof fn lemma_item_start_prefix(items: Seq<Seq<char>>, separator: Seq<char>, i: int)
    requires
        0 <= i < items.len(),
    ensures
        item_start(items, separator, i) == item_start(items.drop_last(), separator, i),
    decreases i,
{
    if i > 0 {
        lemma_item_start_prefix(items, separator, i - 1);
    }
}

proof fn lemma_still_stands(text: Seq<char>, more: Seq<char>, from: int, part: Seq<char>)
    requires
        stands_at(text, from, part),
    ensures
        stands_at(text + more, from, part),
{
    let to = from + part.len();
    assert((text + more).subrange(from, to) =~= text.subrange(from, to));
}

proof fn lemma_next_stands(text: Seq<char>, part: Seq<char>)
    ensures
        stands_at(text + part, text.len() as int, part),
{
    let from = text.len() as int;
    assert((text + part).subrange(from, from + part.len()) =~= part);
}

/// Joined items stand one after the other, all of them, with the separator between them.
pub proof fn law_joined_items_stand_in_order(items: Seq<Seq<char>>, separator: Seq<char>)
    ensures
        joins(joined(items, separator), items, separator),
    decreases items.len(),
{
    let text = joined(items, separator);
    if items.len() == 1 {
        assert(item_start(items, separator, 0) == 0);
        assert(item_start(items, separator, 1) == items[0].len() + separator.len());
        assert(text.subrange(0, items[0].len() as int) =~= items[0]);
    } else if items.len() > 1 {
        let last = items.len() - 1;
        let before = items.drop_last();
        let head = joined(before, separator);
        law_joined_items_stand_in_order(before, separator);
        lemma_item_start_prefix(items, separator, last);
        assert(item_start(items, separator, last + 1) == item_start(items, separator, last)
            + items[last].len() + separator.len());
        assert(text == head + separator + items[last]);
        assert(text =~= head + (separator + items[last]));
        assert forall|i: int| 0 <= i < items.len() implies #[trigger] item_stands(
            text,
            items,
            separator,
            i,
        ) by {
            lemma_item_start_prefix(items, separator, i);
            let from = item_start(items, separator, i);
            let rest = separator + items[last];
            if i < last {
                assert(item_stands(head, before, separator, i));
                lemma_still_stands(head, rest, from, items[i]);
                if i > 0 {
                    lemma_still_stands(head, rest, from - separator.len(), separator);
                }
            } else {
                lemma_next_stands(head + separator, items[last]);
                lemma_next_stands(head, separator);
                lemma_still_stands(head + separator, items[last], head.len() as int, separator);
            }
        }
    }
}

/// A text split at its line breaks.
pub open spec fn split_lines(text: Seq<char>) -> Seq<Seq<char>>
    decreases text.len(),
{
    if text.len() == 0 {
        seq![Seq::empty()]
    } else {
        let before = split_lines(text.drop_last());
        if text.last() == '\n' {
            before.push(Seq::empty())
        } else {
            before.drop_last().push(before.last().push(text.last()))
        }
    }
}

proof fn lemma_split_line(text: Seq<char>, line: Seq<char>)
    requires
        !line.contains('\n'),
    ensures
        split_lines(text).len() > 0,
        split_lines(text + line) == split_lines(text).drop_last().push(
            split_lines(text).last() + line,
        ),
    decreases text.len() + line.len(),
{
    if line.len() == 0 {
        assert(text + line =~= text);
        if text.len() > 0 {
            lemma_split_line(text.drop_last(), line);
        }
        let lines = split_lines(text);
        assert(lines.last() + line =~= lines.last());
        assert(lines.drop_last().push(lines.last()) =~= lines);
    } else {
        let shorter = line.drop_last();
        assert forall|i: int| 0 <= i < shorter.len() implies shorter[i] != '\n' by {
            assert(line.contains(line[i]));
        }
        lemma_split_line(text, shorter);
        assert((text + line).drop_last() =~= text + shorter);
        assert(line.contains(line.last()));
        let lines = split_lines(text);
        let before = split_lines(text + shorter);
        assert(before.drop_last() =~= lines.drop_last());
        assert(before.last().push(line.last()) =~= lines.last() + line);
    }
}

proof fn lemma_split_joined(records: Seq<Seq<char>>)
    requires
        records.len() > 0,
        forall|i: int| 0 <= i < records.len() ==> !(#[trigger] records[i]).contains('\n'),
    ensures
        split_lines(joined(records, "\n"@)) == records,
    decreases records.len(),
{
    reveal_strlit("\n");
    let line = records.last();
    assert(!records[records.len() - 1].contains('\n'));
    if records.len() == 1 {
        let none = Seq::<char>::empty();
        lemma_split_line(none, line);
        assert(none + line =~= line);
        assert(split_lines(line) =~= records);
    } else {
        let before = records.drop_last();
        assert forall|i: int| 0 <= i < before.len() implies !(#[trigger] before[i]).contains(
            '\n',
        ) by {
            assert(before[i] == records[i]);
        }
        lemma_split_joined(before);
        let head = joined(before, "\n"@) + "\n"@;
        assert(head.drop_last() =~= joined(before, "\n"@));
        assert(head.last() == '\n');
        assert(split_lines(head) == before.push(Seq::empty()));
        lemma_split_line(head, line);
        assert(before.push(Seq::<char>::empty()).drop_last() =~= before);
        assert(Seq::<char>::empty() + line =~= line);
        assert(before.push(line) =~= records);
    }
}

/// The list of executed tools holds the records of all calls, one a line, in order, whatever
/// their outcomes; split at its line breaks it gives back the records, where none of them
/// has one.
pub proof fn law_all_executed_tools_are_listed(executed: Seq<Seq<char>>)
    ensures
        executed.len() == 0 ==> tools_summary_text(executed) == "No tools executed"@,
        executed.len() > 0 ==> lists(tools_summary_text(executed), executed),
        executed.len() > 0 && (forall|i: int|
            0 <= i < executed.len() ==> !(#[trigger] executed[i]).contains('\n'))
            ==> split_lines(tools_summary_text(executed)) == executed,
{
    if executed.len() > 0 {
        law_joined_items_stand_in_order(executed, "\n"@);
        if forall|i: int| 0 <= i < executed.len() ==> !(#[trigger] executed[i]).contains('\n') {
            lemma_split_joined(executed);
        }
    }
}

/// Whether a text is made of white space alone.
pub open spec fn says_nothing(text: Seq<char>) -> bool {
    forall|i: int| 0 <= i < text.len() ==> is_white_space(#[trigger] text[i])
}

/// Whether `content` is what a report says of a run whose last text is `answer`: the answer
/// itself, unless it is blank; then that there was nothing at all, or how many calls were
/// made and how many of their records hold a word of success or of failure.
pub open spec fn answers(
    content: Seq<char>,
    subagent_type: Seq<char>,
    description: Seq<char>,
    executed: Seq<Seq<char>>,
    answer: Seq<char>,
) -> bool {
    if !says_nothing(answer) {
        content == answer
    } else if executed.len() == 0 {
        content == "The "@ + subagent_type
            + " subagent completed but produced no output or tool calls. This may indicate an issue with the task or model response."@
    } else {
        content == "The "@ + subagent_type + " subagent completed "@ + decimal(executed.len())
            + " tool call(s) ("@ + decimal(
            executed.filter(|record: Seq<char>| occurs_in("success"@, record)).len(),
        ) + " successful, "@ + decimal(
            executed.filter(
                |record: Seq<char>| occurs_in("error"@, record) || occurs_in("failed"@, record),
            ).len(),
        ) + " failed) but did not provide a textual summary. Task: "@ + description
    }
}

/// Whether `text` is a report with this content and this list of executed tools.
pub open spec fn reports(
    text: Seq<char>,
    content: Seq<char>,
    list: Seq<char>,
    id: Seq<char>,
    subagent_type: Seq<char>,
    description: Seq<char>,
) -> bool {
    text == content + "\n\nTools executed:\n"@ + list
        + "\n\n<task_metadata>\nsession_id: subagent_"@ + id + "\nagent_type: "@ + subagent_type
        + "\ndescription: "@ + description + "\n</task_metadata>"@
}

/// Whether `list` lists these records, or says that there are none.
pub open spec fn lists_or_none(list: Seq<char>, records: Seq<Seq<char>>) -> bool {
    if records.len() == 0 {
        list == "No tools executed"@
    } else {
        lists(list, records)
    }
}

proof fn lemma_same_filter(
    items: Seq<Seq<char>>,
    one: spec_fn(Seq<char>) -> bool,
    other: spec_fn(Seq<char>) -> bool,
)
    requires
        forall|item: Seq<char>| #[trigger] one(item) == other(item),
    ensures
        items.filter(one) == items.filter(other),
    decreases items.len(),
{
    reveal(Seq::filter);
    if items.len() > 0 {
        lemma_same_filter(items.drop_last(), one, other);
        assert(one(items.last()) == other(items.last()));
    }
}

/// The content of a report is the answer, or what stands in for it.
pub proof fn law_contents_answer(
    subagent_type: Seq<char>,
    description: Seq<char>,
    executed: Seq<Seq<char>>,
    answer: Seq<char>,
)
    ensures
        answers(
            effective_content_text(subagent_type, description, executed, answer),
            subagent_type,
            description,
            executed,
            answer,
        ),
{
    assert(blank(answer) == says_nothing(answer));
    law_records_are_counted_by_words(executed);
}

/// The counts of a report are those of the records that hold a word of success, and of those
/// that hold a word of failure.
pub proof fn law_records_are_counted_by_words(executed: Seq<Seq<char>>)
    ensures
        success_count(executed) == executed.filter(
            |record: Seq<char>| occurs_in("success"@, record),
        ).len(),
        failure_count(executed) == executed.filter(
            |record: Seq<char>| occurs_in("error"@, record) || occurs_in("failed"@, record),
        ).len(),
{
    let good = |record: Seq<char>| occurs_in("success"@, record);
    let bad = |record: Seq<char>| occurs_in("error"@, record) || occurs_in("failed"@, record);
    lemma_same_filter(executed, |record: Seq<char>| counts_as_success(record), good);
    lemma_same_filter(executed, |record: Seq<char>| counts_as_failure(record), bad);
}

/// A report is the answer of the model, or what stands in for it, then the list of all
/// executed tools, one a line, then which subagent wrote it.
pub proof fn law_reports_are_complete(
    id: Seq<char>,
    subagent_type: Seq<char>,
    description: Seq<char>,
    executed: Seq<Seq<char>>,
    answer: Seq<char>,
) -> (parts: (Seq<char>, Seq<char>))
    ensures
        answers(parts.0, subagent_type, description, executed, answer),
        lists_or_none(parts.1, executed),
        executed.len() > 0 && (forall|i: int|
            0 <= i < executed.len() ==> !(#[trigger] executed[i]).contains('\n')) ==> split_lines(
            parts.1,
        ) == executed,
        reports(
            report_text(id, subagent_type, description, executed, answer),
            parts.0,
            parts.1,
            id,
            subagent_type,
            description,
        ),
{
    let list = tools_summary_text(executed);
    law_all_executed_tools_are_listed(executed);
    let content = effective_content_text(
        subagent_type,
        description,
        executed,
        answer,
    );
    law_contents_answer(subagent_type, description, executed, answer);
    let text = report_text(id, subagent_type, description, executed, answer);
    reveal_strlit("\n\n");
    reveal_strlit("<task_metadata>\nsession_id: ");
    reveal_strlit("subagent_");
    reveal_strlit("\n\n<task_metadata>\nsession_id: subagent_");
    assert("\n\n"@ + "<task_metadata>\nsession_id: "@ + "subagent_"@
        =~= "\n\n<task_metadata>\nsession_id: subagent_"@);
    assert(text =~= content + "\n\nTools executed:\n"@ + list + ("\n\n"@
        + "<task_metadata>\nsession_id: "@ + "subagent_"@) + id + "\nagent_type: "@
        + subagent_type + "\ndescription: "@ + description + "\n</task_metadata>"@);
    (content, list)
}

/// The last text of a model is kept as it is; only where it says nothing after tool calls
/// does their number stand in for it.
pub proof fn law_last_texts_are_kept(executed: nat, text: Seq<char>)
    ensures
        closing_content(executed, text) == if executed > 0 && says_nothing(text) {
            "Task completed with "@ + decimal(executed) + " tool call(s)."@
        } else {
            text
        },
{
    assert(blank(text) == says_nothing(text));
}

} // verus!
