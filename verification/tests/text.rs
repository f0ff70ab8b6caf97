use subagent::report::count_outcomes;
use subagent::text::{decimal_text, is_blank, join, owned, same_text};

#[test]
fn blank_agrees_with_trim_on_every_character() {
    for n in 0..=0x10ffffu32 {
        if let Some(c) = char::from_u32(n) {
            let text = c.to_string();
            assert_eq!(is_blank(&text), c.is_whitespace(), "{:x}", n);
        }
    }
}

#[test]
fn blank_looks_at_the_whole_text() {
    assert!(is_blank(""));
    assert!(is_blank(" \t\n\u{3000}"));
    assert!(!is_blank("  x  "));
    assert!(!is_blank("x  "));
    assert!(!is_blank("  x"));
}

#[test]
fn numbers_are_written_in_decimal() {
    assert_eq!(decimal_text(0), "0");
    assert_eq!(decimal_text(9), "9");
    assert_eq!(decimal_text(10), "10");
    assert_eq!(decimal_text(32_000), "32000");
    assert_eq!(decimal_text(1_234_567_890), "1234567890");
    assert_eq!(decimal_text(usize::MAX), usize::MAX.to_string());
}

#[test]
fn lines_are_joined_between_items_only() {
    assert_eq!(join(&vec![], "\n"), "");
    assert_eq!(join(&vec!["a".to_string()], "\n"), "a");
    assert_eq!(
        join(&vec!["a".to_string(), "".to_string(), "c".to_string()], "\n"),
        "a\n\nc"
    );
}

#[test]
fn texts_are_compared_by_their_characters() {
    assert!(same_text("Task", "Task"));
    assert!(!same_text("Task", "task"));
    assert_eq!(owned(Some("x")), Some("x".to_string()));
    assert_eq!(owned(None), None);
}

#[test]
fn records_are_counted_by_the_words_they_hold() {
    let records = |lines: &[&str]| lines.iter().map(|l| l.to_string()).collect::<Vec<_>>();
    assert_eq!(count_outcomes(&records(&[])), (0, 0));
    assert_eq!(
        count_outcomes(&records(&["Read: success", "Edit: failed", "Grep: error", "LS: success"])),
        (2, 2)
    );
    // A tool's own name can make a record count twice.
    assert_eq!(count_outcomes(&records(&["show_errors: success"])), (1, 1));
    assert_eq!(count_outcomes(&records(&["Read: succes"])), (0, 0));
}
