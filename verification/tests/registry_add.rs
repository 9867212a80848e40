use tip::command_functions::{add_target, find_target, AddOutcome};
use tip::file_action::FileAction;

#[test]
fn add_new_name_appends_one_line() {
    let content = "a=1\nb=2\n";
    let r = add_target(content, "c", "3", None);
    assert_eq!(r.outcome, AddOutcome::Added);
    assert_eq!(r.action, FileAction::Append("c=3\n".to_string()));
    assert_eq!(r.action.apply(content), "a=1\nb=2\nc=3\n");
}

#[test]
fn add_to_empty_registry() {
    let r = add_target("", "web", "10.0.0.1", None);
    assert_eq!(r.outcome, AddOutcome::Added);
    assert_eq!(r.action.apply(""), "web=10.0.0.1\n");
}

#[test]
fn add_new_name_does_not_look_at_the_answer() {
    for answer in [None, Some(true), Some(false)] {
        let r = add_target("a=1\n", "b", "2", answer);
        assert_eq!(r.outcome, AddOutcome::Added);
        assert_eq!(r.action, FileAction::Append("b=2\n".to_string()));
    }
}

#[test]
fn add_existing_name_asks_first() {
    let content = "a=1\nb=2\n";
    let r = add_target(content, "b", "9", None);
    assert_eq!(r.outcome, AddOutcome::NeedsConfirmation);
    assert_eq!(r.action, FileAction::Keep);
    assert_eq!(r.action.apply(content), content);
}

#[test]
fn add_existing_name_accepted_updates_in_place() {
    let content = "a=1\nb=2\nc=3\n";
    let r = add_target(content, "b", "9", Some(true));
    assert_eq!(r.outcome, AddOutcome::Updated);
    assert_eq!(r.action, FileAction::Replace("a=1\nb=9\nc=3\n".to_string()));
    assert_eq!(r.action.apply(content), "a=1\nb=9\nc=3\n");
}

#[test]
fn add_existing_name_declined_keeps_the_file() {
    let content = "a=1\nb=2\nc=3\n";
    let r = add_target(content, "b", "9", Some(false));
    assert_eq!(r.outcome, AddOutcome::NotUpdated);
    assert_eq!(r.action, FileAction::Keep);
    assert_eq!(r.action.apply(content).as_bytes(), content.as_bytes());
}

#[test]
fn add_updates_the_first_of_two_lines_with_the_name() {
    let r = add_target("a=1\nb=2\na=3\n", "a", "7", Some(true));
    assert_eq!(r.outcome, AddOutcome::Updated);
    assert_eq!(r.action, FileAction::Replace("a=7\nb=2\na=3\n".to_string()));
}

#[test]
fn add_replaces_a_line_without_delimiter_that_is_the_name() {
    let r = add_target("foo\nbar=1\n", "foo", "2", Some(true));
    assert_eq!(r.outcome, AddOutcome::Updated);
    assert_eq!(r.action, FileAction::Replace("foo=2\nbar=1\n".to_string()));
}

#[test]
fn add_matches_the_text_before_the_first_delimiter() {
    let r = add_target("a=b=c\n", "a", "1", None);
    assert_eq!(r.outcome, AddOutcome::NeedsConfirmation);
    let r = add_target("a=b=c\n", "a=b", "1", None);
    assert_eq!(r.outcome, AddOutcome::Added);
    assert_eq!(r.action, FileAction::Append("a=b=1\n".to_string()));
}

#[test]
fn add_does_not_match_a_prefix_of_a_name() {
    let r = add_target("web1=1\n", "web", "2", None);
    assert_eq!(r.outcome, AddOutcome::Added);
    let r = add_target("web=1\n", "web1", "2", None);
    assert_eq!(r.outcome, AddOutcome::Added);
}

#[test]
fn add_rewrite_ends_every_line_with_a_line_feed() {
    let r = add_target("a=1\r\nb=2", "b", "9", Some(true));
    assert_eq!(r.outcome, AddOutcome::Updated);
    assert_eq!(r.action, FileAction::Replace("a=1\nb=9\n".to_string()));
}

#[test]
fn add_appends_after_a_last_line_without_line_feed() {
    let content = "a=1";
    let r = add_target(content, "b", "2", None);
    assert_eq!(r.outcome, AddOutcome::Added);
    assert_eq!(r.action.apply(content), "a=1b=2\n");
}

#[test]
fn add_accepts_empty_name_and_address() {
    let r = add_target("a=1\n", "", "", None);
    assert_eq!(r.outcome, AddOutcome::Added);
    assert_eq!(r.action, FileAction::Append("=\n".to_string()));
    let r = add_target("\n", "", "x", None);
    assert_eq!(r.outcome, AddOutcome::NeedsConfirmation);
}

#[test]
fn add_keeps_text_that_is_not_ascii() {
    let r = add_target("größe=1\n", "größe", "zwölf", Some(true));
    assert_eq!(r.outcome, AddOutcome::Updated);
    assert_eq!(r.action, FileAction::Replace("größe=zwölf\n".to_string()));
}

#[test]
fn add_outcome_messages() {
    assert_eq!(AddOutcome::Added.message(), "Target added");
    assert_eq!(AddOutcome::Updated.message(), "Target updated");
    assert_eq!(AddOutcome::NotUpdated.message(), "Target not updated");
    assert_eq!(
        AddOutcome::NeedsConfirmation.message(),
        "The entry already exists, would you like to update it? y/n"
    );
}

#[test]
fn find_target_gives_the_first_position() {
    let lines = vec!["a=1".to_string(), "b=2".to_string(), "b=3".to_string()];
    assert_eq!(find_target(&lines, "a"), Some(0));
    assert_eq!(find_target(&lines, "b"), Some(1));
    assert_eq!(find_target(&lines, "c"), None);
    assert_eq!(find_target(&Vec::new(), "a"), None);
}

#[test]
fn file_action_apply() {
    assert_eq!(FileAction::Keep.apply("x\n"), "x\n");
    assert_eq!(FileAction::Append("y\n".to_string()).apply("x\n"), "x\ny\n");
    assert_eq!(FileAction::Replace("y\n".to_string()).apply("x\n"), "y\n");
    assert!(FileAction::Keep.is_keep());
    assert!(!FileAction::Append(String::new()).is_keep());
    assert!(!FileAction::Replace(String::new()).is_keep());
}
