use tip::utility_functions::{is_yes, parse_input_string, user_confirmation};

#[test]
fn confirmation_is_the_letter_y() {
    assert!(user_confirmation("y"));
    assert!(user_confirmation("Y"));
    assert!(user_confirmation("y\n"));
    assert!(user_confirmation("Y\r\n"));
    assert!(user_confirmation("  y \t"));
}

#[test]
fn confirmation_is_nothing_else() {
    assert!(!user_confirmation(""));
    assert!(!user_confirmation("\n"));
    assert!(!user_confirmation("n"));
    assert!(!user_confirmation("yes"));
    assert!(!user_confirmation("y y"));
    assert!(!user_confirmation("yy"));
    assert!(!user_confirmation("N\n"));
}

#[test]
fn is_yes_takes_the_reply_as_given() {
    assert!(is_yes("y"));
    assert!(!is_yes("Y"));
    assert!(!is_yes(" y"));
    assert!(!is_yes("y\n"));
    assert!(!is_yes(""));
    assert!(!is_yes("yes"));
}

#[test]
fn parse_input_string_keeps_ascii_letters_and_digits() {
    assert_eq!(parse_input_string("Hello, World 123!"), "helloworld123");
    assert_eq!(parse_input_string(""), "");
    assert_eq!(parse_input_string("  \t\n"), "");
    assert_eq!(parse_input_string("abcXYZ019"), "abcxyz019");
    assert_eq!(parse_input_string("AZaz09"), "azaz09");
    assert_eq!(parse_input_string("@[`{/:"), "");
}

#[test]
fn parse_input_string_drops_what_is_not_ascii() {
    assert_eq!(parse_input_string("Größe Ä4"), "gre4");
    assert_eq!(parse_input_string("１２３"), "");
}

#[test]
fn parse_input_string_agrees_with_std() {
    for input in ["Tip-2.0.1", "a_b C", "ÀB", "q!Q", "0"] {
        let expected: String = input
            .chars()
            .filter(|c| c.is_ascii_alphanumeric())
            .map(|c| c.to_ascii_lowercase())
            .collect();
        assert_eq!(parse_input_string(input), expected);
    }
}
