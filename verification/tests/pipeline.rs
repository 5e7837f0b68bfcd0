use clash_md::{convert, detect_mode, Mode, ParseError};

const SENTINEL: &str = "The game mode is REVERSE: You do not have access to the statement. You have to guess what to do by observing the following set of tests:";

fn lines_of(text: &str) -> Vec<String> {
    text.lines().map(|l| l.to_string()).collect()
}

#[test]
fn detects_reverse_layout() {
    assert_eq!(detect_mode(SENTINEL), Some(Mode::Reverse));
}

#[test]
fn detects_fastest_layout() {
    assert_eq!(detect_mode("Goal"), Some(Mode::Fastest));
}

#[test]
fn detection_is_exact_match_only() {
    assert_eq!(detect_mode("goal"), None);
    assert_eq!(detect_mode("Goal "), None);
    assert_eq!(detect_mode(&SENTINEL[..SENTINEL.len() - 1]), None);
}

#[test]
fn unrecognised_first_line_aborts() {
    let r = convert(&lines_of("Something else\nGoal\n"));
    assert_eq!(r.unwrap_err(), ParseError::UnrecognizedFormat);
}

#[test]
fn empty_input_aborts() {
    let r = convert(&Vec::new());
    assert_eq!(r.unwrap_err(), ParseError::UnrecognizedFormat);
}

#[test]
fn error_messages_name_the_missing_sentinel() {
    assert_eq!(
        ParseError::UnrecognizedFormat.message(),
        "first line matches no known layout"
    );
    assert_eq!(
        ParseError::MissingTestLabel.message(),
        "expected a line starting with \"Test\""
    );
    assert_eq!(ParseError::MissingInputLabel.message(), "expected the line \"Input\"");
    assert_eq!(
        ParseError::MissingExpectedOutputLabel.message(),
        "expected the line \"Expected output\""
    );
    assert_eq!(
        ParseError::MissingBlankSeparator.message(),
        "expected a blank line after the test header"
    );
    assert_eq!(
        ParseError::MissingExampleInput.message(),
        "expected the line \"Input\" opening the example"
    );
}
