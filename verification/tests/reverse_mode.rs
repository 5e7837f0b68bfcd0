use clash_md::convert;
use clash_md::reverse::{parse_reverse, parse_reverse_tests, render_reverse};
use clash_md::ParseError;

const SENTINEL: &str = "The game mode is REVERSE: You do not have access to the statement. You have to guess what to do by observing the following set of tests:";
const HEADER: &str = "*The game mode is **REVERSE:** You do not have access to the statement. You have to guess what to do by observing the following set of tests:*";

fn lines_of(text: &str) -> Vec<String> {
    text.lines().map(|l| l.to_string()).collect()
}

#[test]
fn scenario_one_test_block() {
    let mut input = String::from(SENTINEL);
    input.push_str("\n1\nTest 1\nInput\nExpected output\n\n3\n4\n\n5\n6\n\n");
    let out = convert(&lines_of(&input)).unwrap();
    assert!(out.contains("`Test1`"));
    assert!(out.contains("```\n3\n4\n```"));
    assert!(out.contains("```\n5\n6\n```"));
    let expected = format!(
        "{HEADER}\n\n> `Test1`\n\n__Input__\n```\n3\n4\n```\n\n__Expected output__\n```\n5\n6\n```\n"
    );
    assert_eq!(out, expected);
}

#[test]
fn two_blocks_keep_encountered_order() {
    let mut input = String::from(SENTINEL);
    input.push_str("\n2\nTest 2\nInput\nExpected output\n\na\n\nb\n\n");
    input.push_str("1\nTest 1\nInput\nExpected output\n\nc\n\nd\n\n");
    let out = convert(&lines_of(&input)).unwrap();
    let expected = format!(
        "{HEADER}\n\n> `Test2`\n\n__Input__\n```\na\n```\n\n__Expected output__\n```\nb\n```\n\n> `Test1`\n\n__Input__\n```\nc\n```\n\n__Expected output__\n```\nd\n```\n"
    );
    assert_eq!(out, expected);
    let pos2 = out.find("`Test2`").unwrap();
    let pos1 = out.find("`Test1`").unwrap();
    assert!(pos2 < pos1);
}

#[test]
fn empty_blocks_render_empty_fences() {
    let mut input = String::from(SENTINEL);
    input.push_str("\n1\nTest 1\nInput\nExpected output\n\n\n\n");
    let lines = lines_of(&input);
    let tests = parse_reverse_tests(&lines).unwrap();
    assert_eq!(tests.len(), 1);
    assert_eq!(tests[0].index, 1);
    assert!(tests[0].input_block.is_empty());
    assert!(tests[0].output_block.is_empty());
    let out = convert(&lines).unwrap();
    let expected =
        format!("{HEADER}\n\n> `Test1`\n\n__Input__\n```\n\n```\n\n__Expected output__\n```\n\n```\n");
    assert_eq!(out, expected);
}

#[test]
fn no_blocks_renders_header_only() {
    let out = convert(&lines_of(SENTINEL)).unwrap();
    assert_eq!(out, format!("{HEADER}\n\n"));
}

#[test]
fn repeated_sentinel_mid_stream_is_skipped() {
    let mut input = String::from(SENTINEL);
    input.push_str("\n");
    input.push_str(SENTINEL);
    input.push_str("\n1\nTest 1\nInput\nExpected output\n\nx\n\ny\n\n");
    let out = convert(&lines_of(&input)).unwrap();
    assert!(out.contains("`Test1`"));
    assert!(out.contains("```\nx\n```"));
}

#[test]
fn reverse_rendering_is_pure_of_the_record() {
    let mut input = String::from(SENTINEL);
    input.push_str("\n7\nTest 7\nInput\nExpected output\n\np\n\nq\n\n");
    let lines = lines_of(&input);
    let tests = parse_reverse_tests(&lines).unwrap();
    let once = render_reverse(&tests);
    let twice = render_reverse(&tests);
    assert_eq!(once, twice);
}

#[test]
fn index_is_taken_verbatim() {
    let mut input = String::from(SENTINEL);
    input.push_str("\n65535\nTest 65535\nInput\nExpected output\n\na\n\nb\n\n");
    let lines = lines_of(&input);
    let tests = parse_reverse_tests(&lines).unwrap();
    assert_eq!(tests[0].index, 65535);
}

#[test]
fn oversized_number_is_no_block_start() {
    let mut input = String::from(SENTINEL);
    input.push_str("\n65536\nstray\n");
    let lines = lines_of(&input);
    let tests = parse_reverse_tests(&lines).unwrap();
    assert_eq!(tests.len(), 0);
}

#[test]
fn leading_zeros_still_number_a_block() {
    let mut input = String::from(SENTINEL);
    input.push_str("\n007\nTest 7\nInput\nExpected output\n\na\n\nb\n\n");
    let lines = lines_of(&input);
    let tests = parse_reverse_tests(&lines).unwrap();
    assert_eq!(tests[0].index, 7);
}

#[test]
fn missing_test_label_aborts() {
    let mut input = String::from(SENTINEL);
    input.push_str("\n1\nwrong\nInput\nExpected output\n\na\n\nb\n\n");
    let r = parse_reverse(&lines_of(&input));
    assert_eq!(r.unwrap_err(), ParseError::MissingTestLabel);
}

#[test]
fn missing_input_label_aborts() {
    let mut input = String::from(SENTINEL);
    input.push_str("\n1\nTest 1\nwrong\nExpected output\n\na\n\nb\n\n");
    let r = parse_reverse(&lines_of(&input));
    assert_eq!(r.unwrap_err(), ParseError::MissingInputLabel);
}

#[test]
fn missing_expected_output_label_aborts() {
    let mut input = String::from(SENTINEL);
    input.push_str("\n1\nTest 1\nInput\nwrong\n\na\n\nb\n\n");
    let r = parse_reverse(&lines_of(&input));
    assert_eq!(r.unwrap_err(), ParseError::MissingExpectedOutputLabel);
}

#[test]
fn missing_blank_separator_aborts() {
    let mut input = String::from(SENTINEL);
    input.push_str("\n1\nTest 1\nInput\nExpected output\nnot blank\na\n\nb\n\n");
    let r = parse_reverse(&lines_of(&input));
    assert_eq!(r.unwrap_err(), ParseError::MissingBlankSeparator);
}

#[test]
fn truncated_header_aborts() {
    let mut input = String::from(SENTINEL);
    input.push_str("\n1\nTest 1");
    let r = parse_reverse(&lines_of(&input));
    assert_eq!(r.unwrap_err(), ParseError::MissingInputLabel);
}

#[test]
fn body_running_to_end_of_input_is_kept() {
    let mut input = String::from(SENTINEL);
    input.push_str("\n1\nTest 1\nInput\nExpected output\n\na\nb");
    let lines = lines_of(&input);
    let tests = parse_reverse_tests(&lines).unwrap();
    assert_eq!(tests.len(), 1);
    assert_eq!(tests[0].input_block, vec!["a".to_string(), "b".to_string()]);
    assert!(tests[0].output_block.is_empty());
}
