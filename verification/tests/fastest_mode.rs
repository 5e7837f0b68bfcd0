use clash_md::convert;
use clash_md::fastest::{parse_fastest, parse_statement, render_fastest};
use clash_md::ParseError;

fn lines_of(text: &str) -> Vec<String> {
    text.lines().map(|l| l.to_string()).collect()
}

#[test]
fn scenario_full_statement() {
    let input = "Goal\nDo X\nInput\nRead A\nOutput\nPrint B\nConstraints\n1<=A<=9\nExample\nInput\n5\nOutput\n10\n";
    let out = convert(&lines_of(input)).unwrap();
    assert!(out.contains("**Goal**"));
    assert!(out.contains("> Do X"));
    assert!(out.contains("```\nRead A\n```"));
    assert!(out.contains("```\nPrint B\n```"));
    assert!(out.contains("```\n1<=A<=9\n```"));
    let expected = "**Goal**\n\n> Do X\n\n`Input`\n```\nRead A\n```\n\n`Output`\n```\nPrint B\n```\n\n`Constraints`\n```\n1<=A<=9\n```\n\n> Example\n\n`Input`\n```\n5\n```\n\n`Output`\n```\n10\n```";
    assert_eq!(out, expected);
}

#[test]
fn sections_are_trimmed_and_escaped_blanks_dropped() {
    let input = "Goal\n  a*b  \n\nsecond\nInput\nin\nOutput\nout\nConstraints\nc\nExample\nInput\n1\nOutput\n2\n";
    let lines = lines_of(input);
    let st = parse_statement(&lines).unwrap();
    assert_eq!(st.question, vec!["a\\*b".to_string(), "second".to_string()]);
    let out = convert(&lines).unwrap();
    assert!(out.contains("> a\\*b\n> second"));
}

#[test]
fn example_lines_stay_verbatim() {
    let input = "Goal\nq\nInput\ni\nOutput\no\nConstraints\nc\nExample\nInput\n  5 * 3  \n\n7\nOutput\n15\n";
    let lines = lines_of(input);
    let st = parse_statement(&lines).unwrap();
    assert_eq!(
        st.example_input,
        vec!["  5 * 3  ".to_string(), "7".to_string()]
    );
    assert_eq!(st.example_output, vec!["15".to_string()]);
}

#[test]
fn text_after_second_output_line_is_ignored() {
    let input = "Goal\nq\nInput\ni\nOutput\no\nConstraints\nc\nExample\nInput\n1\nOutput\n2\nOutput\nignored\n";
    let lines = lines_of(input);
    let st = parse_statement(&lines).unwrap();
    assert_eq!(st.example_output, vec!["2".to_string()]);
}

#[test]
fn missing_example_input_aborts() {
    let input = "Goal\nq\nInput\ni\nOutput\no\nConstraints\nc\nExample\nwrong\n";
    let r = parse_fastest(&lines_of(input));
    assert_eq!(r.unwrap_err(), ParseError::MissingExampleInput);
}

#[test]
fn truncated_after_constraints_aborts() {
    let input = "Goal\nq\nInput\ni\nOutput\no\nConstraints\nc\n";
    let r = parse_fastest(&lines_of(input));
    assert_eq!(r.unwrap_err(), ParseError::MissingExampleInput);
}

#[test]
fn empty_sections_render_empty_fences() {
    let input = "Goal\nInput\nOutput\nConstraints\nExample\nInput\nOutput\n";
    let out = convert(&lines_of(input)).unwrap();
    let expected = "**Goal**\n\n\n\n`Input`\n```\n```\n\n`Output`\n```\n```\n\n`Constraints`\n```\n```\n\n> Example\n\n`Input`\n```\n```\n\n`Output`\n```\n```";
    assert_eq!(out, expected);
}

#[test]
fn fastest_rendering_is_pure_of_the_record() {
    let input = "Goal\nq\nInput\ni\nOutput\no\nConstraints\nc\nExample\nInput\n1\nOutput\n2\n";
    let lines = lines_of(input);
    let st = parse_statement(&lines).unwrap();
    let once = render_fastest(&st);
    let twice = render_fastest(&st);
    assert_eq!(once, twice);
}
