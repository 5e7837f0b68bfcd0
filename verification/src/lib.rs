//! Converts copy-pasted coding-challenge puzzle statements into formatted
//! document text.
//!
//! The input text comes in one of two layouts, told apart by the exact first
//! line: a "reverse" layout holding only numbered input/output test pairs, and
//! a "fastest" layout holding a full statement (goal, input spec, output spec,
//! constraints, and one worked example). The library parses either layout into
//! a typed record and renders the record back out with light markup (quoted
//! lines, fenced code blocks, headers).
//!
//! All functions work on the input already split into lines; reading the file,
//! splitting it, and writing the result belong to the surrounding program.

pub mod fastest;
pub mod reverse;
pub mod text;

use vstd::prelude::*;

verus! {

/// The two recognised input layouts.
#[derive(Clone, Copy, Debug, PartialEq, Eq, Structural)]
pub enum Mode {
    /// Test pairs only, no statement.
    Reverse,
    /// Full statement with one worked example.
    Fastest,
}

/// A structural violation that aborts a conversion. Every variant names the
/// exact sentinel that was expected and not found.
#[derive(Clone, Copy, Debug, PartialEq, Eq, Structural)]
pub enum ParseError {
    /// The first line matches neither known layout.
    UnrecognizedFormat,
    /// A numbered test block is not followed by a line starting with `Test`.
    MissingTestLabel,
    /// The `Input` sentinel of a test block is absent.
    MissingInputLabel,
    /// The `Expected output` sentinel of a test block is absent.
    MissingExpectedOutputLabel,
    /// The blank line separating a test header from its body is absent.
    MissingBlankSeparator,
    /// The `Input` sentinel opening the worked example is absent.
    MissingExampleInput,
}

/// The diagnostic text of each failure.
pub open spec fn error_message(e: ParseError) -> Seq<char> {
    match e {
        ParseError::UnrecognizedFormat => "first line matches no known layout"@,
        ParseError::MissingTestLabel => "expected a line starting with \"Test\""@,
        ParseError::MissingInputLabel => "expected the line \"Input\""@,
        ParseError::MissingExpectedOutputLabel => "expected the line \"Expected output\""@,
        ParseError::MissingBlankSeparator => "expected a blank line after the test header"@,
        ParseError::MissingExampleInput => "expected the line \"Input\" opening the example"@,
    }
}

impl ParseError {
    /// A short description of the failure, for diagnostics.
    pub fn message(&self) -> (r: &'static str)
        ensures
            r@ == error_message(*self),
    {
        match self {
            ParseError::UnrecognizedFormat => "first line matches no known layout",
            ParseError::MissingTestLabel => "expected a line starting with \"Test\"",
            ParseError::MissingInputLabel => "expected the line \"Input\"",
            ParseError::MissingExpectedOutputLabel => "expected the line \"Expected output\"",
            ParseError::MissingBlankSeparator => "expected a blank line after the test header",
            ParseError::MissingExampleInput => "expected the line \"Input\" opening the example",
        }
    }
}

/// Which layout a first line announces: the reverse sentinel and `Goal` are
/// matched exactly, anything else is unrecognised.
pub open spec fn spec_detect(first: Seq<char>) -> Option<Mode> {
    if first == reverse::reverse_sentinel() {
        Some(Mode::Reverse)
    } else if first == "Goal"@ {
        Some(Mode::Fastest)
    } else {
        None
    }
}

/// Inspects the first line of the input and selects the parsing strategy.
/// No partial matching and no case folding.
pub fn detect_mode(first: &str) -> (r: Option<Mode>)
    ensures
        r == spec_detect(first@),
{
    if text::str_eq(
        first,
        "The game mode is REVERSE: You do not have access to the statement. You have to guess what to do by observing the following set of tests:",
    ) {
        Some(Mode::Reverse)
    } else if text::str_eq(first, "Goal") {
        Some(Mode::Fastest)
    } else {
        None
    }
}

/// What converting any input yields: the rendered document of whichever
/// layout the first line announces, a structural violation met on the way,
/// or `UnrecognizedFormat` when the first line matches neither sentinel
/// (including when there is no line at all).
pub open spec fn spec_convert(lv: Seq<Seq<char>>) -> Result<Seq<char>, ParseError> {
    if lv.len() == 0 {
        Err(ParseError::UnrecognizedFormat)
    } else {
        match spec_detect(lv[0]) {
            Some(Mode::Reverse) => reverse::reverse_doc(lv),
            Some(Mode::Fastest) => fastest::fastest_doc(lv),
            None => Err(ParseError::UnrecognizedFormat),
        }
    }
}

/// The whole pipeline: detect the layout from the first line, parse it, and
/// render the result. `lines` is the input text split into lines, with the
/// surrounding whitespace of the whole text already trimmed away.
pub fn convert(lines: &Vec<String>) -> (r: Result<String, ParseError>)
    ensures
        ({
            let d = spec_convert(text::line_views(lines@));
            match r {
                Ok(s) => d == Ok::<_, ParseError>(s@),
                Err(e) => d == Err::<Seq<char>, _>(e),
            }
        }),
{
    if lines.len() == 0 {
        return Err(ParseError::UnrecognizedFormat);
    }
    match detect_mode(lines[0].as_str()) {
        Some(Mode::Reverse) => reverse::parse_reverse(lines),
        Some(Mode::Fastest) => fastest::parse_fastest(lines),
        None => Err(ParseError::UnrecognizedFormat),
    }
}

} // verus!
