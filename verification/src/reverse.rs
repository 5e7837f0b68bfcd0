//! The reverse layout: a sentinel first line, then any number of numbered
//! test blocks, each carrying an input section and an expected-output
//! section. Parsing collects the blocks in encountered order; rendering wraps
//! each block's lines in fenced code blocks under a labeled header.

use vstd::prelude::*;
use vstd::string::StringExecFns;

use crate::ParseError;
use crate::text::{
    dec_digits, find_blank, is_index_line, join_nl, lemma_find_blank_bounds, line_views,
    next_after, parse_index, push_dec, spec_starts_with, str_eq, str_starts_with, uint_val,
};

verus! {

/// The exact first line announcing the reverse layout.
pub open spec fn reverse_sentinel() -> Seq<char> {
    "The game mode is REVERSE: You do not have access to the statement. You have to guess what to do by observing the following set of tests:"@
}

/// The header line of the rendered reverse document.
pub open spec fn reverse_header() -> Seq<char> {
    "*The game mode is **REVERSE:** You do not have access to the statement. You have to guess what to do by observing the following set of tests:*"@
}

/// One numbered test block: its declared ordinal (taken verbatim from the
/// input, not necessarily contiguous) and its two bodies of raw lines, each
/// possibly empty.
pub struct TestCase {
    /// The test's declared number.
    pub index: u16,
    /// The lines of the input section, verbatim.
    pub input_block: Vec<String>,
    /// The lines of the expected-output section, verbatim.
    pub output_block: Vec<String>,
}

/// The mathematical shape of a test block.
pub struct TestCaseV {
    /// The test's declared number.
    pub index: int,
    /// The input lines.
    pub input_block: Seq<Seq<char>>,
    /// The expected-output lines.
    pub output_block: Seq<Seq<char>>,
}

impl View for TestCase {
    type V = TestCaseV;

    open spec fn view(&self) -> TestCaseV {
        TestCaseV {
            index: self.index as int,
            input_block: line_views(self.input_block@),
            output_block: line_views(self.output_block@),
        }
    }
}

/// The views of a sequence of test cases.
pub open spec fn tests_view(ts: Seq<TestCase>) -> Seq<TestCaseV> {
    Seq::new(ts.len(), |i: int| ts[i]@)
}

// ---------------------------------------------------------------------------
// Parsing
// ---------------------------------------------------------------------------

/// The test blocks read from `lv` starting at line `i`, or the first
/// structural violation. A line that is not a bare unsigned integer is
/// skipped (this tolerates a repeated sentinel line mid-stream); an integer
/// line opens a block whose four header lines are required, after which the
/// two bodies run to the next blank line each.
pub open spec fn parse_reverse_from(lv: Seq<Seq<char>>, i: int) -> Result<
    Seq<TestCaseV>,
    ParseError,
>
    decreases lv.len() - i,
    when 0 <= i <= lv.len()
    via parse_reverse_from_decreases
{
    if i >= lv.len() {
        Ok(Seq::empty())
    } else if !is_index_line(lv[i]) {
        parse_reverse_from(lv, i + 1)
    } else if i + 1 >= lv.len() || !spec_starts_with(lv[i + 1], "Test"@) {
        Err(ParseError::MissingTestLabel)
    } else if i + 2 >= lv.len() || lv[i + 2] != "Input"@ {
        Err(ParseError::MissingInputLabel)
    } else if i + 3 >= lv.len() || lv[i + 3] != "Expected output"@ {
        Err(ParseError::MissingExpectedOutputLabel)
    } else if i + 4 >= lv.len() || lv[i + 4].len() != 0 {
        Err(ParseError::MissingBlankSeparator)
    } else {
        let b1 = find_blank(lv, i + 5);
        let ostart = next_after(lv, b1);
        let b2 = find_blank(lv, ostart);
        let tc = TestCaseV {
            index: uint_val(lv[i]),
            input_block: lv.subrange(i + 5, b1),
            output_block: lv.subrange(ostart, b2),
        };
        match parse_reverse_from(lv, next_after(lv, b2)) {
            Ok(rest) => Ok(seq![tc] + rest),
            Err(e) => Err(e),
        }
    }
}

#[via_fn]
proof fn parse_reverse_from_decreases(lv: Seq<Seq<char>>, i: int) {
    if 0 <= i <= lv.len() && i < lv.len() && is_index_line(lv[i]) && i + 1 < lv.len()
        && spec_starts_with(lv[i + 1], "Test"@) && i + 2 < lv.len() && lv[i + 2] == "Input"@ && i
        + 3 < lv.len() && lv[i + 3] == "Expected output"@ && i + 4 < lv.len() && lv[i + 4].len()
        == 0 {
        lemma_find_blank_bounds(lv, i + 5);
        let b1 = find_blank(lv, i + 5);
        lemma_find_blank_bounds(lv, next_after(lv, b1));
    }
}

/// Collects the lines from `from` up to the next blank line, and returns
/// them together with the index just past that blank (or the end).
#[verifier::loop_isolation(false)]
fn collect_block(lines: &Vec<String>, from: usize) -> (r: (Vec<String>, usize))
    requires
        from <= lines@.len(),
    ensures
        ({
            let lv = line_views(lines@);
            let b = find_blank(lv, from as int);
            &&& line_views(r.0@) == lv.subrange(from as int, b)
            &&& r.1 as int == next_after(lv, b)
            &&& from <= r.1 <= lines@.len()
        }),
{
    let ghost lv = line_views(lines@);
    let n = lines.len();
    let mut block: Vec<String> = Vec::new();
    let mut j: usize = from;
    while j < n && !lines[j].as_str().is_empty()
        invariant
            from <= j <= n,
            n == lines@.len(),
            lv == line_views(lines@),
            find_blank(lv, from as int) == find_blank(lv, j as int),
            line_views(block@) =~= lv.subrange(from as int, j as int),
        decreases n - j,
    {
        let ghost prev = block@;
        block.push(lines[j].clone());
        proof {
            assert forall|k: int| 0 <= k < block@.len() implies line_views(block@)[k]
                == lv.subrange(from as int, j + 1)[k] by {
                if k < prev.len() {
                    assert(block@[k] == prev[k]);
                    assert(line_views(prev)[k] == lv.subrange(from as int, j as int)[k]);
                } else {
                    assert(block@[k] == lines@[j as int]);
                }
            }
            assert(line_views(block@) =~= lv.subrange(from as int, j + 1));
        }
        j += 1;
    }
    proof {
        assert(find_blank(lv, j as int) == j as int);
    }
    if j < n {
        (block, j + 1)
    } else {
        (block, j)
    }
}

/// Reads every numbered test block of a reverse document. `lines` still
/// carries the sentinel first line, which is skipped (as is any line that is
/// not a bare unsigned integer).
#[verifier::loop_isolation(false)]
pub fn parse_reverse_tests(lines: &Vec<String>) -> (r: Result<Vec<TestCase>, ParseError>)
    ensures
        ({
            let lv = line_views(lines@);
            let start: int = if lv.len() == 0 {
                0
            } else {
                1
            };
            match r {
                Ok(ts) => parse_reverse_from(lv, start) == Ok::<_, ParseError>(tests_view(ts@)),
                Err(e) => parse_reverse_from(lv, start) == Err::<Seq<TestCaseV>, _>(e),
            }
        }),
{
    let ghost lv = line_views(lines@);
    let n = lines.len();
    let mut tests: Vec<TestCase> = Vec::new();
    let mut i: usize = if n == 0 {
        0
    } else {
        1
    };
    let ghost start = i as int;
    proof {
        let p = parse_reverse_from(lv, start);
        if p is Ok {
            assert(tests_view(tests@) + p->Ok_0 =~= p->Ok_0);
        }
    }
    while i < n
        invariant
            0 <= start <= i <= n,
            n == lines@.len(),
            lv == line_views(lines@),
            parse_reverse_from(lv, start) == (match parse_reverse_from(lv, i as int) {
                Ok(rest) => Ok::<_, ParseError>(tests_view(tests@) + rest),
                Err(e) => Err::<Seq<TestCaseV>, _>(e),
            }),
        decreases n - i,
    {
        let idx = parse_index(lines[i].as_str());
        match idx {
            None => {
                i += 1;
            },
            Some(v) => {
                if i + 1 >= n || !str_starts_with(lines[i + 1].as_str(), "Test") {
                    return Err(ParseError::MissingTestLabel);
                }
                if i + 2 >= n || !str_eq(lines[i + 2].as_str(), "Input") {
                    return Err(ParseError::MissingInputLabel);
                }
                if i + 3 >= n || !str_eq(lines[i + 3].as_str(), "Expected output") {
                    return Err(ParseError::MissingExpectedOutputLabel);
                }
                if i + 4 >= n || !lines[i + 4].as_str().is_empty() {
                    return Err(ParseError::MissingBlankSeparator);
                }
                let (input_block, after_input) = collect_block(lines, i + 5);
                let (output_block, next) = collect_block(lines, after_input);
                let tc = TestCase { index: v, input_block, output_block };
                proof {
                    let b1 = find_blank(lv, i + 5);
                    let ostart = next_after(lv, b1);
                    let b2 = find_blank(lv, ostart);
                    assert(after_input as int == ostart);
                    assert(tc@ == TestCaseV {
                        index: uint_val(lv[i as int]),
                        input_block: lv.subrange(i + 5, b1),
                        output_block: lv.subrange(ostart, b2),
                    });
                    let p_next = parse_reverse_from(lv, next as int);
                    if p_next is Ok {
                        assert(tests_view(tests@.push(tc)) + p_next->Ok_0 =~= tests_view(tests@)
                            + (seq![tc@] + p_next->Ok_0));
                    }
                }
                tests.push(tc);
                i = next;
            },
        }
    }
    proof {
        assert(parse_reverse_from(lv, i as int) == Ok::<_, ParseError>(Seq::<TestCaseV>::empty()));
        assert(tests_view(tests@) + Seq::<TestCaseV>::empty() =~= tests_view(tests@));
    }
    Ok(tests)
}

// ---------------------------------------------------------------------------
// Rendering
// ---------------------------------------------------------------------------

/// A block's lines fenced: the lines joined by newlines between three-backtick
/// fence lines. An empty block yields an empty fenced block.
pub open spec fn fenced_join(block: Seq<Seq<char>>) -> Seq<char> {
    "```\n"@ + join_nl(block) + "\n```"@
}

/// The rendered section of one test: its labeled header, then the input and
/// expected-output bodies, each fenced.
pub open spec fn render_test(t: TestCaseV) -> Seq<char> {
    "> `Test"@ + dec_digits(t.index as nat) + "`\n\n__Input__\n"@ + fenced_join(t.input_block)
        + "\n\n__Expected output__\n"@ + fenced_join(t.output_block) + "\n"@
}

/// The whole rendered reverse document: the styled header, a blank line, then
/// the test sections in encountered order, joined by newlines.
pub open spec fn render_reverse_spec(ts: Seq<TestCaseV>) -> Seq<char> {
    reverse_header() + "\n\n"@ + join_nl(ts.map_values(|t: TestCaseV| render_test(t)))
}

/// Appends one block of lines as a fenced code block.
fn append_fenced(out: &mut String, block: &Vec<String>)
    ensures
        final(out)@ == old(out)@ + fenced_join(line_views(block@)),
{
    out.append("```\n");
    crate::text::append_join_nl(out, block);
    out.append("\n```");
    proof {
        assert(final(out)@ =~= old(out)@ + fenced_join(line_views(block@)));
    }
}

/// Appends the rendered section of one test.
fn append_test(out: &mut String, t: &TestCase)
    ensures
        final(out)@ == old(out)@ + render_test(t@),
{
    out.append("> `Test");
    push_dec(out, t.index);
    out.append("`\n\n__Input__\n");
    append_fenced(out, &t.input_block);
    out.append("\n\n__Expected output__\n");
    append_fenced(out, &t.output_block);
    out.append("\n");
    proof {
        assert(final(out)@ =~= old(out)@ + render_test(t@));
    }
}

/// Renders the parsed test blocks. A pure function of the record: the result
/// is fixed by the views of `tests` alone.
#[verifier::loop_isolation(false)]
pub fn render_reverse(tests: &Vec<TestCase>) -> (out: String)
    ensures
        out@ == render_reverse_spec(tests_view(tests@)),
{
    let ghost rendered = tests_view(tests@).map_values(|t: TestCaseV| render_test(t));
    let mut out = String::new();
    out.append(
        "*The game mode is **REVERSE:** You do not have access to the statement. You have to guess what to do by observing the following set of tests:*",
    );
    out.append("\n\n");
    let mut i: usize = 0;
    while i < tests.len()
        invariant
            i <= tests@.len(),
            rendered == tests_view(tests@).map_values(|t: TestCaseV| render_test(t)),
            out@ == reverse_header() + "\n\n"@ + join_nl(rendered.take(i as int)),
        decreases tests@.len() - i,
    {
        if i > 0 {
            out.append("\n");
        }
        append_test(&mut out, &tests[i]);
        proof {
            assert(rendered.take(i + 1).drop_last() =~= rendered.take(i as int));
            assert(rendered.take(i + 1).last() == render_test(tests@[i as int]@));
            reveal_strlit("\n");
            assert("\n"@ =~= seq!['\n']);
            assert(out@ =~= reverse_header() + "\n\n"@ + join_nl(rendered.take(i + 1)));
        }
        i += 1;
    }
    proof {
        assert(rendered.take(tests@.len() as int) =~= rendered);
    }
    out
}

// ---------------------------------------------------------------------------
// Laws of the rendering
// ---------------------------------------------------------------------------

/// Where the `k`-th test's section starts inside the rendered document.
pub open spec fn section_offset(ts: Seq<TestCaseV>, k: int) -> int {
    reverse_header().len() as int + 2 + crate::text::join_nl_offset(
        ts.map_values(|t: TestCaseV| render_test(t)),
        k,
    )
}

/// Law: the rendered reverse document holds one labeled section per parsed
/// test block, in encountered order. The `k`-th of the `ts.len()` sections
/// stands at `section_offset(ts, k)`; the offsets grow with `k`; and the
/// section is exactly `render_test(ts[k])`, which reproduces the block's
/// input and output lines verbatim inside fenced blocks.
pub proof fn lemma_reverse_sections(ts: Seq<TestCaseV>)
    ensures
        forall|k: int|
            0 <= k < ts.len() ==> {
                let off = #[trigger] section_offset(ts, k);
                let sec = render_test(ts[k]);
                &&& 0 <= off
                &&& off + sec.len() <= render_reverse_spec(ts).len()
                &&& render_reverse_spec(ts).subrange(off, off + sec.len()) == sec
            },
        forall|k: int|
            0 <= k && k + 1 < ts.len() ==> #[trigger] section_offset(ts, k) < section_offset(
                ts,
                k + 1,
            ),
{
    let rendered = ts.map_values(|t: TestCaseV| render_test(t));
    let head = reverse_header() + "\n\n"@;
    assert forall|k: int| 0 <= k < ts.len() implies {
        let off = #[trigger] section_offset(ts, k);
        let sec = render_test(ts[k]);
        &&& 0 <= off
        &&& off + sec.len() <= render_reverse_spec(ts).len()
        &&& render_reverse_spec(ts).subrange(off, off + sec.len()) == sec
    } by {
        reveal_strlit("\n\n");
        crate::text::lemma_join_nl_contains(rendered, k);
        let off = crate::text::join_nl_offset(rendered, k);
        let sec = render_test(ts[k]);
        assert(rendered[k] == sec);
        assert(render_reverse_spec(ts) == head + join_nl(rendered));
        assert(section_offset(ts, k) == head.len() + off);
        assert(render_reverse_spec(ts).subrange(
            head.len() + off,
            head.len() + off + sec.len(),
        ) =~= join_nl(rendered).subrange(off, off + sec.len()));
    }
    assert forall|k: int| 0 <= k && k + 1 < ts.len() implies #[trigger] section_offset(ts, k)
        < section_offset(ts, k + 1) by {
        reveal_strlit("\n\n");
        crate::text::lemma_join_nl_offset_step(rendered, k);
    }
}

/// Law: a test block whose input or output body is empty (an immediate blank
/// line) still renders a complete fenced block holding zero lines.
pub proof fn lemma_empty_block_fence()
    ensures
        fenced_join(Seq::<Seq<char>>::empty()) == "```\n\n```"@,
{
    reveal_strlit("```\n");
    reveal_strlit("\n```");
    reveal_strlit("```\n\n```");
    assert(fenced_join(Seq::<Seq<char>>::empty()) =~= "```\n\n```"@);
}

// ---------------------------------------------------------------------------
// The whole pipeline for this layout
// ---------------------------------------------------------------------------

/// What converting a reverse document yields: the rendering of its parsed
/// test blocks, or the first structural violation.
pub open spec fn reverse_doc(lv: Seq<Seq<char>>) -> Result<Seq<char>, ParseError> {
    let start: int = if lv.len() == 0 {
        0
    } else {
        1
    };
    match parse_reverse_from(lv, start) {
        Ok(ts) => Ok(render_reverse_spec(ts)),
        Err(e) => Err(e),
    }
}

/// Parses and renders a reverse document. `lines` still carries the sentinel
/// first line.
pub fn parse_reverse(lines: &Vec<String>) -> (r: Result<String, ParseError>)
    ensures
        ({
            let d = reverse_doc(line_views(lines@));
            match r {
                Ok(s) => d == Ok::<_, ParseError>(s@),
                Err(e) => d == Err::<Seq<char>, _>(e),
            }
        }),
{
    match parse_reverse_tests(lines) {
        Ok(tests) => Ok(render_reverse(&tests)),
        Err(e) => Err(e),
    }
}

} // verus!
