//! The fastest layout: a `Goal` first line, then four labeled sections
//! (question, input spec, output spec, constraints) each ending at an exact
//! sentinel line, then one worked example with its own input and output.
//! Section lines are trimmed and have their asterisks escaped, and blank
//! lines are dropped; the example lines are kept verbatim, blank lines aside.

use vstd::prelude::*;
use vstd::string::StringExecFns;

use crate::ParseError;
use crate::text::{
    cat_nl, escape_line, escape_stars, find_line, join_nl, line_views, next_after, str_eq,
    trim_line, trim_spec,
};

verus! {

/// The parsed statement of a fastest document.
pub struct Statement {
    /// The problem description, processed.
    pub question: Vec<String>,
    /// The input-specification section, processed.
    pub input_spec: Vec<String>,
    /// The output-specification section, processed.
    pub output_spec: Vec<String>,
    /// The constraints section, processed.
    pub constraints: Vec<String>,
    /// The worked example's input lines, verbatim.
    pub example_input: Vec<String>,
    /// The worked example's output lines, verbatim.
    pub example_output: Vec<String>,
}

/// The mathematical shape of a statement.
pub struct StatementV {
    /// The problem description.
    pub question: Seq<Seq<char>>,
    /// The input-specification lines.
    pub input_spec: Seq<Seq<char>>,
    /// The output-specification lines.
    pub output_spec: Seq<Seq<char>>,
    /// The constraints lines.
    pub constraints: Seq<Seq<char>>,
    /// The example's input lines.
    pub example_input: Seq<Seq<char>>,
    /// The example's output lines.
    pub example_output: Seq<Seq<char>>,
}

impl View for Statement {
    type V = StatementV;

    open spec fn view(&self) -> StatementV {
        StatementV {
            question: line_views(self.question@),
            input_spec: line_views(self.input_spec@),
            output_spec: line_views(self.output_spec@),
            constraints: line_views(self.constraints@),
            example_input: line_views(self.example_input@),
            example_output: line_views(self.example_output@),
        }
    }
}

// ---------------------------------------------------------------------------
// Parsing
// ---------------------------------------------------------------------------

/// How one section line is processed: asterisks escaped, then surrounding
/// whitespace trimmed.
pub open spec fn proc_line(l: Seq<char>) -> Seq<char> {
    trim_spec(escape_stars(l))
}

/// The processed non-blank lines of `lv` in `[i, j)`.
pub open spec fn sect_range(lv: Seq<Seq<char>>, i: int, j: int) -> Seq<Seq<char>>
    decreases j - i,
    when i <= j
{
    if j <= i {
        Seq::empty()
    } else {
        sect_range(lv, i, j - 1) + (if lv[j - 1].len() == 0 {
            Seq::<Seq<char>>::empty()
        } else {
            seq![proc_line(lv[j - 1])]
        })
    }
}

/// The non-blank lines of `lv` in `[i, j)`, verbatim.
pub open spec fn nonblank_range(lv: Seq<Seq<char>>, i: int, j: int) -> Seq<Seq<char>>
    decreases j - i,
    when i <= j
{
    if j <= i {
        Seq::empty()
    } else {
        nonblank_range(lv, i, j - 1) + (if lv[j - 1].len() == 0 {
            Seq::<Seq<char>>::empty()
        } else {
            seq![lv[j - 1]]
        })
    }
}

/// The statement read from a fastest document: four sections each running to
/// its stop sentinel (consumed, and sections may run to the end of input if
/// the sentinel never comes), then the example, which must open with an exact
/// `Input` line and switches from input to output at the first `Output` line.
pub open spec fn fastest_record(lv: Seq<Seq<char>>) -> Result<StatementV, ParseError> {
    let start: int = if lv.len() == 0 {
        0
    } else {
        1
    };
    let s1 = find_line(lv, start, "Input"@);
    let i2 = next_after(lv, s1);
    let s2 = find_line(lv, i2, "Output"@);
    let i3 = next_after(lv, s2);
    let s3 = find_line(lv, i3, "Constraints"@);
    let i4 = next_after(lv, s3);
    let s4 = find_line(lv, i4, "Example"@);
    let k = next_after(lv, s4);
    if k >= lv.len() || lv[k] != "Input"@ {
        Err(ParseError::MissingExampleInput)
    } else {
        let o1 = find_line(lv, k + 1, "Output"@);
        let e2 = next_after(lv, o1);
        let o2 = find_line(lv, e2, "Output"@);
        Ok(
            StatementV {
                question: sect_range(lv, start, s1),
                input_spec: sect_range(lv, i2, s2),
                output_spec: sect_range(lv, i3, s3),
                constraints: sect_range(lv, i4, s4),
                example_input: nonblank_range(lv, k + 1, o1),
                example_output: nonblank_range(lv, e2, o2),
            },
        )
    }
}

/// Escapes and trims one section line.
fn process_line(s: &str) -> (r: String)
    ensures
        r@ == proc_line(s@),
{
    let escaped = escape_line(s);
    trim_line(escaped.as_str())
}

/// Consumes one labeled section: collects processed non-blank lines until the
/// exact `stop` line, which is consumed and not collected, or until the end
/// of input. Returns the section and the index after the stop line.
#[verifier::loop_isolation(false)]
fn consume_section(lines: &Vec<String>, from: usize, stop: &str) -> (r: (Vec<String>, usize))
    requires
        from <= lines@.len(),
    ensures
        ({
            let lv = line_views(lines@);
            let s = find_line(lv, from as int, stop@);
            &&& line_views(r.0@) == sect_range(lv, from as int, s)
            &&& r.1 as int == next_after(lv, s)
            &&& from <= r.1 <= lines@.len()
        }),
{
    let ghost lv = line_views(lines@);
    let n = lines.len();
    let mut block: Vec<String> = Vec::new();
    let mut j: usize = from;
    while j < n
        invariant
            from <= j <= n,
            find_line(lv, from as int, stop@) == find_line(lv, j as int, stop@),
            line_views(block@) =~= sect_range(lv, from as int, j as int),
        decreases n - j,
    {
        if str_eq(lines[j].as_str(), stop) {
            proof {
                assert(find_line(lv, j as int, stop@) == j as int);
            }
            return (block, j + 1);
        }
        if !lines[j].as_str().is_empty() {
            let ghost prev = block@;
            block.push(process_line(lines[j].as_str()));
            proof {
                assert forall|k: int| 0 <= k < block@.len() implies line_views(block@)[k]
                    == sect_range(lv, from as int, j + 1)[k] by {
                    if k < prev.len() {
                        assert(block@[k] == prev[k]);
                    }
                }
                assert(line_views(block@) =~= sect_range(lv, from as int, j + 1));
            }
        } else {
            proof {
                assert(sect_range(lv, from as int, j + 1) =~= sect_range(
                    lv,
                    from as int,
                    j as int,
                ));
            }
        }
        j += 1;
    }
    proof {
        assert(find_line(lv, j as int, stop@) == j as int);
    }
    (block, j)
}

/// Collects the example lines from `from` until the next exact `Output` line
/// (consumed) or the end of input, skipping blank lines and keeping the rest
/// verbatim. Returns the lines and the index after the stop line.
#[verifier::loop_isolation(false)]
fn collect_example(lines: &Vec<String>, from: usize) -> (r: (Vec<String>, usize))
    requires
        from <= lines@.len(),
    ensures
        ({
            let lv = line_views(lines@);
            let s = find_line(lv, from as int, "Output"@);
            &&& line_views(r.0@) == nonblank_range(lv, from as int, s)
            &&& r.1 as int == next_after(lv, s)
            &&& from <= r.1 <= lines@.len()
        }),
{
    let ghost lv = line_views(lines@);
    let n = lines.len();
    let mut block: Vec<String> = Vec::new();
    let mut j: usize = from;
    while j < n
        invariant
            from <= j <= n,
            find_line(lv, from as int, "Output"@) == find_line(lv, j as int, "Output"@),
            line_views(block@) =~= nonblank_range(lv, from as int, j as int),
        decreases n - j,
    {
        if str_eq(lines[j].as_str(), "Output") {
            proof {
                assert(find_line(lv, j as int, "Output"@) == j as int);
            }
            return (block, j + 1);
        }
        if !lines[j].as_str().is_empty() {
            let ghost prev = block@;
            block.push(lines[j].clone());
            proof {
                assert forall|k: int| 0 <= k < block@.len() implies line_views(block@)[k]
                    == nonblank_range(lv, from as int, j + 1)[k] by {
                    if k < prev.len() {
                        assert(block@[k] == prev[k]);
                    }
                }
                assert(line_views(block@) =~= nonblank_range(lv, from as int, j + 1));
            }
        } else {
            proof {
                assert(nonblank_range(lv, from as int, j + 1) =~= nonblank_range(
                    lv,
                    from as int,
                    j as int,
                ));
            }
        }
        j += 1;
    }
    proof {
        assert(find_line(lv, j as int, "Output"@) == j as int);
    }
    (block, j)
}

/// Reads the whole statement of a fastest document. `lines` still carries
/// the `Goal` first line, which is skipped.
pub fn parse_statement(lines: &Vec<String>) -> (r: Result<Statement, ParseError>)
    ensures
        ({
            let rec = fastest_record(line_views(lines@));
            match r {
                Ok(st) => rec == Ok::<_, ParseError>(st@),
                Err(e) => rec == Err::<StatementV, _>(e),
            }
        }),
{
    let ghost lv = line_views(lines@);
    let n = lines.len();
    let start: usize = if n == 0 {
        0
    } else {
        1
    };
    let (question, i2) = consume_section(lines, start, "Input");
    let (input_spec, i3) = consume_section(lines, i2, "Output");
    let (output_spec, i4) = consume_section(lines, i3, "Constraints");
    let (constraints, k) = consume_section(lines, i4, "Example");
    if k >= n || !str_eq(lines[k].as_str(), "Input") {
        return Err(ParseError::MissingExampleInput);
    }
    let (example_input, e2) = collect_example(lines, k + 1);
    let (example_output, _rest) = collect_example(lines, e2);
    Ok(
        Statement {
            question,
            input_spec,
            output_spec,
            constraints,
            example_input,
            example_output,
        },
    )
}

// ---------------------------------------------------------------------------
// Laws of section parsing
// ---------------------------------------------------------------------------

/// The lines of `s` with blank lines removed.
pub open spec fn kept_lines(s: Seq<Seq<char>>) -> Seq<Seq<char>> {
    s.filter(|l: Seq<char>| l.len() > 0)
}

/// Every line of `s` processed: asterisks escaped, whitespace trimmed.
pub open spec fn processed(s: Seq<Seq<char>>) -> Seq<Seq<char>> {
    s.map_values(|l: Seq<char>| proc_line(l))
}

/// Law: parsing preserves section line content. A labeled section holds
/// exactly the source lines of its range with blank lines removed, each kept
/// line trimmed and with every literal asterisk escaped; an example block
/// holds exactly its non-blank source lines, verbatim.
pub proof fn lemma_section_content(lv: Seq<Seq<char>>, i: int, j: int)
    requires
        0 <= i <= j <= lv.len(),
    ensures
        sect_range(lv, i, j) == processed(kept_lines(lv.subrange(i, j))),
        nonblank_range(lv, i, j) == kept_lines(lv.subrange(i, j)),
    decreases j - i,
{
    broadcast use vstd::seq_lib::group_seq_properties;

    if j == i {
        reveal(Seq::filter);
        assert(lv.subrange(i, i) =~= Seq::<Seq<char>>::empty());
        assert(processed(kept_lines(lv.subrange(i, j))) =~= Seq::<Seq<char>>::empty());
    } else {
        lemma_section_content(lv, i, j - 1);
        let sub1 = lv.subrange(i, j - 1);
        let sub = lv.subrange(i, j);
        let e = lv[j - 1];
        assert(sub =~= sub1.push(e));
        sub1.lemma_filter_push(e, |l: Seq<char>| l.len() > 0);
        if e.len() == 0 {
            assert(sect_range(lv, i, j) =~= sect_range(lv, i, j - 1));
            assert(nonblank_range(lv, i, j) =~= nonblank_range(lv, i, j - 1));
        } else {
            assert(kept_lines(sub) == kept_lines(sub1).push(e));
            assert(processed(kept_lines(sub1).push(e)) =~= processed(kept_lines(sub1)).push(
                proc_line(e),
            ));
            assert(sect_range(lv, i, j) =~= sect_range(lv, i, j - 1) + seq![proc_line(e)]);
            assert(sect_range(lv, i, j - 1) + seq![proc_line(e)] =~= processed(
                kept_lines(sub1),
            ).push(proc_line(e)));
            assert(nonblank_range(lv, i, j) =~= nonblank_range(lv, i, j - 1) + seq![e]);
            assert(nonblank_range(lv, i, j - 1) + seq![e] =~= kept_lines(sub1).push(e));
        }
    }
}

// ---------------------------------------------------------------------------
// Rendering
// ---------------------------------------------------------------------------

/// The question lines, each as a quoted line, joined by newlines.
pub open spec fn quoted(q: Seq<Seq<char>>) -> Seq<char> {
    join_nl(q.map_values(|l: Seq<char>| "> "@ + l))
}

/// A section's lines fenced: each line followed by a newline, between
/// three-backtick fence lines.
pub open spec fn fenced_cat(block: Seq<Seq<char>>) -> Seq<char> {
    "```\n"@ + cat_nl(block) + "```"@
}

/// The whole rendered fastest document.
pub open spec fn render_fastest_spec(st: StatementV) -> Seq<char> {
    "**Goal**"@ + "\n\n"@ + quoted(st.question) + "\n\n`Input`\n"@ + fenced_cat(st.input_spec)
        + "\n\n`Output`\n"@ + fenced_cat(st.output_spec) + "\n\n`Constraints`\n"@ + fenced_cat(
        st.constraints,
    ) + "\n\n> Example\n\n`Input`\n"@ + fenced_cat(st.example_input) + "\n\n`Output`\n"@
        + fenced_cat(st.example_output)
}

/// Appends the question lines, each quoted, joined by newlines.
#[verifier::loop_isolation(false)]
fn append_quoted(out: &mut String, q: &Vec<String>)
    ensures
        final(out)@ == old(out)@ + quoted(line_views(q@)),
{
    let ghost mapped = line_views(q@).map_values(|l: Seq<char>| "> "@ + l);
    let mut i: usize = 0;
    while i < q.len()
        invariant
            i <= q@.len(),
            out@ == old(out)@ + join_nl(mapped.take(i as int)),
        decreases q@.len() - i,
    {
        if i > 0 {
            out.append("\n");
        }
        out.append("> ");
        out.append(q[i].as_str());
        proof {
            assert(mapped.take(i + 1).drop_last() =~= mapped.take(i as int));
            assert(mapped.take(i + 1).last() == "> "@ + q@[i as int]@);
            reveal_strlit("\n");
            assert("\n"@ =~= seq!['\n']);
            assert(out@ =~= old(out)@ + join_nl(mapped.take(i + 1)));
        }
        i += 1;
    }
    proof {
        assert(mapped.take(q@.len() as int) =~= mapped);
    }
}

/// Appends one section as a fenced code block.
fn append_fenced_cat(out: &mut String, block: &Vec<String>)
    ensures
        final(out)@ == old(out)@ + fenced_cat(line_views(block@)),
{
    out.append("```\n");
    crate::text::append_cat_nl(out, block);
    out.append("```");
    proof {
        assert(final(out)@ =~= old(out)@ + fenced_cat(line_views(block@)));
    }
}

/// Renders the parsed statement. A pure function of the record: the result
/// is fixed by the views of `st` alone.
pub fn render_fastest(st: &Statement) -> (out: String)
    ensures
        out@ == render_fastest_spec(st@),
{
    let mut out = String::new();
    out.append("**Goal**");
    out.append("\n\n");
    append_quoted(&mut out, &st.question);
    out.append("\n\n`Input`\n");
    append_fenced_cat(&mut out, &st.input_spec);
    out.append("\n\n`Output`\n");
    append_fenced_cat(&mut out, &st.output_spec);
    out.append("\n\n`Constraints`\n");
    append_fenced_cat(&mut out, &st.constraints);
    out.append("\n\n> Example\n\n`Input`\n");
    append_fenced_cat(&mut out, &st.example_input);
    out.append("\n\n`Output`\n");
    append_fenced_cat(&mut out, &st.example_output);
    proof {
        assert(out@ =~= render_fastest_spec(st@));
    }
    out
}

// ---------------------------------------------------------------------------
// The whole pipeline for this layout
// ---------------------------------------------------------------------------

/// What converting a fastest document yields: the rendering of its parsed
/// statement, or the first structural violation.
pub open spec fn fastest_doc(lv: Seq<Seq<char>>) -> Result<Seq<char>, ParseError> {
    match fastest_record(lv) {
        Ok(st) => Ok(render_fastest_spec(st)),
        Err(e) => Err(e),
    }
}

/// Parses and renders a fastest document. `lines` still carries the `Goal`
/// first line.
pub fn parse_fastest(lines: &Vec<String>) -> (r: Result<String, ParseError>)
    ensures
        ({
            let d = fastest_doc(line_views(lines@));
            match r {
                Ok(s) => d == Ok::<_, ParseError>(s@),
                Err(e) => d == Err::<Seq<char>, _>(e),
            }
        }),
{
    match parse_statement(lines) {
        Ok(st) => Ok(render_fastest(&st)),
        Err(e) => Err(e),
    }
}

} // verus!
