//! Line- and character-level utilities shared by both parsers and renderers:
//! string comparison, unsigned-integer lines, whitespace trimming, asterisk
//! escaping, decimal rendering, and newline joins.

use vstd::prelude::*;
use vstd::string::StrSliceExecFns;
use vstd::string::StringExecFns;

verus! {

/// The views of a sequence of owned lines, as a sequence of character
/// sequences. All contracts in this crate speak about lines through this.
pub open spec fn line_views(lines: Seq<String>) -> Seq<Seq<char>> {
    Seq::new(lines.len(), |i: int| lines[i]@)
}

// ---------------------------------------------------------------------------
// String comparison
// ---------------------------------------------------------------------------

/// Character-by-character equality of two string slices.
pub fn str_eq(a: &str, b: &str) -> (r: bool)
    ensures
        r == (a@ == b@),
{
    let n = a.unicode_len();
    if n != b.unicode_len() {
        return false;
    }
    let mut i: usize = 0;
    while i < n
        invariant
            n == a@.len(),
            n == b@.len(),
            i <= n,
            forall|k: int| 0 <= k < i ==> a@[k] == b@[k],
        decreases n - i,
    {
        if a.get_char(i) != b.get_char(i) {
            return false;
        }
        i += 1;
    }
    proof {
        assert(a@ =~= b@);
    }
    true
}

/// `p` is a prefix of `s`.
pub open spec fn spec_starts_with(s: Seq<char>, p: Seq<char>) -> bool {
    p.len() <= s.len() && s.subrange(0, p.len() as int) == p
}

/// Character-by-character prefix test.
pub fn str_starts_with(s: &str, p: &str) -> (r: bool)
    ensures
        r == spec_starts_with(s@, p@),
{
    let m = p.unicode_len();
    if m > s.unicode_len() {
        return false;
    }
    let mut i: usize = 0;
    while i < m
        invariant
            m == p@.len(),
            m <= s@.len(),
            i <= m,
            forall|k: int| 0 <= k < i ==> s@[k] == p@[k],
        decreases m - i,
    {
        if s.get_char(i) != p.get_char(i) {
            proof {
                if spec_starts_with(s@, p@) {
                    assert(s@.subrange(0, m as int)[i as int] == s@[i as int]);
                }
            }
            return false;
        }
        i += 1;
    }
    proof {
        assert(s@.subrange(0, m as int) =~= p@);
    }
    true
}

// ---------------------------------------------------------------------------
// Unsigned-integer lines (test indices)
// ---------------------------------------------------------------------------

/// A decimal digit.
pub open spec fn is_digit(c: char) -> bool {
    '0' <= c && c <= '9'
}

/// The numeric value of a digit character.
pub open spec fn digit_val(c: char) -> int {
    c as int - '0' as int
}

/// Every character of `s` is a decimal digit.
pub open spec fn all_digits(s: Seq<char>) -> bool {
    forall|i: int| 0 <= i < s.len() ==> is_digit(#[trigger] s[i])
}

/// The value of `s` read as a decimal numeral.
pub open spec fn uint_val(s: Seq<char>) -> int
    decreases s.len(),
{
    if s.len() == 0 {
        0
    } else {
        uint_val(s.drop_last()) * 10 + digit_val(s.last())
    }
}

/// A line that is a bare unsigned integer fitting the index type: nonempty,
/// digits only, value at most `u16::MAX`.
pub open spec fn is_index_line(s: Seq<char>) -> bool {
    s.len() > 0 && all_digits(s) && uint_val(s) <= u16::MAX
}

proof fn lemma_uint_val_nonneg(s: Seq<char>)
    requires
        all_digits(s),
    ensures
        uint_val(s) >= 0,
    decreases s.len(),
{
    if s.len() > 0 {
        assert(all_digits(s.drop_last())) by {
            assert(forall|i: int|
                0 <= i < s.drop_last().len() ==> #[trigger] s.drop_last()[i] == s[i]);
        }
        lemma_uint_val_nonneg(s.drop_last());
    }
}

/// Under `all_digits`, the value of a prefix never exceeds the value of the
/// whole numeral.
proof fn lemma_uint_val_take_le(s: Seq<char>, j: int)
    requires
        all_digits(s),
        0 <= j <= s.len(),
    ensures
        uint_val(s.take(j)) <= uint_val(s),
    decreases s.len() - j,
{
    if j == s.len() {
        assert(s.take(j) =~= s);
    } else {
        lemma_uint_val_take_le(s, j + 1);
        let t = s.take(j + 1);
        assert(t.drop_last() =~= s.take(j));
        assert(all_digits(s.take(j))) by {
            assert(forall|i: int|
                0 <= i < s.take(j).len() ==> #[trigger] s.take(j)[i] == s[i]);
        }
        lemma_uint_val_nonneg(s.take(j));
        assert(uint_val(t) == uint_val(s.take(j)) * 10 + digit_val(s[j]));
    }
}

/// Reads a bare unsigned-integer line. Returns its value exactly when the
/// line is nonempty, all digits, and the value fits a `u16`.
pub fn parse_index(s: &str) -> (r: Option<u16>)
    ensures
        r is Some <==> is_index_line(s@),
        r matches Some(v) ==> v == uint_val(s@),
{
    let n = s.unicode_len();
    if n == 0 {
        return None;
    }
    let mut acc: u32 = 0;
    let mut i: usize = 0;
    while i < n
        invariant
            0 < n == s@.len(),
            i <= n,
            all_digits(s@.take(i as int)),
            acc == uint_val(s@.take(i as int)),
            acc <= u16::MAX,
        decreases n - i,
    {
        let c = s.get_char(i);
        if !(c >= '0' && c <= '9') {
            return None;
        }
        let d: u32 = c as u32 - 48;
        let acc2: u32 = acc * 10 + d;
        proof {
            assert(s@.take(i + 1).drop_last() =~= s@.take(i as int));
            assert(s@.take(i + 1).last() == s@[i as int]);
            assert(all_digits(s@.take(i + 1))) by {
                assert(forall|k: int|
                    0 <= k < i + 1 ==> #[trigger] s@.take(i + 1)[k] == s@[k]);
            }
            assert(d == digit_val(s@[i as int]));
            assert(acc2 == uint_val(s@.take(i + 1)));
        }
        if acc2 > u16::MAX as u32 {
            proof {
                if is_index_line(s@) {
                    lemma_uint_val_take_le(s@, i + 1);
                }
            }
            return None;
        }
        acc = acc2;
        i += 1;
    }
    proof {
        assert(s@.take(n as int) =~= s@);
    }
    Some(acc as u16)
}

/// The digit character of a value below ten.
pub open spec fn digit_char(d: int) -> char {
    if d == 0 {
        '0'
    } else if d == 1 {
        '1'
    } else if d == 2 {
        '2'
    } else if d == 3 {
        '3'
    } else if d == 4 {
        '4'
    } else if d == 5 {
        '5'
    } else if d == 6 {
        '6'
    } else if d == 7 {
        '7'
    } else if d == 8 {
        '8'
    } else {
        '9'
    }
}

/// The shortest decimal numeral of `n`.
pub open spec fn dec_digits(n: nat) -> Seq<char>
    decreases n,
{
    if n < 10 {
        seq![digit_char(n as int)]
    } else {
        dec_digits(n / 10) + seq![digit_char((n % 10) as int)]
    }
}

fn digit_str(d: u16) -> (r: &'static str)
    requires
        d < 10,
    ensures
        r@ =~= seq![digit_char(d as int)],
{
    if d == 0 {
        proof { reveal_strlit("0"); }
        "0"
    } else if d == 1 {
        proof { reveal_strlit("1"); }
        "1"
    } else if d == 2 {
        proof { reveal_strlit("2"); }
        "2"
    } else if d == 3 {
        proof { reveal_strlit("3"); }
        "3"
    } else if d == 4 {
        proof { reveal_strlit("4"); }
        "4"
    } else if d == 5 {
        proof { reveal_strlit("5"); }
        "5"
    } else if d == 6 {
        proof { reveal_strlit("6"); }
        "6"
    } else if d == 7 {
        proof { reveal_strlit("7"); }
        "7"
    } else if d == 8 {
        proof { reveal_strlit("8"); }
        "8"
    } else {
        proof { reveal_strlit("9"); }
        "9"
    }
}

/// Appends the decimal numeral of `n` to `out`.
pub fn push_dec(out: &mut String, n: u16)
    ensures
        final(out)@ == old(out)@ + dec_digits(n as nat),
    decreases n,
{
    if n < 10 {
        out.append(digit_str(n));
        proof {
            assert(final(out)@ =~= old(out)@ + dec_digits(n as nat));
        }
    } else {
        push_dec(out, n / 10);
        out.append(digit_str(n % 10));
        proof {
            assert(final(out)@ =~= old(out)@ + dec_digits(n as nat));
        }
    }
}

// ---------------------------------------------------------------------------
// Whitespace trimming
// ---------------------------------------------------------------------------

/// A Unicode whitespace character, as `str::trim` understands it.
pub open spec fn is_space_char(c: char) -> bool {
    c == ' ' || ('\u{0009}' <= c && c <= '\u{000D}') || c == '\u{0085}' || c == '\u{00A0}'
        || c == '\u{1680}' || ('\u{2000}' <= c && c <= '\u{200A}') || c == '\u{2028}'
        || c == '\u{2029}' || c == '\u{202F}' || c == '\u{205F}' || c == '\u{3000}'
}

fn is_space(c: char) -> (r: bool)
    ensures
        r == is_space_char(c),
{
    c == ' ' || (c >= '\u{0009}' && c <= '\u{000D}') || c == '\u{0085}' || c == '\u{00A0}'
        || c == '\u{1680}' || (c >= '\u{2000}' && c <= '\u{200A}') || c == '\u{2028}'
        || c == '\u{2029}' || c == '\u{202F}' || c == '\u{205F}' || c == '\u{3000}'
}

/// Index of the first non-whitespace character at or after `i` (or the
/// length, if all of the rest is whitespace).
pub open spec fn first_keep(s: Seq<char>, i: int) -> int
    decreases s.len() - i,
    when 0 <= i <= s.len()
{
    if i >= s.len() {
        i
    } else if !is_space_char(s[i]) {
        i
    } else {
        first_keep(s, i + 1)
    }
}

/// One past the last non-whitespace character strictly before `j` (or zero,
/// if everything before `j` is whitespace).
pub open spec fn last_keep(s: Seq<char>, j: int) -> int
    decreases j,
    when 0 <= j <= s.len()
{
    if j <= 0 {
        0
    } else if !is_space_char(s[j - 1]) {
        j
    } else {
        last_keep(s, j - 1)
    }
}

/// `s` with leading and trailing whitespace removed.
pub open spec fn trim_spec(s: Seq<char>) -> Seq<char> {
    let a = first_keep(s, 0);
    let b = last_keep(s, s.len() as int);
    if a >= b {
        Seq::empty()
    } else {
        s.subrange(a, b)
    }
}

/// `s` with surrounding whitespace removed, as an owned string.
pub fn trim_line(s: &str) -> (r: String)
    ensures
        r@ == trim_spec(s@),
{
    let n = s.unicode_len();
    let mut a: usize = 0;
    while a < n && is_space(s.get_char(a))
        invariant
            n == s@.len(),
            a <= n,
            first_keep(s@, 0) == first_keep(s@, a as int),
            forall|k: int| 0 <= k < a ==> is_space_char(#[trigger] s@[k]),
        decreases n - a,
    {
        a += 1;
    }
    proof {
        assert(first_keep(s@, 0) == a as int);
    }
    if a == n {
        proof {
            lemma_last_keep_all_space(s@, s@.len() as int);
        }
        return String::new();
    }
    let mut b: usize = n;
    while b > a && is_space(s.get_char(b - 1))
        invariant
            n == s@.len(),
            a < b <= n,
            a < n,
            !is_space_char(s@[a as int]),
            last_keep(s@, n as int) == last_keep(s@, b as int),
        decreases b,
    {
        b -= 1;
    }
    proof {
        assert(last_keep(s@, n as int) == b as int);
    }
    let piece = s.substring_char(a, b);
    piece.to_owned()
}

/// On an all-whitespace sequence, `last_keep` reaches zero.
proof fn lemma_last_keep_all_space(s: Seq<char>, j: int)
    requires
        0 <= j <= s.len(),
        forall|k: int| 0 <= k < s.len() ==> is_space_char(#[trigger] s[k]),
    ensures
        last_keep(s, j) == 0,
    decreases j,
{
    if j > 0 {
        lemma_last_keep_all_space(s, j - 1);
    }
}

// ---------------------------------------------------------------------------
// Asterisk escaping
// ---------------------------------------------------------------------------

/// `s` with every literal asterisk prefixed by a backslash.
pub open spec fn escape_stars(s: Seq<char>) -> Seq<char>
    decreases s.len(),
{
    if s.len() == 0 {
        Seq::empty()
    } else {
        escape_stars(s.drop_last()) + (if s.last() == '*' {
            seq!['\\', '*']
        } else {
            seq![s.last()]
        })
    }
}

/// Escapes the asterisks of one line.
pub fn escape_line(s: &str) -> (r: String)
    ensures
        r@ == escape_stars(s@),
{
    let mut out = String::new();
    let n = s.unicode_len();
    let mut i: usize = 0;
    while i < n
        invariant
            n == s@.len(),
            i <= n,
            out@ == escape_stars(s@.take(i as int)),
        decreases n - i,
    {
        let c = s.get_char(i);
        if c == '*' {
            out.append("\\*");
            proof {
                reveal_strlit("\\*");
                assert("\\*"@ =~= seq!['\\', '*']);
            }
        } else {
            let piece = s.substring_char(i, i + 1);
            out.append(piece);
            proof {
                assert(piece@ =~= seq![s@[i as int]]);
            }
        }
        proof {
            assert(s@.take(i + 1).drop_last() =~= s@.take(i as int));
            assert(s@.take(i + 1).last() == s@[i as int]);
            assert(out@ =~= escape_stars(s@.take(i + 1)));
        }
        i += 1;
    }
    proof {
        assert(s@.take(n as int) =~= s@);
    }
    out
}

// ---------------------------------------------------------------------------
// Scanning a line sequence
// ---------------------------------------------------------------------------

/// Index of the first blank line at or after `i`, or the length if none.
pub open spec fn find_blank(lv: Seq<Seq<char>>, i: int) -> int
    decreases lv.len() - i,
    when 0 <= i <= lv.len()
{
    if i >= lv.len() {
        i
    } else if lv[i].len() == 0 {
        i
    } else {
        find_blank(lv, i + 1)
    }
}

pub proof fn lemma_find_blank_bounds(lv: Seq<Seq<char>>, i: int)
    requires
        0 <= i <= lv.len(),
    ensures
        i <= find_blank(lv, i) <= lv.len(),
    decreases lv.len() - i,
{
    if i < lv.len() && lv[i].len() != 0 {
        lemma_find_blank_bounds(lv, i + 1);
    }
}

/// Index of the first line at or after `i` equal to `target`, or the length
/// if none.
pub open spec fn find_line(lv: Seq<Seq<char>>, i: int, target: Seq<char>) -> int
    decreases lv.len() - i,
    when 0 <= i <= lv.len()
{
    if i >= lv.len() {
        i
    } else if lv[i] == target {
        i
    } else {
        find_line(lv, i + 1, target)
    }
}

/// The index after a consumed stop line: one past `j` if `j` is a real line,
/// `j` itself if the scan ran off the end.
pub open spec fn next_after(lv: Seq<Seq<char>>, j: int) -> int {
    if j < lv.len() {
        j + 1
    } else {
        j
    }
}

// ---------------------------------------------------------------------------
// Newline joins
// ---------------------------------------------------------------------------

/// The blocks joined with a newline between consecutive blocks.
pub open spec fn join_nl(blocks: Seq<Seq<char>>) -> Seq<char>
    decreases blocks.len(),
{
    if blocks.len() == 0 {
        Seq::empty()
    } else if blocks.len() == 1 {
        blocks[0]
    } else {
        join_nl(blocks.drop_last()) + seq!['\n'] + blocks.last()
    }
}

/// The blocks concatenated, each followed by a newline.
pub open spec fn cat_nl(blocks: Seq<Seq<char>>) -> Seq<char>
    decreases blocks.len(),
{
    if blocks.len() == 0 {
        Seq::empty()
    } else {
        cat_nl(blocks.drop_last()) + blocks.last() + seq!['\n']
    }
}

/// Where the `k`-th block starts inside `join_nl(blocks)`.
pub open spec fn join_nl_offset(blocks: Seq<Seq<char>>, k: int) -> int {
    if k <= 0 {
        0
    } else {
        join_nl(blocks.take(k)).len() as int + 1
    }
}

/// Consecutive blocks of a join start one separator past each other.
pub proof fn lemma_join_nl_offset_step(blocks: Seq<Seq<char>>, k: int)
    requires
        0 <= k < blocks.len(),
    ensures
        join_nl_offset(blocks, k + 1) == join_nl_offset(blocks, k) + blocks[k].len() + 1,
{
    if k == 0 {
        assert(blocks.take(1).len() == 1);
        assert(join_nl(blocks.take(1)) == blocks.take(1)[0]);
    } else {
        assert(blocks.take(k + 1).drop_last() =~= blocks.take(k));
        assert(blocks.take(k + 1).last() == blocks[k]);
    }
}

/// Each block of a join reappears verbatim inside the joined sequence, at
/// its offset.
pub proof fn lemma_join_nl_contains(blocks: Seq<Seq<char>>, k: int)
    requires
        0 <= k < blocks.len(),
    ensures
        ({
            let off = join_nl_offset(blocks, k);
            &&& 0 <= off
            &&& off + blocks[k].len() <= join_nl(blocks).len()
            &&& join_nl(blocks).subrange(off, off + blocks[k].len()) == blocks[k]
        }),
    decreases blocks.len(),
{
    let off = join_nl_offset(blocks, k);
    if blocks.len() == 1 {
        assert(join_nl(blocks) == blocks[0]);
        assert(join_nl(blocks).subrange(0, blocks[0].len() as int) =~= blocks[0]);
    } else {
        let d = blocks.drop_last();
        if k == blocks.len() - 1 {
            assert(blocks.take(k) =~= d);
            assert(off == join_nl(d).len() + 1);
            assert(join_nl(blocks) == join_nl(d) + seq!['\n'] + blocks.last());
            assert(join_nl(blocks).subrange(off, off + blocks[k].len()) =~= blocks[k]);
        } else {
            lemma_join_nl_contains(d, k);
            assert(blocks.take(k) =~= d.take(k));
            let offd = join_nl_offset(d, k);
            assert(off == offd);
            assert(join_nl(blocks) == join_nl(d) + seq!['\n'] + blocks.last());
            assert(join_nl(blocks).subrange(off, off + blocks[k].len()) =~= join_nl(d).subrange(
                offd,
                offd + d[k].len(),
            ));
        }
    }
}

/// Appends the lines joined with newline separators.
pub fn append_join_nl(out: &mut String, block: &Vec<String>)
    ensures
        final(out)@ == old(out)@ + join_nl(line_views(block@)),
{
    let mut i: usize = 0;
    while i < block.len()
        invariant
            i <= block@.len(),
            out@ == old(out)@ + join_nl(line_views(block@).take(i as int)),
        decreases block@.len() - i,
    {
        if i > 0 {
            out.append("\n");
        }
        out.append(block[i].as_str());
        proof {
            let lv = line_views(block@);
            assert(lv.take(i + 1).drop_last() =~= lv.take(i as int));
            assert(lv.take(i + 1).last() == block@[i as int]@);
            reveal_strlit("\n");
            assert("\n"@ =~= seq!['\n']);
            assert(out@ =~= old(out)@ + join_nl(lv.take(i + 1)));
        }
        i += 1;
    }
    proof {
        let lv = line_views(block@);
        assert(lv.take(block@.len() as int) =~= lv);
    }
}

/// Appends the lines, each followed by a newline.
pub fn append_cat_nl(out: &mut String, block: &Vec<String>)
    ensures
        final(out)@ == old(out)@ + cat_nl(line_views(block@)),
{
    let mut i: usize = 0;
    while i < block.len()
        invariant
            i <= block@.len(),
            out@ == old(out)@ + cat_nl(line_views(block@).take(i as int)),
        decreases block@.len() - i,
    {
        out.append(block[i].as_str());
        out.append("\n");
        proof {
            let lv = line_views(block@);
            assert(lv.take(i + 1).drop_last() =~= lv.take(i as int));
            assert(lv.take(i + 1).last() == block@[i as int]@);
            reveal_strlit("\n");
            assert("\n"@ =~= seq!['\n']);
            assert(out@ =~= old(out)@ + cat_nl(lv.take(i + 1)));
        }
        i += 1;
    }
    proof {
        let lv = line_views(block@);
        assert(lv.take(block@.len() as int) =~= lv);
    }
}

} // verus!
