//! Text primitives shared by the parsers: whitespace, fields, lines and
//! decimal numerals, each defined as a spec function and computed by a
//! verified routine.

use vstd::prelude::*;
use vstd::string::*;

verus! {

/// The characters with the Unicode `White_Space` property.
pub open spec fn is_space(c: char) -> bool {
    ||| ('\t' <= c && c <= '\r')
    ||| c == ' '
    ||| c == '\u{85}'
    ||| c == '\u{a0}'
    ||| c == '\u{1680}'
    ||| ('\u{2000}' <= c && c <= '\u{200a}')
    ||| c == '\u{2028}'
    ||| c == '\u{2029}'
    ||| c == '\u{202f}'
    ||| c == '\u{205f}'
    ||| c == '\u{3000}'
}

pub fn char_is_space(c: char) -> (r: bool)
    ensures
        r == is_space(c),
{
    ('\t' <= c && c <= '\r') || c == ' ' || c == '\u{85}' || c == '\u{a0}' || c == '\u{1680}' || (
    '\u{2000}' <= c && c <= '\u{200a}') || c == '\u{2028}' || c == '\u{2029}' || c == '\u{202f}'
        || c == '\u{205f}' || c == '\u{3000}'
}

/// The views of a sequence of strings.
pub open spec fn views(v: Seq<String>) -> Seq<Seq<char>> {
    Seq::new(v.len(), |i: int| v[i]@)
}

/// First position at or after `i` that holds no whitespace, or the length.
pub open spec fn skip_spaces(s: Seq<char>, i: int) -> int
    decreases s.len() - i,
{
    if 0 <= i < s.len() && is_space(s[i]) {
        skip_spaces(s, i + 1)
    } else {
        i
    }
}

/// First position at or after `i` that holds whitespace, or the length.
pub open spec fn skip_word(s: Seq<char>, i: int) -> int
    decreases s.len() - i,
{
    if 0 <= i < s.len() && !is_space(s[i]) {
        skip_word(s, i + 1)
    } else {
        i
    }
}

/// The maximal runs of non-whitespace characters of `s` from position `i` on,
/// in order.
pub open spec fn fields_from(s: Seq<char>, i: int) -> Seq<Seq<char>>
    decreases s.len() - i,
{
    let a = skip_spaces(s, i);
    let b = skip_word(s, a);
    if 0 <= i <= a && a < b && b <= s.len() {
        seq![s.subrange(a, b)] + fields_from(s, b)
    } else {
        seq![]
    }
}

/// The whitespace-separated fields of `s`.
pub open spec fn fields_of(s: Seq<char>) -> Seq<Seq<char>> {
    fields_from(s, 0)
}

pub proof fn lemma_skip_spaces_bounds(s: Seq<char>, i: int)
    requires
        0 <= i <= s.len(),
    ensures
        i <= skip_spaces(s, i) <= s.len(),
        skip_spaces(s, i) < s.len() ==> !is_space(s[skip_spaces(s, i)]),
    decreases s.len() - i,
{
    if i < s.len() && is_space(s[i]) {
        lemma_skip_spaces_bounds(s, i + 1);
    }
}

pub proof fn lemma_skip_word_bounds(s: Seq<char>, i: int)
    requires
        0 <= i <= s.len(),
    ensures
        i <= skip_word(s, i) <= s.len(),
        i < s.len() && !is_space(s[i]) ==> i < skip_word(s, i),
        skip_word(s, i) < s.len() ==> is_space(s[skip_word(s, i)]),
        forall|j: int| i <= j < skip_word(s, i) ==> !is_space(#[trigger] s[j]),
    decreases s.len() - i,
{
    if i < s.len() && !is_space(s[i]) {
        lemma_skip_word_bounds(s, i + 1);
    }
}

fn scan_spaces(s: &str, n: usize, i: usize) -> (r: usize)
    requires
        n == s@.len(),
        i <= n,
    ensures
        r == skip_spaces(s@, i as int),
        i <= r <= n,
{
    let mut j: usize = i;
    while j < n && char_is_space(s.get_char(j))
        invariant
            n == s@.len(),
            i <= j <= n,
            skip_spaces(s@, j as int) == skip_spaces(s@, i as int),
        decreases n - j,
    {
        j = j + 1;
    }
    j
}

fn scan_word(s: &str, n: usize, i: usize) -> (r: usize)
    requires
        n == s@.len(),
        i <= n,
    ensures
        r == skip_word(s@, i as int),
        i <= r <= n,
{
    let mut j: usize = i;
    while j < n && !char_is_space(s.get_char(j))
        invariant
            n == s@.len(),
            i <= j <= n,
            skip_word(s@, j as int) == skip_word(s@, i as int),
        decreases n - j,
    {
        j = j + 1;
    }
    j
}

/// Splits a line into its whitespace-separated fields.
pub fn split_fields(s: &str) -> (r: Vec<String>)
    ensures
        views(r@) == fields_of(s@),
{
    let n = s.unicode_len();
    let mut out: Vec<String> = Vec::new();
    let mut i: usize = 0;
    loop
        invariant
            n == s@.len(),
            i <= n,
            views(out@) + fields_from(s@, i as int) == fields_of(s@),
        ensures
            views(out@) == fields_of(s@),
        decreases n - i,
    {
        let a = scan_spaces(s, n, i);
        if a >= n {
            assert(fields_from(s@, i as int) =~= seq![]);
            assert(views(out@) + Seq::<Seq<char>>::empty() =~= views(out@));
            break;
        }
        let b = scan_word(s, n, a);
        proof {
            lemma_skip_spaces_bounds(s@, i as int);
            lemma_skip_word_bounds(s@, a as int);
        }
        let word = s.substring_char(a, b).to_owned();
        let ghost before = views(out@);
        out.push(word);
        proof {
            assert(views(out@) =~= before.push(s@.subrange(a as int, b as int)));
            assert(fields_from(s@, i as int) == seq![s@.subrange(a as int, b as int)]
                + fields_from(s@, b as int));
            assert(before.push(s@.subrange(a as int, b as int)) + fields_from(s@, b as int)
                =~= before + fields_from(s@, i as int));
        }
        i = b;
    }
    out
}

/// End of the line that starts at `i`: the position of the next line feed, or
/// the length.
pub open spec fn line_end(s: Seq<char>, i: int) -> int
    decreases s.len() - i,
{
    if 0 <= i < s.len() && s[i] != '\n' {
        line_end(s, i + 1)
    } else {
        i
    }
}

/// A line without one trailing carriage return.
pub open spec fn trim_cr(line: Seq<char>) -> Seq<char> {
    if line.len() > 0 && line.last() == '\r' {
        line.drop_last()
    } else {
        line
    }
}

/// The lines of `s` from position `i` on. A line ends at a line feed, which
/// belongs to no line, as does a carriage return right before it. What
/// follows the last line feed is a line as it stands, unless it is empty.
pub open spec fn lines_from(s: Seq<char>, i: int) -> Seq<Seq<char>>
    decreases s.len() - i,
{
    if 0 <= i < s.len() {
        let e = line_end(s, i);
        if i <= e && e < s.len() {
            seq![trim_cr(s.subrange(i, e))] + lines_from(s, e + 1)
        } else {
            seq![s.subrange(i, s.len() as int)]
        }
    } else {
        seq![]
    }
}

/// The lines of `s`.
pub open spec fn lines_of(s: Seq<char>) -> Seq<Seq<char>> {
    lines_from(s, 0)
}

fn scan_line(s: &str, n: usize, i: usize) -> (r: usize)
    requires
        n == s@.len(),
        i <= n,
    ensures
        r == line_end(s@, i as int),
        i <= r <= n,
{
    let mut j: usize = i;
    while j < n && s.get_char(j) != '\n'
        invariant
            n == s@.len(),
            i <= j <= n,
            line_end(s@, j as int) == line_end(s@, i as int),
        decreases n - j,
    {
        j = j + 1;
    }
    j
}

/// Splits a text into its lines.
pub fn split_lines(s: &str) -> (r: Vec<String>)
    ensures
        views(r@) == lines_of(s@),
{
    let n = s.unicode_len();
    let mut out: Vec<String> = Vec::new();
    let mut i: usize = 0;
    loop
        invariant_except_break
            views(out@) + lines_from(s@, i as int) == lines_of(s@),
        invariant
            n == s@.len(),
            i <= n,
        ensures
            views(out@) == lines_of(s@),
        decreases n - i,
    {
        if i >= n {
            assert(views(out@) + lines_from(s@, i as int) =~= views(out@));
            break;
        }
        let e = scan_line(s, n, i);
        let stop: usize = if e < n && e > i && s.get_char(e - 1) == '\r' {
            e - 1
        } else {
            e
        };
        let line = s.substring_char(i, stop).to_owned();
        let ghost before = views(out@);
        let ghost whole = s@.subrange(i as int, e as int);
        out.push(line);
        if e >= n {
            assert(views(out@) =~= before.push(whole));
            assert(before.push(whole) =~= before + lines_from(s@, i as int));
            break;
        }
        proof {
            assert(trim_cr(whole) =~= s@.subrange(i as int, stop as int));
            assert(views(out@) =~= before.push(trim_cr(whole)));
            assert(before.push(trim_cr(whole)) + lines_from(s@, e + 1) =~= before + lines_from(
                s@,
                i as int,
            ));
        }
        i = e + 1;
    }
    out
}

/// `s` with every maximal run of whitespace from position `i` on replaced by
/// one space.
pub open spec fn collapse_from(s: Seq<char>, i: int) -> Seq<char>
    decreases s.len() - i,
{
    if 0 <= i < s.len() {
        if is_space(s[i]) {
            let a = skip_spaces(s, i);
            if i < a && a <= s.len() {
                seq![' '] + collapse_from(s, a)
            } else {
                seq![]
            }
        } else {
            seq![s[i]] + collapse_from(s, i + 1)
        }
    } else {
        seq![]
    }
}

/// `s` with every maximal run of whitespace replaced by one space.
pub open spec fn collapse_spaces(s: Seq<char>) -> Seq<char> {
    collapse_from(s, 0)
}

/// Behind a prefix, whitespace is skipped as without the prefix.
pub proof fn lemma_skip_spaces_shift(p: Seq<char>, u: Seq<char>, j: int)
    requires
        0 <= j <= u.len(),
    ensures
        skip_spaces(p + u, p.len() + j) == p.len() + skip_spaces(u, j),
    decreases u.len() - j,
{
    if j < u.len() {
        assert((p + u)[p.len() + j] == u[j]);
        if is_space(u[j]) {
            lemma_skip_spaces_shift(p, u, j + 1);
        }
    }
}

/// Behind a prefix, a word is skipped as without the prefix.
pub proof fn lemma_skip_word_shift(p: Seq<char>, u: Seq<char>, j: int)
    requires
        0 <= j <= u.len(),
    ensures
        skip_word(p + u, p.len() + j) == p.len() + skip_word(u, j),
    decreases u.len() - j,
{
    if j < u.len() {
        assert((p + u)[p.len() + j] == u[j]);
        if !is_space(u[j]) {
            lemma_skip_word_shift(p, u, j + 1);
        }
    }
}

/// Behind a prefix, the fields are those without the prefix.
pub proof fn lemma_fields_shift(p: Seq<char>, u: Seq<char>, j: int)
    requires
        0 <= j <= u.len(),
    ensures
        fields_from(p + u, p.len() + j) == fields_from(u, j),
    decreases u.len() - j,
{
    let t = p + u;
    let a = skip_spaces(u, j);
    lemma_skip_spaces_bounds(u, j);
    lemma_skip_spaces_shift(p, u, j);
    let b = skip_word(u, a);
    lemma_skip_word_bounds(u, a);
    lemma_skip_word_shift(p, u, a);
    if a < b {
        assert(t.subrange(p.len() + a, p.len() + b) =~= u.subrange(a, b));
        lemma_fields_shift(p, u, b);
    }
}

/// A word ends where the first whitespace after its start stands.
pub proof fn lemma_skip_word_is(s: Seq<char>, i: int, e: int)
    requires
        0 <= i <= e <= s.len(),
        forall|k: int| i <= k < e ==> !is_space(#[trigger] s[k]),
        e < s.len() ==> is_space(s[e]),
    ensures
        skip_word(s, i) == e,
    decreases e - i,
{
    if i < e {
        lemma_skip_word_is(s, i + 1, e);
    }
}

/// Collapsing copies a word as it stands.
pub proof fn lemma_collapse_copies_word(s: Seq<char>, i: int)
    requires
        0 <= i <= s.len(),
    ensures
        collapse_from(s, i) == s.subrange(i, skip_word(s, i)) + collapse_from(s, skip_word(s, i)),
    decreases s.len() - i,
{
    lemma_skip_word_bounds(s, i);
    let b = skip_word(s, i);
    if i < s.len() && !is_space(s[i]) {
        lemma_collapse_copies_word(s, i + 1);
        assert(s.subrange(i, b) =~= seq![s[i]] + s.subrange(i + 1, b));
        assert(seq![s[i]] + (s.subrange(i + 1, b) + collapse_from(s, b)) =~= s.subrange(i, b)
            + collapse_from(s, b));
    } else {
        assert(s.subrange(i, b) + collapse_from(s, b) =~= collapse_from(s, b));
    }
}

/// Collapsing the whitespace of a text from `i` on leaves the fields from `i`
/// on as they are.
pub proof fn lemma_collapse_keeps_fields_from(s: Seq<char>, i: int)
    requires
        0 <= i <= s.len(),
    ensures
        fields_from(collapse_from(s, i), 0) == fields_from(s, i),
    decreases s.len() - i,
{
    let t = collapse_from(s, i);
    if i == s.len() {
    } else if is_space(s[i]) {
        let a = skip_spaces(s, i);
        lemma_skip_spaces_bounds(s, i);
        lemma_skip_spaces_bounds(s, a);
        let u = collapse_from(s, a);
        let sp = seq![' '];
        assert(t == sp + u);
        lemma_collapse_keeps_fields_from(s, a);
        lemma_fields_shift(sp, u, 0);
        assert(t[0] == ' ');
        assert(skip_spaces(t, 0) == skip_spaces(t, 1));
        assert(fields_from(t, 0) == fields_from(t, 1));
        assert(skip_spaces(s, a) == a);
        assert(fields_from(s, i) == fields_from(s, a));
    } else {
        let b = skip_word(s, i);
        lemma_skip_word_bounds(s, i);
        lemma_collapse_copies_word(s, i);
        let w = s.subrange(i, b);
        let u = collapse_from(s, b);
        assert(t == w + u);
        lemma_collapse_keeps_fields_from(s, b);
        lemma_fields_shift(w, u, 0);
        assert forall|k: int| 0 <= k < w.len() implies !is_space(#[trigger] t[k]) by {
            assert(t[k] == s[i + k]);
        }
        if b < s.len() {
            lemma_skip_spaces_bounds(s, b);
            assert(is_space(s[b]));
            assert(u[0] == ' ');
            assert(t[w.len() as int] == u[0]);
        } else {
            assert(u =~= Seq::<char>::empty());
        }
        lemma_skip_word_is(t, 0, w.len() as int);
        assert(skip_spaces(t, 0) == 0);
        assert(t.subrange(0, w.len() as int) =~= w);
        assert(skip_spaces(s, i) == i);
    }
}

/// Collapsing the whitespace of a line leaves its fields as they are.
pub proof fn lemma_collapse_keeps_fields(s: Seq<char>)
    ensures
        fields_of(collapse_spaces(s)) == fields_of(s),
{
    lemma_collapse_keeps_fields_from(s, 0);
}

/// The pattern of a run of whitespace.
pub open spec fn space_run_pattern() -> Seq<char> {
    "\\s+"@
}

/// Trusted: compiles `pattern` with `regex::Regex::new` and calls
/// `regex::Regex::replace_all` on `line` with the replacement `with`. The
/// contract speaks of one pattern and one replacement only: `\s+`, which is
/// valid, so that compiling it succeeds, and a single space. There `\s` is
/// the `White_Space` property, matches are leftmost, longest and do not
/// overlap, and the replacement holds no `$`: every maximal run of
/// whitespace becomes one space and all else is kept.
#[verifier::external_body]
fn replace_space_runs(pattern: &str, line: &str, with: &str) -> (r: String)
    requires
        pattern@ == space_run_pattern(),
        with@ == " "@,
    ensures
        r@ == collapse_spaces(line@),
{
    regex::Regex::new(pattern).unwrap().replace_all(line, with).to_string()
}

/// A line with every run of whitespace turned into one space. Its fields
/// are those of the line.
pub fn normalize(line: &str) -> (r: String)
    ensures
        r@ == collapse_spaces(line@),
        fields_of(r@) == fields_of(line@),
{
    proof {
        lemma_collapse_keeps_fields(line@);
    }
    replace_space_runs("\\s+", line, " ")
}

pub open spec fn is_digit(c: char) -> bool {
    '0' <= c && c <= '9'
}

pub open spec fn all_digits(s: Seq<char>) -> bool {
    forall|i: int| 0 <= i < s.len() ==> is_digit(#[trigger] s[i])
}

/// The number that a sequence of decimal digits writes.
pub open spec fn decimal_value(s: Seq<char>) -> nat
    decreases s.len(),
{
    if s.len() == 0 {
        0
    } else {
        10 * decimal_value(s.drop_last()) + ((s.last() as int - '0' as int) as nat)
    }
}

/// Whether `s` starts with the character `c`.
pub open spec fn starts_with(s: Seq<char>, c: char) -> bool {
    s.len() > 0 && s[0] == c
}

/// The digits of a numeral: what follows its sign, if it has one.
pub open spec fn unsigned_part(s: Seq<char>, minus: bool) -> Seq<char> {
    if starts_with(s, '+') || (minus && starts_with(s, '-')) {
        s.subrange(1, s.len() as int)
    } else {
        s
    }
}

/// The value of a numeral without sign: at least one digit, nothing else, and
/// a value that fits.
pub open spec fn magnitude(s: Seq<char>) -> Option<u64> {
    if s.len() > 0 && all_digits(s) && decimal_value(s) <= u64::MAX {
        Some(decimal_value(s) as u64)
    } else {
        None
    }
}

/// The value of an unsigned numeral: an optional `+`, then digits.
pub open spec fn u64_of(s: Seq<char>) -> Option<u64> {
    magnitude(unsigned_part(s, false))
}

/// The value of a signed numeral: an optional `+` or `-`, then digits.
pub open spec fn i64_of(s: Seq<char>) -> Option<i64> {
    match magnitude(unsigned_part(s, true)) {
        Some(m) => if starts_with(s, '-') {
            if m <= 0x8000_0000_0000_0000u64 {
                Some((-(m as int)) as i64)
            } else {
                None
            }
        } else {
            if m <= 0x7fff_ffff_ffff_ffffu64 {
                Some(m as i64)
            } else {
                None
            }
        },
        None => None,
    }
}

pub proof fn lemma_decimal_value_prefix(s: Seq<char>, k: int)
    requires
        0 <= k <= s.len(),
    ensures
        decimal_value(s.take(k)) <= decimal_value(s),
    decreases s.len(),
{
    if k == s.len() {
        assert(s.take(k) =~= s);
    } else {
        lemma_decimal_value_prefix(s.drop_last(), k);
        assert(s.drop_last().take(k) =~= s.take(k));
    }
}

fn parse_magnitude(s: &str, start: usize) -> (r: Option<u64>)
    requires
        start <= s@.len(),
    ensures
        r == magnitude(s@.subrange(start as int, s@.len() as int)),
{
    let n = s.unicode_len();
    if start >= n {
        return None;
    }
    let ghost body = s@.subrange(start as int, n as int);
    let mut acc: u64 = 0;
    let mut i: usize = start;
    while i < n
        invariant
            n == s@.len(),
            start <= i <= n,
            body == s@.subrange(start as int, n as int),
            all_digits(body.take(i - start)),
            acc == decimal_value(body.take(i - start)),
        decreases n - i,
    {
        let c = s.get_char(i);
        if !('0' <= c && c <= '9') {
            assert(!is_digit(body[i - start]));
            return None;
        }
        let d: u64 = (c as u32 - '0' as u32) as u64;
        proof {
            let next = body.take(i - start + 1);
            assert(next.drop_last() =~= body.take(i - start));
            assert(decimal_value(next) == 10 * acc + d);
            lemma_decimal_value_prefix(body, i - start + 1);
        }
        if acc > (u64::MAX - d) / 10 {
            return None;
        }
        acc = acc * 10 + d;
        i = i + 1;
    }
    assert(body.take(n - start) =~= body);
    Some(acc)
}

/// Reads a numeral without sign.
pub fn parse_digits(s: &str) -> (r: Option<u64>)
    ensures
        r == magnitude(s@),
{
    assert(s@.subrange(0, s@.len() as int) =~= s@);
    parse_magnitude(s, 0)
}

/// Reads an unsigned decimal numeral.
pub fn parse_u64(s: &str) -> (r: Option<u64>)
    ensures
        r == u64_of(s@),
{
    let n = s.unicode_len();
    if n > 0 && s.get_char(0) == '+' {
        parse_magnitude(s, 1)
    } else {
        assert(s@.subrange(0, n as int) =~= s@);
        parse_magnitude(s, 0)
    }
}

/// Reads a signed decimal numeral.
pub fn parse_i64(s: &str) -> (r: Option<i64>)
    ensures
        r == i64_of(s@),
{
    let n = s.unicode_len();
    let minus = n > 0 && s.get_char(0) == '-';
    let signed = minus || (n > 0 && s.get_char(0) == '+');
    let m = if signed {
        parse_magnitude(s, 1)
    } else {
        assert(s@.subrange(0, n as int) =~= s@);
        parse_magnitude(s, 0)
    };
    match m {
        Some(v) => {
            if minus {
                if v == 0x8000_0000_0000_0000u64 {
                    Some(i64::MIN)
                } else if v < 0x8000_0000_0000_0000u64 {
                    Some(0 - (v as i64))
                } else {
                    None
                }
            } else if v <= 0x7fff_ffff_ffff_ffffu64 {
                Some(v as i64)
            } else {
                None
            }
        },
        None => None,
    }
}

/// The character of a digit.
pub open spec fn digit_char(d: nat) -> char
    recommends
        d < 10,
{
    (('0' as nat + d) as u8) as char
}

/// The digits that write a number, without zeros in front.
pub open spec fn decimal_of(n: nat) -> Seq<char>
    decreases n,
{
    if n < 10 {
        seq![digit_char(n)]
    } else {
        decimal_of(n / 10).push(digit_char(n % 10))
    }
}

/// The numeral of an unsigned number.
pub open spec fn u64_text(n: u64) -> Seq<char> {
    decimal_of(n as nat)
}

/// The numeral of a signed number: a minus sign before the digits of a
/// negative one.
pub open spec fn i64_text(n: i64) -> Seq<char> {
    if n < 0 {
        seq!['-'] + decimal_of((-n) as nat)
    } else {
        decimal_of(n as nat)
    }
}

/// The digits of a number are digits, at least one, and write that number.
pub proof fn lemma_decimal_of(n: nat)
    ensures
        decimal_of(n).len() > 0,
        all_digits(decimal_of(n)),
        decimal_value(decimal_of(n)) == n,
    decreases n,
{
    if n < 10 {
        let s = seq![digit_char(n)];
        assert(s.drop_last() =~= Seq::<char>::empty());
        assert(decimal_value(s.drop_last()) == 0);
        assert(s.last() == digit_char(n));
    } else {
        lemma_decimal_of(n / 10);
        let s = decimal_of(n / 10).push(digit_char(n % 10));
        assert(s.drop_last() =~= decimal_of(n / 10));
        assert(s.last() == digit_char(n % 10));
    }
}

/// Reading the numeral of an unsigned number gives the number.
pub proof fn lemma_u64_text_reads_back(n: u64)
    ensures
        u64_of(u64_text(n)) == Some(n),
{
    lemma_decimal_of(n as nat);
    assert(is_digit(u64_text(n)[0]));
}

/// Reading the numeral of a signed number gives the number.
pub proof fn lemma_i64_text_reads_back(n: i64)
    ensures
        i64_of(i64_text(n)) == Some(n),
{
    if n < 0 {
        let digits = decimal_of((-n) as nat);
        lemma_decimal_of((-n) as nat);
        let s = i64_text(n);
        assert(s[0] == '-');
        assert(s.subrange(1, s.len() as int) =~= digits);
    } else {
        lemma_decimal_of(n as nat);
        assert(is_digit(i64_text(n)[0]));
    }
}

fn digit_text(d: u64) -> (r: &'static str)
    requires
        d < 10,
    ensures
        r@ == seq![digit_char(d as nat)],
{
    proof {
        reveal_strlit("0");
        reveal_strlit("1");
        reveal_strlit("2");
        reveal_strlit("3");
        reveal_strlit("4");
        reveal_strlit("5");
        reveal_strlit("6");
        reveal_strlit("7");
        reveal_strlit("8");
        reveal_strlit("9");
    }
    let r = if d == 0 {
        "0"
    } else if d == 1 {
        "1"
    } else if d == 2 {
        "2"
    } else if d == 3 {
        "3"
    } else if d == 4 {
        "4"
    } else if d == 5 {
        "5"
    } else if d == 6 {
        "6"
    } else if d == 7 {
        "7"
    } else if d == 8 {
        "8"
    } else {
        "9"
    };
    assert(r@ =~= seq![digit_char(d as nat)]);
    r
}

/// Writes an unsigned number.
pub fn write_u64(n: u64) -> (r: String)
    ensures
        r@ == u64_text(n),
    decreases n,
{
    if n < 10 {
        String::from_str(digit_text(n))
    } else {
        let mut out = write_u64(n / 10);
        out.append(digit_text(n % 10));
        assert(out@ =~= decimal_of((n / 10) as nat).push(digit_char((n % 10) as nat)));
        out
    }
}

/// Writes a signed number.
pub fn write_i64(n: i64) -> (r: String)
    ensures
        r@ == i64_text(n),
{
    if n < 0 {
        let m: u64 = if n == i64::MIN {
            0x8000_0000_0000_0000u64
        } else {
            (0 - n) as u64
        };
        let mut out = String::from_str("-");
        let digits = write_u64(m);
        out.append(digits.as_str());
        proof {
            reveal_strlit("-");
            assert(out@ =~= seq!['-'] + decimal_of((-n) as nat));
        }
        out
    } else {
        write_u64(n as u64)
    }
}

} // verus!
