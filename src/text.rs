//! Text handling: the target-list file format, JSON string escaping, and
//! decimal numbers and round-trip times for display.

use crate::targets::texts;
use vstd::arithmetic::div_mod::lemma_fundamental_div_mod;
use vstd::prelude::*;

verus! {

/// Relies on `String::push`: appends one character to the string.
#[verifier::external_body]
pub(crate) fn push_char(s: &mut String, c: char)
    ensures
        final(s)@ == old(s)@.push(c),
{
    s.push(c);
}

/// Unicode `White_Space`: the characters that trimming removes.
pub open spec fn is_space(c: char) -> bool {
    ||| '\u{9}' <= c <= '\u{d}'
    ||| c == ' '
    ||| c == '\u{85}'
    ||| c == '\u{a0}'
    ||| c == '\u{1680}'
    ||| '\u{2000}' <= c <= '\u{200a}'
    ||| c == '\u{2028}'
    ||| c == '\u{2029}'
    ||| c == '\u{202f}'
    ||| c == '\u{205f}'
    ||| c == '\u{3000}'
}

fn space(c: char) -> (r: bool)
    ensures
        r == is_space(c),
{
    ('\u{9}' <= c && c <= '\u{d}') || c == ' ' || c == '\u{85}' || c == '\u{a0}' || c
        == '\u{1680}' || ('\u{2000}' <= c && c <= '\u{200a}') || c == '\u{2028}' || c
        == '\u{2029}' || c == '\u{202f}' || c == '\u{205f}' || c == '\u{3000}'
}

/// `s` without leading white space.
pub open spec fn trim_start(s: Seq<char>) -> Seq<char>
    decreases s.len(),
{
    if s.len() > 0 && is_space(s[0]) {
        trim_start(s.drop_first())
    } else {
        s
    }
}

/// `s` without trailing white space.
pub open spec fn trim_end(s: Seq<char>) -> Seq<char>
    decreases s.len(),
{
    if s.len() > 0 && is_space(s.last()) {
        trim_end(s.drop_last())
    } else {
        s
    }
}

/// `s` without leading or trailing white space.
pub open spec fn trim(s: Seq<char>) -> Seq<char> {
    trim_end(trim_start(s))
}

/// The lines of `s`, split at each `'\n'`; the last one is whatever follows
/// the last line break (possibly nothing).
pub open spec fn split_lines(s: Seq<char>) -> Seq<Seq<char>>
    decreases s.len(),
{
    if s.len() == 0 {
        seq![Seq::<char>::empty()]
    } else {
        let prev = split_lines(s.drop_last());
        if s.last() == '\n' {
            prev.push(Seq::<char>::empty())
        } else {
            prev.update(prev.len() - 1, prev.last().push(s.last()))
        }
    }
}

/// A trimmed line names a target unless it is empty or starts with `#`.
pub open spec fn is_target_line(l: Seq<char>) -> bool {
    l.len() > 0 && l[0] != '#'
}

/// The targets that a list of lines names, trimmed, in order.
pub open spec fn targets_in(lines: Seq<Seq<char>>) -> Seq<Seq<char>>
    decreases lines.len(),
{
    if lines.len() == 0 {
        Seq::empty()
    } else {
        let prev = targets_in(lines.drop_last());
        let t = trim(lines.last());
        if is_target_line(t) {
            prev.push(t)
        } else {
            prev
        }
    }
}

/// The targets of a target-list file: one per line, surrounding white space
/// removed, blank lines and lines starting with `#` skipped.
pub open spec fn target_list(content: Seq<char>) -> Seq<Seq<char>> {
    targets_in(split_lines(content))
}

proof fn lemma_split_lines_nonempty(s: Seq<char>)
    ensures
        split_lines(s).len() >= 1,
    decreases s.len(),
{
    if s.len() > 0 {
        lemma_split_lines_nonempty(s.drop_last());
    }
}

/// The characters of `v` from `start` up to `end`, as a string.
fn string_of(v: &Vec<char>, start: usize, end: usize) -> (r: String)
    requires
        start <= end <= v@.len(),
    ensures
        r@ == v@.subrange(start as int, end as int),
{
    let mut s = String::new();
    let mut i = start;
    while i < end
        invariant
            start <= i <= end,
            end <= v@.len(),
            s@ == v@.subrange(start as int, i as int),
        decreases end - i,
    {
        push_char(&mut s, v[i]);
        i = i + 1;
        assert(s@ =~= v@.subrange(start as int, i as int));
    }
    s
}

/// Trims `line` and appends it to `out` when it names a target.
fn finish_line(out: &mut Vec<String>, line: &Vec<char>)
    ensures
        texts(final(out)@) == if is_target_line(trim(line@)) {
            texts(old(out)@).push(trim(line@))
        } else {
            texts(old(out)@)
        },
{
    let n = line.len();
    let mut i: usize = 0;
    assert(line@.subrange(0, n as int) =~= line@);
    while i < n && space(line[i])
        invariant
            n == line@.len(),
            i <= n,
            trim_start(line@) == trim_start(line@.subrange(i as int, n as int)),
        decreases n - i,
    {
        assert(line@.subrange(i as int, n as int).drop_first() =~= line@.subrange(i + 1, n as int));
        i = i + 1;
    }
    let mut j: usize = n;
    while j > i && space(line[j - 1])
        invariant
            n == line@.len(),
            i <= j <= n,
            trim_end(line@.subrange(i as int, n as int)) == trim_end(
                line@.subrange(i as int, j as int),
            ),
        decreases j - i,
    {
        assert(line@.subrange(i as int, j as int).drop_last() =~= line@.subrange(
            i as int,
            j - 1,
        ));
        j = j - 1;
    }
    proof {
        if i < n {
            assert(line@.subrange(i as int, n as int)[0] == line@[i as int]);
        }
        assert(trim_start(line@.subrange(i as int, n as int)) == line@.subrange(i as int, n as int));
        if j > i {
            assert(line@.subrange(i as int, j as int).last() == line@[j - 1]);
        }
        assert(trim(line@) == line@.subrange(i as int, j as int));
    }
    if j > i && line[i] != '#' {
        let t = string_of(line, i, j);
        out.push(t);
        assert(texts(out@) =~= texts(old(out)@).push(trim(line@)));
    }
}

/// Reads a target-list file's content: one target per line, surrounding
/// white space removed, blank lines and `#` comment lines skipped.
pub fn target_lines(content: &str) -> (r: Vec<String>)
    ensures
        texts(r@) == target_list(content@),
{
    let mut out: Vec<String> = Vec::new();
    let mut cur: Vec<char> = Vec::new();
    proof {
        assert(content@.take(0) =~= Seq::<char>::empty());
        assert(texts(out@) =~= Seq::<Seq<char>>::empty());
    }
    for c in it: content.chars()
        invariant
            it.seq() == content@,
            split_lines(content@.take(it.index() as int)).last() == cur@,
            texts(out@) == targets_in(split_lines(content@.take(it.index() as int)).drop_last()),
    {
        let ghost pre = content@.take(it.index() as int);
        proof {
            assert(content@.take(it.index() + 1).drop_last() =~= pre);
            lemma_split_lines_nonempty(pre);
        }
        if c == '\n' {
            finish_line(&mut out, &cur);
            cur = Vec::new();
            proof {
                let lines = split_lines(content@.take(it.index() + 1));
                assert(lines.drop_last() =~= split_lines(pre));
                assert(split_lines(pre) =~= split_lines(pre).drop_last().push(split_lines(pre).last()));
            }
        } else {
            cur.push(c);
            proof {
                let lines = split_lines(content@.take(it.index() + 1));
                assert(lines.drop_last() =~= split_lines(pre).drop_last());
            }
        }
    }
    proof {
        assert(content@.take(content@.len() as int) =~= content@);
        lemma_split_lines_nonempty(content@);
        let lines = split_lines(content@);
        assert(lines =~= lines.drop_last().push(lines.last()));
    }
    finish_line(&mut out, &cur);
    out
}

/// The JSON escape of one character: `"`, `\`, newline, carriage return and
/// tab are written with a backslash; every other character stands as it is.
pub open spec fn escape_char(c: char) -> Seq<char> {
    if c == '"' {
        seq!['\\', '"']
    } else if c == '\\' {
        seq!['\\', '\\']
    } else if c == '\n' {
        seq!['\\', 'n']
    } else if c == '\r' {
        seq!['\\', 'r']
    } else if c == '\t' {
        seq!['\\', 't']
    } else {
        seq![c]
    }
}

/// `s` with every character escaped.
pub open spec fn json_escaped(s: Seq<char>) -> Seq<char>
    decreases s.len(),
{
    if s.len() == 0 {
        Seq::empty()
    } else {
        json_escaped(s.drop_last()) + escape_char(s.last())
    }
}

/// Escapes a string for use inside a JSON string literal.
pub fn json_escape(s: &str) -> (r: String)
    ensures
        r@ == json_escaped(s@),
{
    let mut out = String::new();
    proof {
        assert(s@.take(0) =~= Seq::<char>::empty());
    }
    for c in it: s.chars()
        invariant
            it.seq() == s@,
            out@ == json_escaped(s@.take(it.index() as int)),
    {
        let ghost before = out@;
        proof {
            assert(s@.take(it.index() + 1).drop_last() =~= s@.take(it.index() as int));
        }
        if c == '"' {
            push_char(&mut out, '\\');
            push_char(&mut out, '"');
        } else if c == '\\' {
            push_char(&mut out, '\\');
            push_char(&mut out, '\\');
        } else if c == '\n' {
            push_char(&mut out, '\\');
            push_char(&mut out, 'n');
        } else if c == '\r' {
            push_char(&mut out, '\\');
            push_char(&mut out, 'r');
        } else if c == '\t' {
            push_char(&mut out, '\\');
            push_char(&mut out, 't');
        } else {
            push_char(&mut out, c);
        }
        assert(out@ =~= before + escape_char(c));
    }
    proof {
        assert(s@.take(s@.len() as int) =~= s@);
    }
    out
}

/// The decimal digit for `d < 10`.
pub open spec fn digit_char(d: nat) -> char {
    if d == 0 {
        '0'
    } else if d == 1 {
        '1'
    } else if d == 2 {
        '2'
    } else if d == 3 {
        '3'
    } else if d == 4 {
        '4'
    } else if d == 5 {
        '5'
    } else if d == 6 {
        '6'
    } else if d == 7 {
        '7'
    } else if d == 8 {
        '8'
    } else {
        '9'
    }
}

/// `n` in decimal, without leading zeros.
pub open spec fn decimal(n: nat) -> Seq<char>
    decreases n,
{
    if n < 10 {
        seq![digit_char(n)]
    } else {
        decimal(n / 10).push(digit_char(n % 10))
    }
}

pub(crate) fn digit(d: u64) -> (c: char)
    requires
        d < 10,
    ensures
        c == digit_char(d as nat),
{
    if d == 0 {
        '0'
    } else if d == 1 {
        '1'
    } else if d == 2 {
        '2'
    } else if d == 3 {
        '3'
    } else if d == 4 {
        '4'
    } else if d == 5 {
        '5'
    } else if d == 6 {
        '6'
    } else if d == 7 {
        '7'
    } else if d == 8 {
        '8'
    } else {
        '9'
    }
}

/// Appends `n` in decimal.
pub(crate) fn push_decimal(s: &mut String, n: u64)
    ensures
        final(s)@ == old(s)@ + decimal(n as nat),
    decreases n,
{
    if n >= 10 {
        push_decimal(s, n / 10);
    }
    push_char(s, digit(n % 10));
    assert(final(s)@ =~= old(s)@ + decimal(n as nat));
}

/// Appends every character of `t`.
pub(crate) fn push_str(s: &mut String, t: &str)
    ensures
        final(s)@ == old(s)@ + t@,
{
    let ghost start = s@;
    proof {
        assert(t@.take(0) =~= Seq::<char>::empty());
        assert(start + t@.take(0) =~= start);
    }
    for c in it: t.chars()
        invariant
            it.seq() == t@,
            s@ == start + t@.take(it.index() as int),
    {
        push_char(s, c);
        assert(s@ =~= start + t@.take(it.index() + 1));
    }
    assert(t@.take(t@.len() as int) =~= t@);
}

/// `n / d` rounded to the nearest integer, ties to even.
pub open spec fn round_div(n: nat, d: nat) -> nat {
    let q = n / d;
    let r = n % d;
    if 2 * r > d || (2 * r == d && q % 2 == 1) {
        q + 1
    } else {
        q
    }
}

/// `n / d` rounded to the nearest integer, ties to even.
pub fn rounded_quotient(n: u64, d: u64) -> (r: u64)
    requires
        d > 0,
    ensures
        r == round_div(n as nat, d as nat),
{
    let q = n / d;
    let rem = n % d;
    if rem > d - rem || (rem == d - rem && q % 2 == 1) {
        proof {
            lemma_fundamental_div_mod(n as int, d as int);
            assert(q * 2 <= n) by (nonlinear_arith)
                requires
                    n == d * q + rem,
                    d >= 2,
                    rem >= 0,
            ;
        }
        q + 1
    } else {
        q
    }
}

/// A round trip for display: `<1ms` under a millisecond, otherwise whole
/// milliseconds (rounded to nearest, ties to even) followed by `ms`.
pub fn format_time(time_us: u64) -> (r: String)
    ensures
        time_us < 1000 ==> r@ == "<1ms"@,
        time_us >= 1000 ==> r@ == decimal(round_div(time_us as nat, 1000)) + "ms"@,
{
    let mut s = String::new();
    if time_us < 1000 {
        push_str(&mut s, "<1ms");
        assert(s@ =~= "<1ms"@);
        return s;
    }
    push_decimal(&mut s, rounded_quotient(time_us, 1000));
    push_str(&mut s, "ms");
    assert(s@ =~= decimal(round_div(time_us as nat, 1000)) + "ms"@);
    s
}

} // verus!
