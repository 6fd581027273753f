//! Decimal text of numbers: writing a number out, and reading one from a
//! line of input.
use vstd::prelude::*;

verus! {

/// The character of the decimal digit `d`.
pub open spec fn digit_char(d: int) -> char {
    ((48 + d) as u8) as char
}

/// The decimal digits of `n`, most significant first; `0` is one digit.
pub open spec fn digits(n: nat) -> Seq<char>
    decreases n,
{
    if n < 10 {
        seq![digit_char(n as int)]
    } else {
        digits(n / 10).push(digit_char((n % 10) as int))
    }
}

/// The decimal text of `v`: a minus sign for a negative number, then the
/// digits of its magnitude.
pub open spec fn decimal_text(v: i32) -> Seq<char> {
    if v < 0 {
        seq!['-'] + digits((-(v as int)) as nat)
    } else {
        digits(v as nat)
    }
}

/// Characters that are dropped from both ends of a line of input: the
/// white space of Unicode.
pub open spec fn is_blank(c: char) -> bool {
    let code = c as u32;
    (9 <= code <= 13) || code == 0x20 || code == 0x85 || code == 0xA0 || code == 0x1680 || (0x2000 <= code
        <= 0x200A) || code == 0x2028 || code == 0x2029 || code == 0x202F || code == 0x205F || code == 0x3000
}

pub open spec fn is_digit(c: char) -> bool {
    48 <= c as u32 <= 57
}

/// The value of a decimal digit; other characters count as nothing.
pub open spec fn digit_value(c: char) -> nat {
    if is_digit(c) {
        (c as u32 - 48) as nat
    } else {
        0
    }
}

pub open spec fn all_digits(s: Seq<char>) -> bool {
    forall|k: int| 0 <= k < s.len() ==> is_digit(#[trigger] s[k])
}

/// The number that a sequence of decimal digits denotes.
pub open spec fn digits_value(s: Seq<char>) -> nat
    decreases s.len(),
{
    if s.len() == 0 {
        0
    } else {
        digits_value(s.drop_last()) * 10 + digit_value(s.last())
    }
}

/// The number that `t` denotes: an optional sign, then at least one digit
/// and nothing but digits, the value within the range of `i32`.
pub open spec fn parse_number(t: Seq<char>) -> Option<i32> {
    let negative = t.len() > 0 && t[0] == '-';
    let signed = t.len() > 0 && (t[0] == '-' || t[0] == '+');
    let body = if signed { t.skip(1) } else { t };
    let value = if negative { -(digits_value(body) as int) } else { digits_value(body) as int };
    if body.len() > 0 && all_digits(body) && i32::MIN <= value <= i32::MAX {
        Some(value as i32)
    } else {
        None
    }
}

/// The first position at or after `lo`, and not after `hi`, that holds no blank.
pub open spec fn trim_start(s: Seq<char>, lo: int, hi: int) -> int
    decreases hi - lo,
{
    if 0 <= lo < hi <= s.len() && is_blank(s[lo]) {
        trim_start(s, lo + 1, hi)
    } else {
        lo
    }
}

/// The end of the text between `lo` and `hi` without the blanks at its end.
pub open spec fn trim_end(s: Seq<char>, lo: int, hi: int) -> int
    decreases hi - lo,
{
    if 0 <= lo < hi <= s.len() && is_blank(s[hi - 1]) {
        trim_end(s, lo, hi - 1)
    } else {
        hi
    }
}

/// The text between `lo` and `hi` without the blanks at its two ends.
pub open spec fn trimmed(s: Seq<char>, lo: int, hi: int) -> Seq<char> {
    let a = trim_start(s, lo, hi);
    s.subrange(a, trim_end(s, a, hi))
}

/// The end of the line that starts at `from`: just behind the first line
/// feed at or after `from`, or the end of `s` where there is none.
pub open spec fn line_end(s: Seq<char>, from: int) -> int
    decreases s.len() - from,
{
    if from < 0 || from >= s.len() {
        s.len() as int
    } else if s[from] == '\n' {
        from + 1
    } else {
        line_end(s, from + 1)
    }
}

pub proof fn lemma_line_end_bounds(s: Seq<char>, from: int)
    requires
        0 <= from <= s.len(),
    ensures
        from <= line_end(s, from) <= s.len(),
        from < s.len() ==> from < line_end(s, from),
    decreases s.len() - from,
{
    if from < s.len() && s[from] != '\n' {
        lemma_line_end_bounds(s, from + 1);
    }
}

/// The digits of a number read so far never denote more than the whole does.
pub proof fn lemma_digits_value_prefix(s: Seq<char>, k: int)
    requires
        0 <= k <= s.len(),
    ensures
        digits_value(s.take(k)) <= digits_value(s),
    decreases s.len(),
{
    if k < s.len() {
        lemma_digits_value_prefix(s.drop_last(), k);
        assert(s.drop_last().take(k) =~= s.take(k));
    } else {
        assert(s.take(k) =~= s);
    }
}

fn push_digits(n: u32, out: &mut Vec<char>)
    ensures
        final(out)@ == old(out)@ + digits(n as nat),
    decreases n,
{
    if n >= 10 {
        push_digits(n / 10, out);
    }
    let d: u8 = (n % 10) as u8;
    out.push((48u8 + d) as char);
    assert(final(out)@ =~= old(out)@ + digits(n as nat));
}

/// Appends the decimal text of `v` to `out`.
pub fn push_decimal(v: i32, out: &mut Vec<char>)
    ensures
        final(out)@ == old(out)@ + decimal_text(v),
{
    if v < 0 {
        out.push('-');
        let magnitude: u32 = (-(v as i64)) as u32;
        push_digits(magnitude, out);
        assert(final(out)@ =~= old(out)@ + decimal_text(v));
    } else {
        push_digits(v as u32, out);
    }
}

/// The end of the line of `buf` that starts at `from`.
pub fn find_line_end(buf: &Vec<char>, from: usize) -> (end: usize)
    requires
        from <= buf.len(),
    ensures
        end == line_end(buf@, from as int),
        from <= end <= buf.len(),
{
    let mut k: usize = from;
    while k < buf.len() && buf[k] != '\n'
        invariant
            from <= k <= buf.len(),
            line_end(buf@, from as int) == line_end(buf@, k as int),
        decreases buf.len() - k,
    {
        k += 1;
    }
    proof {
        lemma_line_end_bounds(buf@, from as int);
    }
    if k < buf.len() {
        k + 1
    } else {
        k
    }
}

/// Reads the number written between `lo` and `hi` in `buf`, blanks at both
/// ends aside.
#[verifier::loop_isolation(false)]
pub fn parse_line(buf: &Vec<char>, lo: usize, hi: usize) -> (number: Option<i32>)
    requires
        lo <= hi <= buf.len(),
    ensures
        number == parse_number(trimmed(buf@, lo as int, hi as int)),
{
    let mut a: usize = lo;
    while a < hi && blank(buf[a])
        invariant
            lo <= a <= hi <= buf.len(),
            trim_start(buf@, lo as int, hi as int) == trim_start(buf@, a as int, hi as int),
        decreases hi - a,
    {
        a += 1;
    }
    let mut b: usize = hi;
    while a < b && blank(buf[b - 1])
        invariant
            a <= b <= hi <= buf.len(),
            trim_end(buf@, a as int, hi as int) == trim_end(buf@, a as int, b as int),
        decreases b - a,
    {
        b -= 1;
    }
    let ghost t = buf@.subrange(a as int, b as int);
    assert(t == trimmed(buf@, lo as int, hi as int));
    if a == b {
        return None;
    }
    let negative = buf[a] == '-';
    let signed = negative || buf[a] == '+';
    let start: usize = if signed { a + 1 } else { a };
    let ghost body = buf@.subrange(start as int, b as int);
    assert(body =~= if signed { t.skip(1) } else { t });
    if start == b {
        return None;
    }
    let limit: i64 = 2147483648;
    let mut acc: i64 = 0;
    let mut k: usize = start;
    while k < b
        invariant
            start <= k <= b <= buf.len(),
            body == buf@.subrange(start as int, b as int),
            limit == 2147483648,
            0 <= acc <= limit,
            acc == digits_value(body.take(k - start)),
            all_digits(body.take(k - start)),
        decreases b - k,
    {
        let c = buf[k];
        let code: u32 = c as u32;
        if code < 48 || code > 57 {
            assert(!is_digit(body[k - start]));
            return None;
        }
        let next: i64 = acc * 10 + (code - 48) as i64;
        proof {
            assert(body.take(k - start + 1).drop_last() =~= body.take(k - start));
            assert(body.take(k - start + 1).last() == c);
        }
        if next > limit {
            proof {
                lemma_digits_value_prefix(body, k - start + 1);
            }
            return None;
        }
        acc = next;
        k += 1;
    }
    assert(body.take(k - start) =~= body);
    if negative {
        Some((-acc) as i32)
    } else if acc == limit {
        None
    } else {
        Some(acc as i32)
    }
}

fn blank(c: char) -> (r: bool)
    ensures
        r == is_blank(c),
{
    let code: u32 = c as u32;
    (9 <= code && code <= 13) || code == 0x20 || code == 0x85 || code == 0xA0 || code == 0x1680 || (0x2000 <= code
        && code <= 0x200A) || code == 0x2028 || code == 0x2029 || code == 0x202F || code == 0x205F || code == 0x3000
}

} // verus!
