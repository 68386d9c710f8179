//! Text that the library reads and writes: decimal numbers and padding.

use vstd::prelude::*;

verus! {

/// `String::push` of the standard library: appends one character.
#[verifier::external_body]
pub(crate) fn push_char(text: &mut String, c: char)
    ensures
        final(text)@ == old(text)@.push(c),
{
    text.push(c);
}

/// The character of a digit: `0` to `9`, then `a` to `f`.
pub open spec fn digit_char(d: nat) -> char {
    if d == 0 {
        '0'
    } else if d == 1 {
        '1'
    } else if d == 2 {
        '2'
    } else if d == 3 {
        '3'
    } else if d == 4 {
        '4'
    } else if d == 5 {
        '5'
    } else if d == 6 {
        '6'
    } else if d == 7 {
        '7'
    } else if d == 8 {
        '8'
    } else if d == 9 {
        '9'
    } else if d == 10 {
        'a'
    } else if d == 11 {
        'b'
    } else if d == 12 {
        'c'
    } else if d == 13 {
        'd'
    } else if d == 14 {
        'e'
    } else {
        'f'
    }
}

/// The value of a decimal digit, or `None` for any other character.
pub open spec fn digit_value(c: char) -> Option<nat> {
    if c == '0' {
        Some(0)
    } else if c == '1' {
        Some(1)
    } else if c == '2' {
        Some(2)
    } else if c == '3' {
        Some(3)
    } else if c == '4' {
        Some(4)
    } else if c == '5' {
        Some(5)
    } else if c == '6' {
        Some(6)
    } else if c == '7' {
        Some(7)
    } else if c == '8' {
        Some(8)
    } else if c == '9' {
        Some(9)
    } else {
        None
    }
}

/// The decimal form of `n`, without leading zeros.
pub open spec fn decimal(n: nat) -> Seq<char>
    decreases n,
{
    if n < 10 {
        seq![digit_char(n)]
    } else {
        decimal(n / 10).push(digit_char(n % 10))
    }
}

/// The number that a run of decimal digits denotes, or `None` where the run
/// is empty or holds another character.
pub open spec fn decimal_value(digits: Seq<char>) -> Option<nat>
    decreases digits.len(),
{
    if digits.len() == 0 {
        None
    } else if digits.len() == 1 {
        digit_value(digits[0])
    } else {
        match (decimal_value(digits.drop_last()), digit_value(digits.last())) {
            (Some(high), Some(low)) => Some(high * 10 + low),
            _ => None,
        }
    }
}

/// Reading the decimal form of a number gives the number.
pub proof fn lemma_decimal_value(n: nat)
    ensures
        decimal_value(decimal(n)) == Some(n),
        decimal(n).len() >= 1,
    decreases n,
{
    if n >= 10 {
        lemma_decimal_value(n / 10);
        assert(decimal(n).drop_last() =~= decimal(n / 10));
        assert(decimal(n).last() == digit_char(n % 10));
    }
}

/// The digit of a value below ten, as an executable function.
fn decimal_digit(d: u8) -> (c: char)
    requires
        d < 10,
    ensures
        c == digit_char(d as nat),
{
    if d == 0 {
        '0'
    } else if d == 1 {
        '1'
    } else if d == 2 {
        '2'
    } else if d == 3 {
        '3'
    } else if d == 4 {
        '4'
    } else if d == 5 {
        '5'
    } else if d == 6 {
        '6'
    } else if d == 7 {
        '7'
    } else if d == 8 {
        '8'
    } else {
        '9'
    }
}

/// The decimal digits of `n`, most significant first.
pub fn decimal_digits(n: u128) -> (digits: Vec<char>)
    ensures
        digits@ == decimal(n as nat),
    decreases n,
{
    if n < 10 {
        let mut digits: Vec<char> = Vec::new();
        digits.push(decimal_digit(n as u8));
        assert(digits@ =~= seq![digit_char(n as nat)]);
        digits
    } else {
        let mut digits = decimal_digits(n / 10);
        digits.push(decimal_digit((n % 10) as u8));
        digits
    }
}

/// Appends the characters of `chars` to `text`.
pub fn push_chars(text: &mut String, chars: &Vec<char>)
    ensures
        final(text)@ == old(text)@ + chars@,
{
    let mut i: usize = 0;
    while i < chars.len()
        invariant
            0 <= i <= chars.len(),
            text@ == old(text)@ + chars@.take(i as int),
        decreases chars.len() - i,
    {
        push_char(text, chars[i]);
        assert(chars@.take(i + 1) =~= chars@.take(i as int).push(chars[i as int]));
        i += 1;
    }
    assert(chars@.take(i as int) =~= chars@);
}

/// Appends the decimal form of `n` to `text`.
pub fn push_decimal(text: &mut String, n: u128)
    ensures
        final(text)@ == old(text)@ + decimal(n as nat),
{
    let digits = decimal_digits(n);
    push_chars(text, &digits);
}

/// `n` copies of `c`.
pub open spec fn repeated(c: char, n: nat) -> Seq<char> {
    Seq::new(n, |i: int| c)
}

/// `s` behind as many spaces as bring it to `width` characters.
pub open spec fn pad_left(s: Seq<char>, width: nat) -> Seq<char> {
    if s.len() >= width {
        s
    } else {
        repeated(' ', (width - s.len()) as nat) + s
    }
}

/// `s` before as many spaces as bring it to `width` characters.
pub open spec fn pad_right(s: Seq<char>, width: nat) -> Seq<char> {
    if s.len() >= width {
        s
    } else {
        s + repeated(' ', (width - s.len()) as nat)
    }
}

/// Appends `n` spaces.
pub fn push_spaces(text: &mut String, n: usize)
    ensures
        final(text)@ == old(text)@ + repeated(' ', n as nat),
{
    let mut i: usize = 0;
    while i < n
        invariant
            0 <= i <= n,
            text@ == old(text)@ + repeated(' ', i as nat),
        decreases n - i,
    {
        push_char(text, ' ');
        assert(repeated(' ', (i + 1) as nat) =~= repeated(' ', i as nat).push(' '));
        i += 1;
    }
}

/// Appends the decimal form of `n`, right-aligned in `width` characters.
pub fn push_decimal_right(text: &mut String, n: u128, width: usize)
    ensures
        final(text)@ == old(text)@ + pad_left(decimal(n as nat), width as nat),
{
    let digits = decimal_digits(n);
    if digits.len() < width {
        push_spaces(text, width - digits.len());
    } else {
        assert(old(text)@ + Seq::<char>::empty() =~= old(text)@);
    }
    push_chars(text, &digits);
    assert(text@ =~= old(text)@ + pad_left(decimal(n as nat), width as nat));
}

/// Appends the decimal form of `n`, left-aligned in `width` characters.
pub fn push_decimal_left(text: &mut String, n: u128, width: usize)
    ensures
        final(text)@ == old(text)@ + pad_right(decimal(n as nat), width as nat),
{
    let digits = decimal_digits(n);
    push_chars(text, &digits);
    if digits.len() < width {
        push_spaces(text, width - digits.len());
    }
    assert(text@ =~= old(text)@ + pad_right(decimal(n as nat), width as nat));
}

/// The characters of a string, in order.
pub fn chars_of(text: &str) -> (chars: Vec<char>)
    ensures
        chars@ == text@,
{
    let mut chars: Vec<char> = Vec::new();
    for c in it: text.chars()
        invariant
            it.seq() == text@,
            chars@ == text@.take(it.index()),
    {
        chars.push(c);
        assert(text@.take(it.index() + 1) =~= text@.take(it.index()).push(c));
    }
    assert(text@.take(text@.len() as int) =~= text@);
    chars
}

/// The number that `digits[from..to]` denotes in decimal, or `None` where the
/// range is empty, holds another character, or denotes more than `limit`.
pub fn parse_decimal(digits: &Vec<char>, from: usize, to: usize, limit: u128) -> (value: Option<
    u128,
>)
    requires
        from <= to <= digits.len(),
    ensures
        value == match decimal_value(digits@.subrange(from as int, to as int)) {
            Some(n) => if n <= limit {
                Some(n as u128)
            } else {
                None
            },
            None => None,
        },
{
    if from == to {
        return None;
    }
    let ghost run = digits@.subrange(from as int, to as int);
    let mut acc: u128 = 0;
    let mut i: usize = from;
    while i < to
        invariant
            from <= i <= to <= digits.len(),
            from < to,
            run == digits@.subrange(from as int, to as int),
            i > from ==> decimal_value(run.take(i - from)) == Some(acc as nat),
            i == from ==> acc == 0,
            acc <= limit,
        decreases to - i,
    {
        let c = digits[i];
        let d: u128 = if c == '0' {
            0
        } else if c == '1' {
            1
        } else if c == '2' {
            2
        } else if c == '3' {
            3
        } else if c == '4' {
            4
        } else if c == '5' {
            5
        } else if c == '6' {
            6
        } else if c == '7' {
            7
        } else if c == '8' {
            8
        } else if c == '9' {
            9
        } else {
            proof {
                assert(run.take(i - from + 1).last() == c);
                assert(decimal_value(run.take(i - from + 1)).is_none());
                lemma_decimal_prefix_none(run, i - from + 1);
            }
            return None;
        };
        proof {
            let next = run.take(i - from + 1);
            assert(next.last() == c);
            assert(next.drop_last() =~= run.take(i - from));
            assert(digit_value(c) == Some(d as nat));
            if i == from {
                assert(next.len() == 1);
            }
        }
        if d > limit || acc > (limit - d) / 10 {
            proof {
                let next = run.take(i - from + 1);
                assert(decimal_value(next) == Some((acc as nat) * 10 + d as nat));
                assert((acc as nat) * 10 + d as nat > limit);
                lemma_decimal_prefix_large(run, i - from + 1, limit as nat);
            }
            return None;
        }
        acc = acc * 10 + d;
        i += 1;
    }
    assert(run.take(to - from) =~= run);
    Some(acc)
}

/// A run of digits with a prefix that is no number is no number.
pub proof fn lemma_decimal_prefix_none(digits: Seq<char>, k: int)
    requires
        1 <= k <= digits.len(),
        decimal_value(digits.take(k)).is_none(),
    ensures
        decimal_value(digits).is_none(),
    decreases digits.len(),
{
    if k < digits.len() {
        assert(digits.drop_last().take(k) =~= digits.take(k));
        lemma_decimal_prefix_none(digits.drop_last(), k);
    } else {
        assert(digits.take(k) =~= digits);
    }
}

/// A run of digits denotes at least what each of its prefixes denotes.
pub proof fn lemma_decimal_prefix_large(digits: Seq<char>, k: int, limit: nat)
    requires
        1 <= k <= digits.len(),
        decimal_value(digits.take(k)) matches Some(n) && n > limit,
    ensures
        decimal_value(digits) matches Some(n) ==> n > limit,
    decreases digits.len(),
{
    if k < digits.len() {
        assert(digits.drop_last().take(k) =~= digits.take(k));
        lemma_decimal_prefix_large(digits.drop_last(), k, limit);
    } else {
        assert(digits.take(k) =~= digits);
    }
}

/// Appends a string.
pub fn push_str(text: &mut String, more: &str)
    ensures
        final(text)@ == old(text)@ + more@,
{
    text.append(more);
}

/// The models of a list of lines.
pub open spec fn lines_view(lines: Seq<String>) -> Seq<Seq<char>> {
    Seq::new(lines.len(), |i: int| lines[i]@)
}

/// A list of one line.
pub fn one_line(line: String) -> (lines: Vec<String>)
    ensures
        lines_view(lines@) == seq![line@],
{
    let mut lines: Vec<String> = Vec::new();
    let ghost model = line@;
    lines.push(line);
    assert(lines_view(lines@) =~= seq![model]);
    lines
}

/// No line.
pub fn no_lines() -> (lines: Vec<String>)
    ensures
        lines_view(lines@) == Seq::<Seq<char>>::empty(),
{
    let lines: Vec<String> = Vec::new();
    assert(lines_view(lines@) =~= Seq::<Seq<char>>::empty());
    lines
}

/// Adds a line at the end.
pub fn push_line(lines: &mut Vec<String>, line: String)
    ensures
        lines_view(final(lines)@) == lines_view(old(lines)@).push(line@),
{
    let ghost model = line@;
    lines.push(line);
    assert(lines_view(lines@) =~= lines_view(old(lines)@).push(model));
}

} // verus!
