//! Decimal text: how an integer is written and how a 32-bit integer is read back.

use vstd::prelude::*;
use vstd::string::*;

verus! {

/// Why a text could not be read as a 32-bit decimal integer.
#[derive(Clone, Copy, Debug, PartialEq, Eq, Structural)]
pub enum DecodeError {
    /// The text is empty.
    Empty,
    /// The text is a lone sign, or a character that is no digit is met before
    /// the digits read so far leave the range.
    InvalidDigit,
    /// The digits, read from the left, exceed `i32::MAX`.
    PosOverflow,
    /// The digits behind a minus sign, read from the left, fall below `i32::MIN`.
    NegOverflow,
}

impl DecodeError {
    /// The text of the error.
    pub open spec fn message_spec(self) -> Seq<char> {
        "Failed to parse cigarette ID: "@ + match self {
            DecodeError::Empty => "cannot parse integer from empty string"@,
            DecodeError::InvalidDigit => "invalid digit found in string"@,
            DecodeError::PosOverflow => "number too large to fit in target type"@,
            DecodeError::NegOverflow => "number too small to fit in target type"@,
        }
    }

    /// The text of the error.
    pub fn message(&self) -> (r: String)
        ensures
            r@ == self.message_spec(),
    {
        let mut out = String::from_str("Failed to parse cigarette ID: ");
        match self {
            DecodeError::Empty => out.append("cannot parse integer from empty string"),
            DecodeError::InvalidDigit => out.append("invalid digit found in string"),
            DecodeError::PosOverflow => out.append("number too large to fit in target type"),
            DecodeError::NegOverflow => out.append("number too small to fit in target type"),
        }
        out
    }
}

/// The character that stands for the digit `d`.
pub open spec fn digit_char(d: int) -> char {
    if d == 0 {
        '0'
    } else if d == 1 {
        '1'
    } else if d == 2 {
        '2'
    } else if d == 3 {
        '3'
    } else if d == 4 {
        '4'
    } else if d == 5 {
        '5'
    } else if d == 6 {
        '6'
    } else if d == 7 {
        '7'
    } else if d == 8 {
        '8'
    } else {
        '9'
    }
}

/// Whether `c` is one of the ten ASCII digits.
pub open spec fn is_digit(c: char) -> bool {
    c == '0' || c == '1' || c == '2' || c == '3' || c == '4' || c == '5' || c == '6' || c == '7'
        || c == '8' || c == '9'
}

/// The value of the digit `c`; 0 for any other character.
pub open spec fn digit_value(c: char) -> int {
    if c == '1' {
        1
    } else if c == '2' {
        2
    } else if c == '3' {
        3
    } else if c == '4' {
        4
    } else if c == '5' {
        5
    } else if c == '6' {
        6
    } else if c == '7' {
        7
    } else if c == '8' {
        8
    } else if c == '9' {
        9
    } else {
        0
    }
}

/// The decimal digits of a natural number, most significant first, without
/// leading zeros.
pub open spec fn decimal_nat(n: nat) -> Seq<char>
    decreases n,
{
    if n < 10 {
        seq![digit_char(n as int)]
    } else {
        decimal_nat(n / 10).push(digit_char((n % 10) as int))
    }
}

/// The decimal text of an integer: a minus sign for a negative one, then the
/// digits of its magnitude.
pub open spec fn decimal_int(n: int) -> Seq<char> {
    if n < 0 {
        seq!['-'] + decimal_nat((-n) as nat)
    } else {
        decimal_nat(n as nat)
    }
}

/// The number that a run of digits denotes; 0 for the empty run.
pub open spec fn digits_value(s: Seq<char>) -> nat
    decreases s.len(),
{
    if s.len() == 0 {
        0
    } else {
        (digits_value(s.drop_last()) * 10 + digit_value(s.last())) as nat
    }
}

/// The index at which the run of digits that starts at `i` ends.
pub open spec fn digit_run_end(s: Seq<char>, i: int) -> int
    decreases s.len() - i,
{
    if 0 <= i < s.len() && is_digit(s[i]) {
        digit_run_end(s, i + 1)
    } else {
        i
    }
}

/// Where the digits begin: behind a leading sign, if there is one.
pub open spec fn digits_start(s: Seq<char>) -> int {
    if s.len() > 0 && (s[0] == '-' || s[0] == '+') {
        1
    } else {
        0
    }
}

/// Reading `s` as a 32-bit decimal integer: an optional sign, then at least
/// one digit and nothing else. The text is read from the left, and the first
/// fault met decides the error.
pub open spec fn parse_i32_spec(s: Seq<char>) -> Result<i32, DecodeError> {
    let start = digits_start(s);
    let negative = s.len() > 0 && s[0] == '-';
    let end = digit_run_end(s, start);
    let magnitude = digits_value(s.subrange(start, end));
    if s.len() == 0 {
        Err(DecodeError::Empty)
    } else if s.len() == start {
        Err(DecodeError::InvalidDigit)
    } else if !negative && magnitude > 0x7fff_ffff {
        Err(DecodeError::PosOverflow)
    } else if negative && magnitude > 0x8000_0000 {
        Err(DecodeError::NegOverflow)
    } else if end < s.len() {
        Err(DecodeError::InvalidDigit)
    } else if negative {
        Ok((-magnitude) as i32)
    } else {
        Ok(magnitude as i32)
    }
}

/// A run of digits ends at or behind the place where it starts, and within the text.
pub proof fn lemma_digit_run_bounds(s: Seq<char>, i: int)
    requires
        0 <= i <= s.len(),
    ensures
        i <= digit_run_end(s, i) <= s.len(),
        forall|k: int| i <= k < digit_run_end(s, i) ==> is_digit(#[trigger] s[k]),
        digit_run_end(s, i) < s.len() ==> !is_digit(s[digit_run_end(s, i)]),
    decreases s.len() - i,
{
    if i < s.len() && is_digit(s[i]) {
        lemma_digit_run_bounds(s, i + 1);
    }
}

/// A longer stretch of a text, taken from the same start, denotes no smaller a number.
pub proof fn lemma_digits_value_grows(s: Seq<char>, start: int, mid: int, end: int)
    requires
        0 <= start <= mid <= end <= s.len(),
    ensures
        digits_value(s.subrange(start, mid)) <= digits_value(s.subrange(start, end)),
    decreases end - mid,
{
    if mid < end {
        lemma_digits_value_grows(s, start, mid, end - 1);
        assert(s.subrange(start, end).drop_last() =~= s.subrange(start, end - 1));
    }
}

/// The digit that `c` stands for, if it is a digit.
fn digit_of(c: char) -> (r: Option<u8>)
    ensures
        r.is_some() == is_digit(c),
        r.is_some() ==> r.unwrap() as int == digit_value(c),
{
    match c {
        '0' => Some(0),
        '1' => Some(1),
        '2' => Some(2),
        '3' => Some(3),
        '4' => Some(4),
        '5' => Some(5),
        '6' => Some(6),
        '7' => Some(7),
        '8' => Some(8),
        '9' => Some(9),
        _ => None,
    }
}

/// Reads `text` as a 32-bit decimal integer.
pub fn parse_i32(text: &str) -> (r: Result<i32, DecodeError>)
    ensures
        r == parse_i32_spec(text@),
{
    let n: usize = text.unicode_len();
    if n == 0 {
        return Err(DecodeError::Empty);
    }
    let first: char = text.get_char(0);
    let negative: bool = first == '-';
    let start: usize = if first == '-' || first == '+' {
        1
    } else {
        0
    };
    if n == start {
        return Err(DecodeError::InvalidDigit);
    }
    let mut magnitude: u64 = 0;
    let mut i: usize = start;
    while i < n
        invariant
            n == text@.len(),
            start == digits_start(text@),
            negative == (text@[0] == '-'),
            start <= i <= n,
            digit_run_end(text@, i as int) == digit_run_end(text@, start as int),
            magnitude == digits_value(text@.subrange(start as int, i as int)),
            !negative ==> magnitude <= 0x7fff_ffff,
            negative ==> magnitude <= 0x8000_0000,
        decreases n - i,
    {
        let c: char = text.get_char(i);
        match digit_of(c) {
            None => {
                proof {
                    assert(digit_run_end(text@, i as int) == i);
                }
                return Err(DecodeError::InvalidDigit);
            },
            Some(d) => {
                let next: u64 = magnitude * 10 + d as u64;
                proof {
                    let ghost_end = digit_run_end(text@, start as int);
                    assert(text@.subrange(start as int, i + 1).drop_last() =~= text@.subrange(
                        start as int,
                        i as int,
                    ));
                    assert(next == digits_value(text@.subrange(start as int, i + 1)));
                    lemma_digit_run_bounds(text@, i + 1);
                    lemma_digits_value_grows(text@, start as int, i + 1, ghost_end);
                }
                if !negative && next > 0x7fff_ffff {
                    return Err(DecodeError::PosOverflow);
                }
                if negative && next > 0x8000_0000 {
                    return Err(DecodeError::NegOverflow);
                }
                magnitude = next;
                i = i + 1;
            },
        }
    }
    proof {
        assert(digit_run_end(text@, n as int) == n);
    }
    if negative {
        Ok((0 - magnitude as i64) as i32)
    } else {
        Ok(magnitude as i32)
    }
}

/// The text of one digit.
fn digit_str(d: u64) -> (r: &'static str)
    requires
        d < 10,
    ensures
        r@ == seq![digit_char(d as int)],
{
    proof {
        reveal_strlit("0");
        reveal_strlit("1");
        reveal_strlit("2");
        reveal_strlit("3");
        reveal_strlit("4");
        reveal_strlit("5");
        reveal_strlit("6");
        reveal_strlit("7");
        reveal_strlit("8");
        reveal_strlit("9");
    }
    let r: &'static str = if d == 0 {
        "0"
    } else if d == 1 {
        "1"
    } else if d == 2 {
        "2"
    } else if d == 3 {
        "3"
    } else if d == 4 {
        "4"
    } else if d == 5 {
        "5"
    } else if d == 6 {
        "6"
    } else if d == 7 {
        "7"
    } else if d == 8 {
        "8"
    } else {
        "9"
    };
    assert(r@ =~= seq![digit_char(d as int)]);
    r
}

/// Appends the decimal digits of `n` to `out`.
pub fn append_decimal_nat(out: &mut String, n: u64)
    ensures
        final(out)@ == old(out)@ + decimal_nat(n as nat),
    decreases n,
{
    if n >= 10 {
        append_decimal_nat(out, n / 10);
    }
    out.append(digit_str(n % 10));
    proof {
        assert(out@ =~= old(out)@ + decimal_nat(n as nat));
    }
}

/// Appends the decimal text of `n` to `out`.
pub fn append_decimal(out: &mut String, n: i64)
    ensures
        final(out)@ == old(out)@ + decimal_int(n as int),
{
    if n < 0 {
        proof {
            reveal_strlit("-");
        }
        out.append("-");
        let magnitude: u64 = ((-(n + 1)) as u64) + 1;
        append_decimal_nat(out, magnitude);
        proof {
            assert("-"@ =~= seq!['-']);
            assert(out@ =~= old(out)@ + decimal_int(n as int));
        }
    } else {
        append_decimal_nat(out, n as u64);
    }
}

/// What is written for a natural number is a non-empty run of digits that
/// denotes that number.
pub proof fn lemma_decimal_nat_digits(n: nat)
    ensures
        decimal_nat(n).len() > 0,
        forall|k: int| 0 <= k < decimal_nat(n).len() ==> is_digit(#[trigger] decimal_nat(n)[k]),
        digits_value(decimal_nat(n)) == n,
    decreases n,
{
    let s = decimal_nat(n);
    if n < 10 {
        reveal_with_fuel(digits_value, 2);
        assert(s.drop_last() =~= Seq::<char>::empty());
    } else {
        lemma_decimal_nat_digits(n / 10);
        assert(s.drop_last() =~= decimal_nat(n / 10));
        assert(digit_value(digit_char((n % 10) as int)) == n % 10);
    }
}

/// Where every character from `i` on is a digit, the run that starts at `i`
/// ends with the text.
pub proof fn lemma_digit_run_covers(s: Seq<char>, i: int)
    requires
        0 <= i <= s.len(),
        forall|k: int| i <= k < s.len() ==> is_digit(#[trigger] s[k]),
    ensures
        digit_run_end(s, i) == s.len(),
    decreases s.len() - i,
{
    if i < s.len() {
        lemma_digit_run_covers(s, i + 1);
    }
}

/// Reading the decimal text of a 32-bit integer gives that integer back.
pub proof fn lemma_parse_inverts_decimal(n: i32)
    ensures
        parse_i32_spec(decimal_int(n as int)) == Ok::<i32, DecodeError>(n),
{
    let s = decimal_int(n as int);
    if n < 0 {
        let d = decimal_nat((-n) as nat);
        lemma_decimal_nat_digits((-n) as nat);
        assert(s[0] == '-');
        assert(s.len() == d.len() + 1);
        assert forall|k: int| 1 <= k < s.len() implies is_digit(#[trigger] s[k]) by {
            assert(s[k] == d[k - 1]);
        }
        lemma_digit_run_covers(s, 1);
        assert(s.subrange(1, s.len() as int) =~= d);
    } else {
        lemma_decimal_nat_digits(n as nat);
        assert(is_digit(s[0]));
        lemma_digit_run_covers(s, 0);
        assert(s.subrange(0, s.len() as int) =~= s);
    }
}

/// The decimal digits of `n` as a text of their own.
pub fn decimal_string(n: u64) -> (r: String)
    ensures
        r@ == decimal_nat(n as nat),
{
    let mut out = String::new();
    append_decimal_nat(&mut out, n);
    proof {
        assert(out@ =~= decimal_nat(n as nat));
    }
    out
}

/// Different numbers are written differently.
pub proof fn lemma_decimal_nat_distinct(a: nat, b: nat)
    requires
        a != b,
    ensures
        decimal_nat(a) != decimal_nat(b),
{
    lemma_decimal_nat_digits(a);
    lemma_decimal_nat_digits(b);
}

} // verus!
