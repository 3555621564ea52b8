use vstd::prelude::*;
use vstd::string::StrSliceExecFns;

verus! {

/// The library's error: a human readable message.
#[derive(Debug, Clone, PartialEq)]
pub enum Error {
    General(String),
}

/// Results of the library's operations.
pub type Result<T> = std::result::Result<T, Error>;

/// `r` is an error whose message is `msg`.
pub open spec fn fails_with<T>(r: Result<T>, msg: Seq<char>) -> bool {
    match r {
        Err(e) => e.text() == msg,
        Ok(_) => false,
    }
}

impl Error {
    /// The message carried by the error.
    pub open spec fn text(self) -> Seq<char> {
        match self {
            Error::General(s) => s@,
        }
    }

    /// The error as it is shown to a user: `Error::General: ` and the message.
    pub fn to_string(&self) -> (r: String)
        ensures
            r@ == "Error::General: "@ + self.text(),
    {
        match self {
            Error::General(s) => {
                let mut r = String::from_str("Error::General: ");
                r.append(s.as_str());
                r
            },
        }
    }

    /// An error with the same message.
    pub fn duplicate(&self) -> (r: Error)
        ensures
            r == *self,
    {
        match self {
            Error::General(s) => Error::General(s.clone()),
        }
    }
}

/// A result with the same topic or the same error.
pub fn copy_result(r: &Result<String>) -> (c: Result<String>)
    ensures
        c == *r,
{
    match r {
        Ok(s) => Ok(s.clone()),
        Err(e) => Err(e.duplicate()),
    }
}

/// The character of a decimal digit.
pub open spec fn digit_char(d: nat) -> char {
    if d == 0 { '0' } else if d == 1 { '1' } else if d == 2 { '2' } else if d == 3 { '3' }
    else if d == 4 { '4' } else if d == 5 { '5' } else if d == 6 { '6' } else if d == 7 { '7' }
    else if d == 8 { '8' } else { '9' }
}

/// The decimal notation of a natural number, most significant digit first,
/// with no leading zeros (`0` is written `0`).
pub open spec fn decimal_nat(n: nat) -> Seq<char>
    decreases n,
{
    if n < 10 {
        seq![digit_char(n)]
    } else {
        decimal_nat(n / 10) + seq![digit_char(n % 10)]
    }
}

/// The decimal notation of an integer, as `{}` prints it: a leading `-` for
/// negative numbers, then the digits of its magnitude.
pub open spec fn decimal(n: int) -> Seq<char> {
    if n < 0 {
        seq!['-'] + decimal_nat((-n) as nat)
    } else {
        decimal_nat(n as nat)
    }
}

fn digit_str(d: u64) -> (r: &'static str)
    requires
        d < 10,
    ensures
        r@ == seq![digit_char(d as nat)],
{
    match d {
        0 => { proof { reveal_strlit("0"); } "0" },
        1 => { proof { reveal_strlit("1"); } "1" },
        2 => { proof { reveal_strlit("2"); } "2" },
        3 => { proof { reveal_strlit("3"); } "3" },
        4 => { proof { reveal_strlit("4"); } "4" },
        5 => { proof { reveal_strlit("5"); } "5" },
        6 => { proof { reveal_strlit("6"); } "6" },
        7 => { proof { reveal_strlit("7"); } "7" },
        8 => { proof { reveal_strlit("8"); } "8" },
        9 => { proof { reveal_strlit("9"); } "9" },
        _ => { proof { reveal_strlit("9"); } "9" },
    }
}

fn append_decimal_nat(out: &mut String, n: u64)
    ensures
        final(out)@ == old(out)@ + decimal_nat(n as nat),
    decreases n,
{
    if n < 10 {
        out.append(digit_str(n));
    } else {
        append_decimal_nat(out, n / 10);
        out.append(digit_str(n % 10));
        proof {
            assert(old(out)@ + decimal_nat(n as nat) =~= old(out)@ + decimal_nat((n / 10) as nat)
                + seq![digit_char((n % 10) as nat)]);
        }
    }
}

/// Appends the decimal notation of a count to `out`.
pub fn append_count(out: &mut String, n: usize)
    ensures
        final(out)@ == old(out)@ + decimal(n as int),
{
    append_decimal_nat(out, n as u64);
}

/// Appends the decimal notation of `n` to `out`.
pub fn append_decimal(out: &mut String, n: i64)
    ensures
        final(out)@ == old(out)@ + decimal(n as int),
{
    if n < 0 {
        proof { reveal_strlit("-"); }
        out.append("-");
        let magnitude: u64 = if n == i64::MIN {
            9223372036854775808u64
        } else {
            (-n) as u64
        };
        append_decimal_nat(out, magnitude);
        proof {
            assert(old(out)@ + decimal(n as int) =~= old(out)@ + "-"@ + decimal_nat(magnitude as nat));
        }
    } else {
        append_decimal_nat(out, n as u64);
    }
}

/// Why text is not an `i32` in decimal notation.
pub enum IntParseFailure {
    Empty,
    InvalidDigit,
    PosOverflow,
    NegOverflow,
}

/// The message of each failure, as `i32::from_str` words it.
pub open spec fn int_parse_failure_text(f: IntParseFailure) -> Seq<char> {
    match f {
        IntParseFailure::Empty => "cannot parse integer from empty string"@,
        IntParseFailure::InvalidDigit => "invalid digit found in string"@,
        IntParseFailure::PosOverflow => "number too large to fit in target type"@,
        IntParseFailure::NegOverflow => "number too small to fit in target type"@,
    }
}

pub open spec fn is_decimal_digit(c: char) -> bool {
    '0' <= c && c <= '9'
}

/// Reads the digits of `d` from place `i` on, left to right, onto `acc`
/// (subtracting them for a negative number), stopping at the first character
/// that is no digit or the first step that leaves the range of `i32`.
pub open spec fn scan_decimal(d: Seq<char>, i: int, acc: int, negative: bool) -> std::result::Result<
    int,
    IntParseFailure,
>
    decreases d.len() - i,
{
    if i < 0 || i >= d.len() {
        Ok(acc)
    } else if !is_decimal_digit(d[i]) {
        Err(IntParseFailure::InvalidDigit)
    } else {
        let digit = d[i] as int - '0' as int;
        let next = if negative {
            acc * 10 - digit
        } else {
            acc * 10 + digit
        };
        if next > i32::MAX {
            Err(IntParseFailure::PosOverflow)
        } else if next < i32::MIN {
            Err(IntParseFailure::NegOverflow)
        } else {
            scan_decimal(d, i + 1, next, negative)
        }
    }
}

/// What `s.parse::<i32>()` gives: an optional sign, then decimal digits.
pub open spec fn parse_i32_spec(s: Seq<char>) -> std::result::Result<int, IntParseFailure> {
    if s.len() == 0 {
        Err(IntParseFailure::Empty)
    } else if (s[0] == '+' || s[0] == '-') && s.len() == 1 {
        Err(IntParseFailure::InvalidDigit)
    } else if s[0] == '+' {
        scan_decimal(s, 1, 0, false)
    } else if s[0] == '-' {
        scan_decimal(s, 1, 0, true)
    } else {
        scan_decimal(s, 0, 0, false)
    }
}

/// Reads an `i32` written in decimal, with an optional `+` or `-` sign, and
/// fails with the message of `i32::from_str` when the text is none.
pub fn parse_i32(s: &str) -> (r: Result<i32>)
    ensures
        match parse_i32_spec(s@) {
            Ok(v) => r == Ok::<i32, Error>(v as i32),
            Err(f) => fails_with(r, int_parse_failure_text(f)),
        },
{
    proof {
        reveal_strlit("cannot parse integer from empty string");
        reveal_strlit("invalid digit found in string");
        reveal_strlit("number too large to fit in target type");
        reveal_strlit("number too small to fit in target type");
    }
    let n = s.unicode_len();
    if n == 0 {
        return Err(Error::General(String::from_str("cannot parse integer from empty string")));
    }
    let first = s.get_char(0);
    if (first == '+' || first == '-') && n == 1 {
        return Err(Error::General(String::from_str("invalid digit found in string")));
    }
    let negative = first == '-';
    let mut i: usize = if first == '+' || first == '-' {
        1
    } else {
        0
    };
    let ghost start = i as int;
    let mut acc: i32 = 0;
    while i < n
        invariant
            n == s@.len(),
            start <= i <= n,
            negative == (s@[0] == '-'),
            parse_i32_spec(s@) == scan_decimal(s@, i as int, acc as int, negative),
        decreases n - i,
    {
        let c = s.get_char(i);
        if !('0' <= c && c <= '9') {
            return Err(Error::General(String::from_str("invalid digit found in string")));
        }
        let digit: i32 = (c as u32 - '0' as u32) as i32;
        let next: i64 = if negative {
            (acc as i64) * 10 - (digit as i64)
        } else {
            (acc as i64) * 10 + (digit as i64)
        };
        if next > i32::MAX as i64 {
            return Err(Error::General(String::from_str("number too large to fit in target type")));
        }
        if next < i32::MIN as i64 {
            return Err(Error::General(String::from_str("number too small to fit in target type")));
        }
        acc = next as i32;
        i = i + 1;
    }
    Ok(acc)
}

/// Reading stops or goes on the same way whatever precedes the place it
/// reads from.
proof fn lemma_scan_shift(a: Seq<char>, b: Seq<char>, j: int, acc: int, negative: bool)
    requires
        0 <= j <= b.len(),
    ensures
        scan_decimal(a + b, a.len() + j, acc, negative) == scan_decimal(b, j, acc, negative),
    decreases b.len() - j,
{
    if j < b.len() {
        assert((a + b)[a.len() + j] == b[j]);
        let digit = b[j] as int - '0' as int;
        let next = if negative { acc * 10 - digit } else { acc * 10 + digit };
        lemma_scan_shift(a, b, j + 1, next, negative);
    }
}

/// Reading `a + b` is reading `a`, then going on with `b`.
proof fn lemma_scan_concat(a: Seq<char>, b: Seq<char>, i: int, acc: int, negative: bool)
    requires
        0 <= i <= a.len(),
    ensures
        scan_decimal(a + b, i, acc, negative) == match scan_decimal(a, i, acc, negative) {
            Ok(v) => scan_decimal(b, 0, v, negative),
            Err(f) => Err(f),
        },
    decreases a.len() - i,
{
    if i == a.len() {
        lemma_scan_shift(a, b, 0, acc, negative);
    } else {
        assert((a + b)[i] == a[i]);
        let digit = a[i] as int - '0' as int;
        let next = if negative { acc * 10 - digit } else { acc * 10 + digit };
        lemma_scan_concat(a, b, i + 1, next, negative);
    }
}

proof fn lemma_digit_char(d: nat)
    requires
        d < 10,
    ensures
        is_decimal_digit(digit_char(d)),
        digit_char(d) as int - '0' as int == d,
{
}

/// The decimal notation of `m` starts with a digit.
proof fn lemma_decimal_nat_starts_with_digit(m: nat)
    ensures
        decimal_nat(m).len() >= 1,
        is_decimal_digit(decimal_nat(m)[0]),
    decreases m,
{
    if m < 10 {
        lemma_digit_char(m);
    } else {
        lemma_decimal_nat_starts_with_digit(m / 10);
        assert(decimal_nat(m)[0] == decimal_nat(m / 10)[0]);
    }
}

/// Reading the decimal notation of `m` gives `m` back (or `-m`), while it fits.
proof fn lemma_scan_decimal_nat(m: nat, negative: bool)
    requires
        negative ==> m <= 0x8000_0000,
        !negative ==> m <= 0x7fff_ffff,
    ensures
        scan_decimal(decimal_nat(m), 0, 0, negative) == Ok::<int, IntParseFailure>(
            if negative { -m } else { m as int },
        ),
    decreases m,
{
    if m < 10 {
        lemma_digit_char(m);
        assert(scan_decimal(decimal_nat(m), 1, if negative { -m } else { m as int }, negative)
            == Ok::<int, IntParseFailure>(if negative { -m } else { m as int }));
    } else {
        let q = m / 10;
        let r = m % 10;
        assert(q * 10 + r == m) by (nonlinear_arith)
            requires
                q == m / 10,
                r == m % 10,
        ;
        lemma_scan_decimal_nat(q, negative);
        lemma_digit_char(r);
        let last = seq![digit_char(r)];
        lemma_scan_concat(decimal_nat(q), last, 0, 0, negative);
        assert(scan_decimal(last, 1, if negative { -m } else { m as int }, negative)
            == Ok::<int, IntParseFailure>(if negative { -m } else { m as int }));
    }
}

/// What is written in decimal reads back as the same number: the text of
/// every `i32` parses to it.
pub proof fn law_parse_reads_decimal(n: i32)
    ensures
        parse_i32_spec(decimal(n as int)) == Ok::<int, IntParseFailure>(n as int),
{
    if n < 0 {
        let m = (-(n as int)) as nat;
        let d = decimal_nat(m);
        lemma_decimal_nat_starts_with_digit(m);
        lemma_scan_decimal_nat(m, true);
        lemma_scan_shift(seq!['-'], d, 0, 0, true);
        assert(decimal(n as int) == seq!['-'] + d);
        assert((seq!['-'] + d)[0] == '-');
    } else {
        let m = n as nat;
        lemma_decimal_nat_starts_with_digit(m);
        lemma_scan_decimal_nat(m, false);
    }
}

} // verus!
