//! Decimal integers: rendering as `{}` / `{:0N}` do, and parsing as
//! `str::parse` does for the integer types, error kinds included.
use vstd::prelude::*;
use crate::text::{chars_of, is_ascii_digit, owned, string_of};

verus! {

/// Why an integer did not parse (`core::num::IntErrorKind`).
#[derive(PartialEq, Eq, Structural, Clone, Copy, Debug)]
pub enum IntError {
    Empty,
    InvalidDigit,
    PosOverflow,
    NegOverflow,
}

pub open spec fn digit_char(d: nat) -> char
    recommends
        d < 10,
{
    ((d + 48) as u32) as char
}

pub open spec fn digit_value(c: char) -> nat {
    ((c as u32) - 48) as nat
}

/// The decimal digits of `n`, without leading zeros.
pub open spec fn decimal(n: nat) -> Seq<char>
    decreases n,
{
    if n < 10 {
        seq![digit_char(n)]
    } else {
        decimal(n / 10).push(digit_char(n % 10))
    }
}

/// `n` in decimal, left-padded with zeros to at least `width` digits (`{:0width$}`).
pub open spec fn padded(n: nat, width: nat) -> Seq<char> {
    let d = decimal(n);
    if d.len() < width {
        Seq::new((width - d.len()) as nat, |i: int| '0') + d
    } else {
        d
    }
}

/// A signed integer as `{}` renders it.
pub open spec fn signed_decimal(n: int) -> Seq<char> {
    if n < 0 {
        seq!['-'] + decimal((-n) as nat)
    } else {
        decimal(n as nat)
    }
}

/// Reading the digits of `s` from left to right, with values above `max`
/// refused as soon as a prefix exceeds it: the loop of `from_str_radix`.
pub open spec fn read_digits(s: Seq<char>, max: nat) -> Result<nat, IntError>
    decreases s.len(),
{
    if s.len() == 0 {
        Ok(0)
    } else {
        match read_digits(s.drop_last(), max) {
            Err(e) => Err(e),
            Ok(v) => if !is_ascii_digit(s.last()) {
                Err(IntError::InvalidDigit)
            } else if v * 10 + digit_value(s.last()) > max {
                Err(IntError::PosOverflow)
            } else {
                Ok(v * 10 + digit_value(s.last()))
            },
        }
    }
}

/// `str::parse` for an unsigned type whose largest value is `max`.
pub open spec fn parse_unsigned_spec(s: Seq<char>, max: nat) -> Result<nat, IntError> {
    if s.len() == 0 {
        Err(IntError::Empty)
    } else if s.len() == 1 && (s[0] == '+' || s[0] == '-') {
        Err(IntError::InvalidDigit)
    } else if s[0] == '+' {
        read_digits(s.drop_first(), max)
    } else {
        read_digits(s, max)
    }
}

/// `str::parse::<i64>`.
pub open spec fn parse_i64_spec(s: Seq<char>) -> Result<int, IntError> {
    if s.len() == 0 {
        Err(IntError::Empty)
    } else if s.len() == 1 && (s[0] == '+' || s[0] == '-') {
        Err(IntError::InvalidDigit)
    } else if s[0] == '-' {
        match read_digits(s.drop_first(), 0x8000_0000_0000_0000) {
            Ok(v) => Ok(-v),
            Err(IntError::PosOverflow) => Err(IntError::NegOverflow),
            Err(e) => Err(e),
        }
    } else if s[0] == '+' {
        match read_digits(s.drop_first(), 0x7fff_ffff_ffff_ffff) {
            Ok(v) => Ok(v as int),
            Err(e) => Err(e),
        }
    } else {
        match read_digits(s, 0x7fff_ffff_ffff_ffff) {
            Ok(v) => Ok(v as int),
            Err(e) => Err(e),
        }
    }
}

/// The text of `ParseIntError`'s `Display`.
pub open spec fn int_error_text(e: IntError) -> Seq<char> {
    match e {
        IntError::Empty => "cannot parse integer from empty string"@,
        IntError::InvalidDigit => "invalid digit found in string"@,
        IntError::PosOverflow => "number too large to fit in target type"@,
        IntError::NegOverflow => "number too small to fit in target type"@,
    }
}

/// Reads the digits of `s[from..]`; `max` is the largest admitted value.
fn read_digits_exec(s: &[char], from: usize, max: u64) -> (r: Result<u64, IntError>)
    requires
        from <= s@.len(),
    ensures
        r matches Ok(v) ==> read_digits(s@.skip(from as int), max as nat) == Ok::<nat, IntError>(
            v as nat,
        ),
        r matches Err(e) ==> read_digits(s@.skip(from as int), max as nat) == Err::<nat, IntError>(
            e,
        ),
{
    let mut v: u64 = 0;
    let mut i = from;
    assert(s@.skip(from as int).take(0) == Seq::<char>::empty());
    while i < s.len()
        invariant
            from <= i <= s@.len(),
            v <= max,
            read_digits(s@.skip(from as int).take(i - from), max as nat) == Ok::<nat, IntError>(
                v as nat,
            ),
        decreases s.len() - i,
    {
        let ghost pre = s@.skip(from as int).take(i - from);
        let ghost next = s@.skip(from as int).take(i + 1 - from);
        assert(next.drop_last() == pre);
        assert(next.last() == s@[i as int]);
        let c = s[i];
        if !('0' <= c && c <= '9') {
            proof {
                let ghost rest = s@.skip(from as int);
                lemma_prefix_error_persists(rest, (i + 1 - from) as nat, max as nat);
            }
            return Err(IntError::InvalidDigit);
        }
        let d = (c as u32 - 48) as u64;
        if d > max || v > (max - d) / 10 {
            assert(v * 10 + d > max) by (nonlinear_arith)
                requires
                    d > max || v > (max - d) / 10,
                    d <= 9,
            ;
            proof {
                let ghost rest = s@.skip(from as int);
                lemma_prefix_error_persists(rest, (i + 1 - from) as nat, max as nat);
            }
            return Err(IntError::PosOverflow);
        }
        assert(v * 10 + d <= max) by (nonlinear_arith)
            requires
                v <= (max - d) / 10,
                d <= 9,
        ;
        v = v * 10 + d;
        i = i + 1;
    }
    assert(s@.skip(from as int).take(i - from) == s@.skip(from as int));
    Ok(v)
}

/// Once a prefix of `s` has failed, `s` fails the same way.
proof fn lemma_prefix_error_persists(s: Seq<char>, n: nat, max: nat)
    requires
        n <= s.len(),
        read_digits(s.take(n as int), max) is Err,
    ensures
        read_digits(s, max) == read_digits(s.take(n as int), max),
    decreases s.len() - n,
{
    if n < s.len() {
        let t = s.take(n + 1 as int);
        assert(t.drop_last() == s.take(n as int));
        lemma_prefix_error_persists(s, n + 1, max);
    } else {
        assert(s.take(n as int) == s);
    }
}

/// `str::parse` for an unsigned type whose largest value is `max`.
pub fn parse_unsigned(s: &str, max: u64) -> (r: Result<u64, IntError>)
    ensures
        r matches Ok(v) ==> parse_unsigned_spec(s@, max as nat) == Ok::<nat, IntError>(v as nat),
        r matches Err(e) ==> parse_unsigned_spec(s@, max as nat) == Err::<nat, IntError>(e),
{
    let c = chars_of(s);
    if c.len() == 0 {
        return Err(IntError::Empty);
    }
    if c.len() == 1 && (c[0] == '+' || c[0] == '-') {
        return Err(IntError::InvalidDigit);
    }
    if c[0] == '+' {
        read_digits_exec(c.as_slice(), 1, max)
    } else {
        assert(c@.skip(0) == c@);
        read_digits_exec(c.as_slice(), 0, max)
    }
}

/// `str::parse::<i64>`.
pub fn parse_i64(s: &str) -> (r: Result<i64, IntError>)
    ensures
        r matches Ok(v) ==> parse_i64_spec(s@) == Ok::<int, IntError>(v as int),
        r matches Err(e) ==> parse_i64_spec(s@) == Err::<int, IntError>(e),
{
    let c = chars_of(s);
    if c.len() == 0 {
        return Err(IntError::Empty);
    }
    if c.len() == 1 && (c[0] == '+' || c[0] == '-') {
        return Err(IntError::InvalidDigit);
    }
    if c[0] == '-' {
        match read_digits_exec(c.as_slice(), 1, 0x8000_0000_0000_0000) {
            Ok(v) => {
                if v == 0x8000_0000_0000_0000 {
                    Ok(i64::MIN)
                } else {
                    Ok(-(v as i64))
                }
            },
            Err(IntError::PosOverflow) => Err(IntError::NegOverflow),
            Err(e) => Err(e),
        }
    } else {
        let from: usize = if c[0] == '+' {
            1
        } else {
            0
        };
        assert(c@.skip(0) == c@);
        match read_digits_exec(c.as_slice(), from, 0x7fff_ffff_ffff_ffff) {
            Ok(v) => Ok(v as i64),
            Err(e) => Err(e),
        }
    }
}

/// The message that `ParseIntError::to_string` gives.
pub fn int_error_message(e: IntError) -> (r: String)
    ensures
        r@ == int_error_text(e),
{
    proof {
        reveal_strlit("cannot parse integer from empty string");
        reveal_strlit("invalid digit found in string");
        reveal_strlit("number too large to fit in target type");
        reveal_strlit("number too small to fit in target type");
    }
    match e {
        IntError::Empty => owned("cannot parse integer from empty string"),
        IntError::InvalidDigit => owned("invalid digit found in string"),
        IntError::PosOverflow => owned("number too large to fit in target type"),
        IntError::NegOverflow => owned("number too small to fit in target type"),
    }
}

/// The decimal digits of `n`.
pub fn decimal_chars(n: u64) -> (r: Vec<char>)
    ensures
        r@ == decimal(n as nat),
    decreases n,
{
    if n < 10 {
        let c = ((n as u8) + 48) as char;
        let mut r: Vec<char> = Vec::new();
        r.push(c);
        assert(r@ == seq![c]);
        return r;
    }
    let mut r = decimal_chars(n / 10);
    let c = (((n % 10) as u8) + 48) as char;
    r.push(c);
    r
}

/// `n` zero-padded to at least `width` digits.
pub fn padded_chars(n: u64, width: usize) -> (r: Vec<char>)
    ensures
        r@ == padded(n as nat, width as nat),
{
    let d = decimal_chars(n);
    if d.len() < width {
        let mut r: Vec<char> = Vec::new();
        let fill = width - d.len();
        for i in 0..fill
            invariant
                r@ == Seq::new(i as nat, |j: int| '0'),
        {
            r.push('0');
            assert(r@ == Seq::new((i + 1) as nat, |j: int| '0'));
        }
        for i in 0..d.len()
            invariant
                r@ == Seq::new(fill as nat, |j: int| '0') + d@.take(i as int),
        {
            r.push(d[i]);
            assert(d@.take(i + 1) == d@.take(i as int).push(d@[i as int]));
        }
        assert(d@.take(d@.len() as int) == d@);
        r
    } else {
        d
    }
}

/// `n` as `{}` renders a signed integer.
pub fn signed_chars(n: i64) -> (r: Vec<char>)
    ensures
        r@ == signed_decimal(n as int),
{
    if n < 0 {
        let m: u64 = if n == i64::MIN {
            0x8000_0000_0000_0000
        } else {
            (-n) as u64
        };
        let d = decimal_chars(m);
        let mut r: Vec<char> = Vec::new();
        r.push('-');
        for i in 0..d.len()
            invariant
                r@ == seq!['-'] + d@.take(i as int),
        {
            r.push(d[i]);
            assert(d@.take(i + 1) == d@.take(i as int).push(d@[i as int]));
        }
        assert(d@.take(d@.len() as int) == d@);
        r
    } else {
        decimal_chars(n as u64)
    }
}

/// `{}` of an unsigned integer, as a `String`.
pub fn u64_text(n: u64) -> (r: String)
    ensures
        r@ == decimal(n as nat),
{
    let d = decimal_chars(n);
    string_of(d.as_slice())
}

/// `{}` of a signed integer, as a `String`.
pub fn i64_text(n: i64) -> (r: String)
    ensures
        r@ == signed_decimal(n as int),
{
    let d = signed_chars(n);
    string_of(d.as_slice())
}

/// A run of decimal digits.
pub open spec fn all_digits(s: Seq<char>) -> bool {
    forall|i: int| 0 <= i < s.len() ==> is_ascii_digit(#[trigger] s[i])
}

/// The value of a run of decimal digits.
pub open spec fn digits_value(s: Seq<char>) -> nat
    decreases s.len(),
{
    if s.len() == 0 {
        0
    } else {
        digits_value(s.drop_last()) * 10 + digit_value(s.last())
    }
}

/// The digits of a number read back give the number.
pub proof fn lemma_decimal_value(n: nat)
    ensures
        all_digits(decimal(n)),
        digits_value(decimal(n)) == n,
        decimal(n).len() >= 1,
        n < 10 ==> decimal(n).len() == 1,
        n < 100 ==> decimal(n).len() <= 2,
        n < 1000 ==> decimal(n).len() <= 3,
        n < 10000 ==> decimal(n).len() <= 4,
        n < 100000 ==> decimal(n).len() <= 5,
        n >= 10000 ==> decimal(n).len() >= 5,
        n >= 10 ==> decimal(n).len() >= 2,
        n >= 100 ==> decimal(n).len() >= 3,
        n >= 1000 ==> decimal(n).len() >= 4,
    decreases n,
{
    let k = n % 10;
    assert(digit_value(digit_char(k)) == k);
    assert(is_ascii_digit(digit_char(k)));
    if n < 10 {
        assert(decimal(n).drop_last() =~= Seq::<char>::empty());
        assert(decimal(n).last() == digit_char(n));
        assert(digits_value(decimal(n)) == digits_value(Seq::<char>::empty()) * 10 + digit_value(digit_char(n)));
    } else {
        lemma_decimal_value(n / 10);
        let d = decimal(n / 10);
        assert(decimal(n).drop_last() == d);
        assert(decimal(n).last() == digit_char(k));
        assert((n / 10) * 10 + k == n);
        assert(digits_value(decimal(n)) == digits_value(d) * 10 + digit_value(digit_char(k)));
        assert forall|i: int| 0 <= i < decimal(n).len() implies is_ascii_digit(#[trigger] decimal(n)[i]) by {
            if i < d.len() {
                assert(decimal(n)[i] == d[i]);
            }
        }
    }
}

proof fn lemma_zeros_value(k: nat, d: Seq<char>)
    ensures
        digits_value(Seq::new(k, |i: int| '0') + d) == digits_value(d),
    decreases d.len(), k,
{
    let z = Seq::new(k, |i: int| '0');
    if d.len() > 0 {
        assert((z + d).drop_last() == z + d.drop_last());
        lemma_zeros_value(k, d.drop_last());
    } else {
        assert(z + d == z);
        if k > 0 {
            assert(z.drop_last() == Seq::new((k - 1) as nat, |i: int| '0'));
            lemma_zeros_value((k - 1) as nat, d);
            assert(Seq::new((k - 1) as nat, |i: int| '0') + d == Seq::new((k - 1) as nat, |i: int| '0'));
        }
    }
}

/// A zero-padded number has exactly `width` digits and reads back as the number.
pub proof fn lemma_padded_value(n: nat, width: nat)
    requires
        decimal(n).len() <= width,
    ensures
        padded(n, width).len() == width,
        all_digits(padded(n, width)),
        digits_value(padded(n, width)) == n,
{
    lemma_decimal_value(n);
    let d = decimal(n);
    if d.len() < width {
        let z = Seq::new((width - d.len()) as nat, |i: int| '0');
        lemma_zeros_value((width - d.len()) as nat, d);
        assert forall|i: int| 0 <= i < (z + d).len() implies is_ascii_digit(#[trigger] (z + d)[i]) by {
            if i >= z.len() {
                assert((z + d)[i] == d[i - z.len()]);
            }
        }
    }
}

/// Digit runs of one length with one value are the same run.
pub proof fn lemma_digits_unique(a: Seq<char>, b: Seq<char>)
    requires
        all_digits(a),
        all_digits(b),
        a.len() == b.len(),
        digits_value(a) == digits_value(b),
    ensures
        a == b,
    decreases a.len(),
{
    if a.len() > 0 {
        let x = digit_value(a.last());
        let y = digit_value(b.last());
        assert(is_ascii_digit(a[a.len() - 1]));
        assert(is_ascii_digit(b[b.len() - 1]));
        assert(x < 10 && y < 10);
        let pa = digits_value(a.drop_last());
        let pb = digits_value(b.drop_last());
        assert(pa == pb && x == y) by (nonlinear_arith)
            requires
                pa * 10 + x == pb * 10 + y,
                x < 10,
                y < 10,
        ;
        assert forall|i: int| 0 <= i < a.drop_last().len() implies is_ascii_digit(#[trigger] a.drop_last()[i]) by {
            assert(a.drop_last()[i] == a[i]);
        }
        assert forall|i: int| 0 <= i < b.drop_last().len() implies is_ascii_digit(#[trigger] b.drop_last()[i]) by {
            assert(b.drop_last()[i] == b[i]);
        }
        lemma_digits_unique(a.drop_last(), b.drop_last());
        assert(a.last() == b.last());
        assert(a == a.drop_last().push(a.last()));
        assert(b == b.drop_last().push(b.last()));
    }
}

/// The value of `s[from..to]`, which must be digits.
pub fn digits_exec(s: &[char], from: usize, to: usize) -> (r: Option<u64>)
    requires
        from <= to <= s@.len(),
        to - from <= 4,
    ensures
        match r {
            Some(v) => all_digits(s@.subrange(from as int, to as int)) && v == digits_value(s@.subrange(from as int, to as int)),
            None => !all_digits(s@.subrange(from as int, to as int)),
        },
        r matches Some(v) ==> v < 10000,
        r matches Some(v) ==> (to - from <= 3 ==> v < 1000) && (to - from <= 2 ==> v < 100),
{
    let mut v: u64 = 0;
    let mut i = from;
    while i < to
        invariant
            from <= i <= to <= s@.len(),
            to - from <= 4,
            all_digits(s@.subrange(from as int, i as int)),
            v == digits_value(s@.subrange(from as int, i as int)),
            v < 10000,
            i - from <= 3 ==> v < 1000,
            i - from <= 2 ==> v < 100,
            i - from <= 1 ==> v < 10,
            i == from ==> v == 0,
        decreases to - i,
    {
        let c = s[i];
        let ghost pre = s@.subrange(from as int, i as int);
        let ghost next = s@.subrange(from as int, i + 1);
        assert(next.drop_last() == pre);
        assert(next.last() == c);
        if !('0' <= c && c <= '9') {
            assert(!is_ascii_digit(next[next.len() - 1]));
            proof {
                let whole = s@.subrange(from as int, to as int);
                assert(whole[i - from] == c);
            }
            return None;
        }
        v = v * 10 + (c as u32 - 48) as u64;
        assert forall|k: int| 0 <= k < next.len() implies is_ascii_digit(#[trigger] next[k]) by {
            if k < pre.len() {
                assert(next[k] == pre[k]);
            }
        }
        i += 1;
    }
    Some(v)
}

} // verus!
