//! Canonical UTC stamps: the text the clock writes for a millisecond count,
//! read back into that count.
use vstd::prelude::*;
use crate::calendar::{civil, days_from_civil, lemma_civil, valid_date};
use crate::clock::{iso_from_unix_millis, iso_millis_text, iso_text};
use crate::number::{all_digits, digits_exec, digits_value, lemma_decimal_value, lemma_padded_value, padded};
use crate::text::{chars_eq, chars_of};

verus! {

/// The fields of the stamp `m`: year, month, day, hour, minute, second and
/// millisecond.
pub open spec fn stamp_fields(m: nat) -> (int, int, int, int, int, int, int) {
    let secs = m / 1000;
    let days = secs / 86400;
    let rem = secs % 86400;
    let date = civil(days as int);
    (date.0, date.1, date.2, (rem / 3600) as int, ((rem % 3600) / 60) as int, (rem % 60) as int, (m % 1000) as int)
}

/// `t` is the text the clock writes for `m`, and its year has four digits.
pub open spec fn canonical_utc(t: Seq<char>, m: nat) -> bool {
    t == iso_millis_text(m) && stamp_fields(m).0 <= 9999
}

/// `s` is a run of digits worth `v`.
pub open spec fn digit_field(s: Seq<char>, v: int) -> bool {
    all_digits(s) && digits_value(s) == v
}

/// The millisecond count of a date and time of day.
pub open spec fn stamp_value(f: (int, int, int, int, int, int, int)) -> int {
    days_from_civil(f.0, f.1, f.2) * 86400000 + f.3 * 3600000 + f.4 * 60000 + f.5 * 1000 + f.6
}

/// Where each field stands in a canonical stamp, and what it holds.
#[verifier::spinoff_prover]
#[verifier::rlimit(40)]
pub proof fn lemma_stamp_layout(m: nat)
    requires
        stamp_fields(m).0 <= 9999,
    ensures
        ({
            let t = iso_millis_text(m);
            let f = stamp_fields(m);
            &&& 1970 <= f.0 <= 9999
            &&& valid_date(f.0, f.1, f.2)
            &&& 0 <= f.3 < 24 && 0 <= f.4 < 60 && 0 <= f.5 < 60 && 0 <= f.6 < 1000
            &&& t.len() == (if f.6 == 0 { 20int } else { 24int })
            &&& digit_field(t.subrange(0, 4), f.0)
            &&& digit_field(t.subrange(5, 7), f.1)
            &&& digit_field(t.subrange(8, 10), f.2)
            &&& digit_field(t.subrange(11, 13), f.3)
            &&& digit_field(t.subrange(14, 16), f.4)
            &&& digit_field(t.subrange(17, 19), f.5)
            &&& (f.6 != 0 ==> digit_field(t.subrange(20, 23), f.6))
            &&& stamp_value(f) == m
        }),
{
    let f = stamp_fields(m);
    let secs = m / 1000;
    let days = secs / 86400;
    let rem = secs % 86400;
    lemma_civil(days as int);
    let (y, mo, d) = civil(days as int);
    assert(y >= 1970) by (nonlinear_arith)
        requires
            valid_date(y, mo, d),
            days_from_civil(y, mo, d) == days,
            days >= 0,
    {
        assert(days_from_civil(y, mo, d) >= 0);
    }
    lemma_decimal_value(y as nat);
    lemma_decimal_value(mo as nat);
    lemma_decimal_value(d as nat);
    lemma_decimal_value(f.3 as nat);
    lemma_decimal_value(f.4 as nat);
    lemma_decimal_value(f.5 as nat);
    lemma_decimal_value(f.6 as nat);
    lemma_padded_value(y as nat, 4);
    lemma_padded_value(mo as nat, 2);
    lemma_padded_value(d as nat, 2);
    lemma_padded_value(f.3 as nat, 2);
    lemma_padded_value(f.4 as nat, 2);
    lemma_padded_value(f.5 as nat, 2);
    lemma_padded_value(f.6 as nat, 3);
    let py = padded(y as nat, 4);
    let pmo = padded(mo as nat, 2);
    let pd = padded(d as nat, 2);
    let ph = padded(f.3 as nat, 2);
    let pmi = padded(f.4 as nat, 2);
    let ps = padded(f.5 as nat, 2);
    let base = iso_text(secs);
    assert(base == py + seq!['-'] + pmo + seq!['-'] + pd + seq!['T'] + ph + seq![':'] + pmi
        + seq![':'] + ps + seq!['Z']);
    assert(base.len() == 20);
    assert(base.subrange(0, 4) == py);
    assert(base.subrange(5, 7) == pmo);
    assert(base.subrange(8, 10) == pd);
    assert(base.subrange(11, 13) == ph);
    assert(base.subrange(14, 16) == pmi);
    assert(base.subrange(17, 19) == ps);
    let t = iso_millis_text(m);
    if f.6 != 0 {
        let pms = padded(f.6 as nat, 3);
        assert(t == base.drop_last() + seq!['.'] + pms + seq!['Z']);
        assert(t.subrange(0, 4) == py);
        assert(t.subrange(5, 7) == pmo);
        assert(t.subrange(8, 10) == pd);
        assert(t.subrange(11, 13) == ph);
        assert(t.subrange(14, 16) == pmi);
        assert(t.subrange(17, 19) == ps);
        assert(t.subrange(20, 23) == pms);
        assert(digit_field(t.subrange(20, 23), f.6));
    } else {
        assert(t == base);
    }
    assert(digit_field(t.subrange(0, 4), f.0));
    assert(digit_field(t.subrange(5, 7), f.1));
    assert(digit_field(t.subrange(8, 10), f.2));
    assert(digit_field(t.subrange(11, 13), f.3));
    assert(digit_field(t.subrange(14, 16), f.4));
    assert(digit_field(t.subrange(17, 19), f.5));
    assert(secs * 1000 + f.6 == m);
    assert(days * 86400 + rem == secs);
    assert(rem == f.3 * 3600 + f.4 * 60 + f.5);
}

/// The day count of a date whose year has at most four digits.
pub fn days_from_civil_exec(y: i64, m: u64, d: u64) -> (r: i64)
    requires
        0 <= y <= 9999,
        m <= 99,
        d <= 99,
    ensures
        r == days_from_civil(y as int, m as int, d as int),
        r <= 4_000_000,
{
    let y1: i64 = if m <= 2 {
        y - 1
    } else {
        y
    };
    let era: i64 = if y1 >= 0 {
        y1 / 400
    } else {
        -1
    };
    assert(era == (y1 as int) / 400) by (nonlinear_arith)
        requires
            y1 >= 0 ==> era == y1 / 400,
            y1 < 0 ==> era == -1,
            -1 <= y1,
    ;
    let yoe: i64 = y1 - era * 400;
    let mp: i64 = if m > 2 {
        m as i64 - 3
    } else {
        m as i64 + 9
    };
    let doy: i64 = (153 * mp + 2) / 5 + d as i64 - 1;
    let doe: i64 = yoe * 365 + yoe / 4 - yoe / 100 + doy;
    assert(era <= 24);
    assert(doe <= 160_000);
    era * 146097 + doe - 719468
}

/// A stamp whose year has at most five digits is written with a text whose
/// length grows only with the year's digits.
#[verifier::spinoff_prover]
proof fn lemma_stamp_length(m: nat)
    requires
        stamp_fields(m).0 <= 99999,
    ensures
        ({
            let f = stamp_fields(m);
            let t = iso_millis_text(m);
            &&& f.0 >= 10000 ==> t.len() == (if f.6 == 0 { 21int } else { 25int })
        }),
{
    let f = stamp_fields(m);
    let secs = m / 1000;
    let days = secs / 86400;
    lemma_civil(days as int);
    let (y, mo, d) = civil(days as int);
    assert(y >= 1970) by (nonlinear_arith)
        requires
            valid_date(y, mo, d),
            days_from_civil(y, mo, d) == days,
            days >= 0,
    {
        assert(days_from_civil(y, mo, d) >= 0);
    }
    if y >= 10000 {
        lemma_decimal_value(y as nat);
        lemma_decimal_value(mo as nat);
        lemma_decimal_value(d as nat);
        lemma_decimal_value(f.3 as nat);
        lemma_decimal_value(f.4 as nat);
        lemma_decimal_value(f.5 as nat);
        lemma_decimal_value(f.6 as nat);
        lemma_padded_value(mo as nat, 2);
        lemma_padded_value(d as nat, 2);
        lemma_padded_value(f.3 as nat, 2);
        lemma_padded_value(f.4 as nat, 2);
        lemma_padded_value(f.5 as nat, 2);
        lemma_padded_value(f.6 as nat, 3);
        assert(padded(y as nat, 4).len() == 5);
    }
}

/// A stamp of at most about ten thousand years' worth of days whose text has
/// the length of a four-digit year has a four-digit year.
proof fn lemma_canonical_year(m: nat)
    requires
        m <= 400_000_000_000_000,
        iso_millis_text(m).len() == 20 || iso_millis_text(m).len() == 24,
    ensures
        stamp_fields(m).0 <= 9999,
{
    let secs = m / 1000;
    let days = secs / 86400;
    lemma_civil(days as int);
    let (y, mo, d) = civil(days as int);
    assert(days <= 4_700_000);
    assert(y <= 99999) by (nonlinear_arith)
        requires
            valid_date(y, mo, d),
            days_from_civil(y, mo, d) == days,
            days <= 4_700_000,
    {
        assert(days_from_civil(y, mo, d) <= 4_700_000);
    }
    lemma_stamp_length(m);
}

/// Shows that no stamp with a four-digit year is written as `t`, given a
/// fact that each such stamp's text would contradict.
proof fn lemma_none_canonical(t: Seq<char>)
    requires
        forall|m: nat| stamp_fields(m).0 <= 9999 && t == iso_millis_text(m) ==> false,
    ensures
        forall|m: nat| !canonical_utc(t, m),
{
}

/// The digit fields of a text laid out as a stamp.
fn read_fields(c: &Vec<char>) -> (r: Option<(u64, u64, u64, u64, u64, u64, u64)>)
    requires
        c@.len() == 20 || c@.len() == 24,
    ensures
        match r {
            Some((y, mo, d, h, mi, s, ms)) => {
                &&& digit_field(c@.subrange(0, 4), y as int)
                &&& digit_field(c@.subrange(5, 7), mo as int)
                &&& digit_field(c@.subrange(8, 10), d as int)
                &&& digit_field(c@.subrange(11, 13), h as int)
                &&& digit_field(c@.subrange(14, 16), mi as int)
                &&& digit_field(c@.subrange(17, 19), s as int)
                &&& (c@.len() == 24 ==> digit_field(c@.subrange(20, 23), ms as int))
                &&& (c@.len() == 20 ==> ms == 0)
                &&& y < 10000 && mo < 100 && d < 100 && h < 100 && mi < 100 && s < 100 && ms
                    < 1000
            },
            None => forall|m: nat| !canonical_utc(c@, m),
        },
{
    let fields = (
        digits_exec(c.as_slice(), 0, 4),
        digits_exec(c.as_slice(), 5, 7),
        digits_exec(c.as_slice(), 8, 10),
        digits_exec(c.as_slice(), 11, 13),
        digits_exec(c.as_slice(), 14, 16),
        digits_exec(c.as_slice(), 17, 19),
    );
    let ms = if c.len() == 24 {
        digits_exec(c.as_slice(), 20, 23)
    } else {
        Some(0)
    };
    match (fields, ms) {
        ((Some(y), Some(mo), Some(d), Some(h), Some(mi), Some(s)), Some(ms)) => Some(
            (y, mo, d, h, mi, s, ms),
        ),
        _ => {
            proof {
                assert forall|m: nat| stamp_fields(m).0 <= 9999 && c@ == iso_millis_text(m) implies false by {
                    lemma_stamp_layout(m);
                }
                lemma_none_canonical(c@);
            }
            None
        },
    }
}

/// The millisecond count written as `text`, when `text` is exactly what the
/// clock writes for it (`YYYY-MM-DDTHH:MM:SSZ`, with `.mmm` before the `Z`
/// when the milliseconds are not zero) and the year has four digits.
pub fn utc_millis(text: &str) -> (r: Option<u64>)
    ensures
        match r {
            Some(m) => canonical_utc(text@, m as nat),
            None => forall|m: nat| !canonical_utc(text@, m),
        },
{
    let c = chars_of(text);
    let n = c.len();
    if n != 20 && n != 24 {
        proof {
            assert forall|m: nat| stamp_fields(m).0 <= 9999 && text@ == iso_millis_text(m) implies false by {
                lemma_stamp_layout(m);
            }
            lemma_none_canonical(text@);
        }
        return None;
    }
    let (y, mo, d, h, mi, s, ms) = match read_fields(&c) {
        None => return None,
        Some(f) => f,
    };
    let days = days_from_civil_exec(y as i64, mo, d);
    if days < 0 {
        proof {
            assert forall|m: nat| stamp_fields(m).0 <= 9999 && text@ == iso_millis_text(m) implies false by {
                lemma_stamp_layout(m);
            }
            lemma_none_canonical(text@);
        }
        return None;
    }
    let total: u64 = days as u64 * 86_400_000 + h * 3_600_000 + mi * 60_000 + s * 1000 + ms;
    let back = iso_from_unix_millis(total);
    let bc = chars_of(back.as_str());
    if chars_eq(bc.as_slice(), c.as_slice()) {
        proof {
            lemma_canonical_year(total as nat);
        }
        Some(total)
    } else {
        proof {
            assert forall|m: nat| stamp_fields(m).0 <= 9999 && text@ == iso_millis_text(m) implies false by {
                lemma_stamp_layout(m);
            }
            lemma_none_canonical(text@);
        }
        None
    }
}

/// A canonical stamp lies before the year 10000.
pub proof fn lemma_stamp_bound(m: nat)
    requires
        stamp_fields(m).0 <= 9999,
    ensures
        m < 400_000_000_000_000,
{
    lemma_stamp_layout(m);
    let f = stamp_fields(m);
    assert(days_from_civil(f.0, f.1, f.2) <= 4_000_000) by (nonlinear_arith)
        requires
            f.0 <= 9999,
            valid_date(f.0, f.1, f.2),
    ;
}

} // verus!
