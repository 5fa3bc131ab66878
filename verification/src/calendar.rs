//! The proleptic Gregorian calendar counted in days from 1970-01-01.
use vstd::prelude::*;

verus! {

pub open spec fn is_leap(y: int) -> bool {
    y % 4 == 0 && (y % 100 != 0 || y % 400 == 0)
}

pub open spec fn month_len(y: int, m: int) -> int {
    if m == 2 {
        if is_leap(y) {
            29
        } else {
            28
        }
    } else if m == 4 || m == 6 || m == 9 || m == 11 {
        30
    } else {
        31
    }
}

/// `(y, m, d)` names a day of the calendar.
pub open spec fn valid_date(y: int, m: int, d: int) -> bool {
    1 <= m <= 12 && 1 <= d <= month_len(y, m)
}

/// Days from 1970-01-01 to `(y, m, d)`: whole 400-year eras of 146097 days,
/// then 365 days a year with a leap day every fourth year but the centuries,
/// with years counted from March so that the leap day falls last.
pub open spec fn days_from_civil(y: int, m: int, d: int) -> int {
    let y1 = if m <= 2 {
        y - 1
    } else {
        y
    };
    let era = y1 / 400;
    let yoe = y1 - era * 400;
    let mp = if m > 2 {
        m - 3
    } else {
        m + 9
    };
    let doy = (153 * mp + 2) / 5 + d - 1;
    let doe = yoe * 365 + yoe / 4 - yoe / 100 + doy;
    era * 146097 + doe - 719468
}

/// Year of era from day of era.
pub open spec fn yoe_of(doe: int) -> int {
    (doe - doe / 1460 + doe / 36524 - doe / 146096) / 365
}

/// Day of year (March-based) from day of era and year of era.
pub open spec fn doy_of(doe: int, yoe: int) -> int {
    doe - (365 * yoe + yoe / 4 - yoe / 100)
}

#[verifier::spinoff_prover]
#[verifier::rlimit(80)]
proof fn lemma_yoe_range(doe: int)
    requires
        0 <= doe <= 146096,
    ensures
        0 <= yoe_of(doe) <= 399,
        0 <= doy_of(doe, yoe_of(doe)) <= 365,
        doy_of(doe, yoe_of(doe)) == 365 ==> (yoe_of(doe) % 4 == 3 && (yoe_of(doe) % 100 != 99
            || yoe_of(doe) == 399)),
{
    let yoe = yoe_of(doe);
    assert(0 <= yoe <= 399);
    let q4 = yoe / 4;
    let q100 = yoe / 100;
    assert(0 <= doy_of(doe, yoe) <= 365);
}

#[verifier::spinoff_prover]
proof fn lemma_month_of(doy: int)
    requires
        0 <= doy <= 365,
    ensures
        ({
            let mp = (5 * doy + 2) / 153;
            let d = doy - (153 * mp + 2) / 5 + 1;
            &&& 0 <= mp <= 11
            &&& 1 <= d
            &&& (mp == 11 ==> d <= 29 && (d == 29 <==> doy == 365))
            &&& (mp == 0 || mp == 2 || mp == 4 || mp == 5 || mp == 7 || mp == 9 || mp == 10)
                ==> d <= 31
            &&& (mp == 1 || mp == 3 || mp == 6 || mp == 8) ==> d <= 30
        }),
{
}

/// The date at day `doe` of 400-year era `era`.
pub open spec fn civil_in_era(era: int, doe: int) -> (int, int, int) {
    let yoe = yoe_of(doe);
    let doy = doy_of(doe, yoe);
    let mp = (5 * doy + 2) / 153;
    let d = doy - (153 * mp + 2) / 5 + 1;
    let m = if mp < 10 {
        mp + 3
    } else {
        mp - 9
    };
    let y = yoe + era * 400 + if m <= 2 {
        1int
    } else {
        0int
    };
    (y, m, d)
}

/// The date of day `days`, computed era by era.
pub open spec fn civil(days: int) -> (int, int, int) {
    let shifted = days + 719468;
    let era = shifted / 146097;
    civil_in_era(era, shifted - era * 146097)
}

/// `civil` names a real date, and counting the days to that date gives back `days`.
#[verifier::spinoff_prover]
pub proof fn lemma_civil(days: int)
    ensures
        valid_date(civil(days).0, civil(days).1, civil(days).2),
        days_from_civil(civil(days).0, civil(days).1, civil(days).2) == days,
{
    let shifted = days + 719468;
    let era = shifted / 146097;
    let doe = shifted - era * 146097;
    assert(0 <= doe < 146097);
    lemma_yoe_range(doe);
    let yoe = yoe_of(doe);
    let doy = doy_of(doe, yoe);
    lemma_month_of(doy);
    let (y, m, d) = civil(days);
    let y1 = if m <= 2 {
        y - 1
    } else {
        y
    };
    assert(y1 == yoe + era * 400);
    assert(y1 / 400 == era) by (nonlinear_arith)
        requires
            y1 == yoe + era * 400,
            0 <= yoe <= 399,
    ;
    if m == 2 && d == 29 {
        assert(is_leap(y)) by (nonlinear_arith)
            requires
                y == yoe + era * 400 + 1,
                yoe % 4 == 3,
                yoe % 100 != 99 || yoe == 399,
                0 <= yoe <= 399,
        ;
    }
}

#[verifier::spinoff_prover]
#[verifier::rlimit(80)]
proof fn lemma_yoe_of_inverse(yoe: int, doy: int)
    requires
        0 <= yoe <= 399,
        0 <= doy <= 365,
        doy == 365 ==> (yoe % 4 == 3 && (yoe % 100 != 99 || yoe == 399)),
    ensures
        yoe_of(365 * yoe + yoe / 4 - yoe / 100 + doy) == yoe,
        0 <= 365 * yoe + yoe / 4 - yoe / 100 + doy <= 146096,
{
}

#[verifier::spinoff_prover]
proof fn lemma_month_inverse(mp: int, d: int, leap: bool)
    requires
        0 <= mp <= 11,
        1 <= d,
        mp == 11 ==> d <= (if leap {
            29int
        } else {
            28int
        }),
        (mp == 1 || mp == 3 || mp == 6 || mp == 8) ==> d <= 30,
        d <= 31,
    ensures
        ({
            let doy = (153 * mp + 2) / 5 + d - 1;
            &&& 0 <= doy <= 365
            &&& doy == 365 ==> mp == 11 && d == 29
            &&& (5 * doy + 2) / 153 == mp
        }),
{
}

/// Each date is the date of the day count that `days_from_civil` gives it.
#[verifier::spinoff_prover]
pub proof fn lemma_civil_inverse(y: int, m: int, d: int)
    requires
        valid_date(y, m, d),
    ensures
        civil(days_from_civil(y, m, d)) == (y, m, d),
{
    let y1 = if m <= 2 {
        y - 1
    } else {
        y
    };
    let era = y1 / 400;
    let yoe = y1 - era * 400;
    let mp = if m > 2 {
        m - 3
    } else {
        m + 9
    };
    lemma_month_inverse(mp, d, is_leap(y));
    let doy = (153 * mp + 2) / 5 + d - 1;
    if doy == 365 {
        assert(yoe % 4 == 3 && (yoe % 100 != 99 || yoe == 399)) by (nonlinear_arith)
            requires
                y == y1 + 1,
                yoe == y1 - era * 400,
                era == y1 / 400,
                is_leap(y),
        ;
    }
    lemma_yoe_of_inverse(yoe, doy);
    let doe = 365 * yoe + yoe / 4 - yoe / 100 + doy;
    let days = era * 146097 + doe - 719468;
    assert(days_from_civil(y, m, d) == days);
    let shifted = days + 719468;
    assert(shifted / 146097 == era) by (nonlinear_arith)
        requires
            shifted == era * 146097 + doe,
            0 <= doe <= 146096,
    ;
}

} // verus!
