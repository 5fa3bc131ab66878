//! UTC timestamps rendered as ISO-8601 text, and calendar dates at fixed offsets.
use vstd::prelude::*;
use crate::calendar::{civil, days_from_civil, lemma_civil, valid_date};
use crate::number::{padded, padded_chars};
use crate::stamp::{canonical_utc, lemma_stamp_layout, utc_millis};
use crate::text::{chars_of, owned, string_of};

verus! {

/// The text of a timestamp: `YYYY-MM-DDTHH:MM:SSZ`, the date being the one
/// `days / 86400` days after 1970-01-01.
pub open spec fn iso_text(seconds: nat) -> Seq<char> {
    let days = seconds / 86400;
    let rem = seconds % 86400;
    let date = civil(days as int);
    padded(date.0 as nat, 4) + seq!['-'] + padded(date.1 as nat, 2) + seq!['-'] + padded(
        date.2 as nat,
        2,
    ) + seq!['T'] + padded(rem / 3600, 2) + seq![':'] + padded((rem % 3600) / 60, 2) + seq![':']
        + padded(rem % 60, 2) + seq!['Z']
}

/// A millisecond timestamp: the second's text, with `.mmm` before the `Z`
/// when the milliseconds are not zero.
pub open spec fn iso_millis_text(millis: nat) -> Seq<char> {
    let base = iso_text(millis / 1000);
    if millis % 1000 == 0 {
        base
    } else {
        base.drop_last() + seq!['.'] + padded(millis % 1000, 3) + seq!['Z']
    }
}

/// The date of day `days` after 1970-01-01 as (year, month, day).
#[verifier::spinoff_prover]
#[verifier::rlimit(40)]
pub fn civil_from_days(days: i64) -> (r: (i64, u64, u64))
    requires
        days <= i64::MAX - 719_468,
    ensures
        (r.0 as int, r.1 as int, r.2 as int) == civil(days as int),
        valid_date(r.0 as int, r.1 as int, r.2 as int),
        days_from_civil(r.0 as int, r.1 as int, r.2 as int) == days,
{
    proof {
        lemma_civil(days as int);
    }
    let shifted = days + 719_468;
    let era: i64 = if shifted >= 0 {
        shifted / 146_097
    } else {
        -((-shifted + 146_096) / 146_097)
    };
    assert(era == (shifted as int) / 146097) by (nonlinear_arith)
        requires
            shifted >= 0 ==> era == shifted / 146097,
            shifted < 0 ==> era == -((-shifted + 146096) / 146097),
    ;
    assert(-0x4000_0000_0000 <= era <= 0x4000_0000_0000) by (nonlinear_arith)
        requires
            era == (shifted as int) / 146097,
            -0x8000_0000_0000_0000 <= shifted <= 0x7fff_ffff_ffff_ffff,
    ;
    assert((shifted as int) == era * 146097 + (shifted as int) % 146097);
    assert(0 <= (shifted as int) % 146097 < 146097);
    let day_of_era = shifted - era * 146_097;
    let ghost g_doe = (days + 719468) - ((days + 719468) / 146097) * 146097;
    assert(day_of_era == g_doe);
    assert(0 <= day_of_era < 146097);
    let year_of_era = (day_of_era - day_of_era / 1_460 + day_of_era / 36_524 - day_of_era
        / 146_096) / 365;
    assert(year_of_era == crate::calendar::yoe_of(g_doe));
    assert(0 <= year_of_era <= 399);
    let mut year = year_of_era + era * 400;
    let day_of_year = day_of_era - (365 * year_of_era + year_of_era / 4 - year_of_era / 100);
    assert(day_of_year == crate::calendar::doy_of(g_doe, year_of_era as int));
    assert(0 <= day_of_year <= 365);
    let month_param = (5 * day_of_year + 2) / 153;
    let day = day_of_year - (153 * month_param + 2) / 5 + 1;
    let month = month_param + if month_param < 10 {
        3
    } else {
        -9
    };
    if month <= 2 {
        year += 1;
    }
    assert((year as int, month as int, day as int) == crate::calendar::civil_in_era(
        era as int,
        g_doe,
    ));
    (year, month as u64, day as u64)
}

/// Appends `tail` to `head`.
fn extend(head: &mut Vec<char>, tail: Vec<char>)
    ensures
        final(head)@ == old(head)@ + tail@,
{
    let mut t = tail;
    head.append(&mut t);
}

/// Whole seconds since the epoch as `YYYY-MM-DDTHH:MM:SSZ`.
pub fn iso_from_unix(seconds: u64) -> (r: String)
    ensures
        r@ == iso_text(seconds as nat),
{
    let days = seconds / 86_400;
    let rem = seconds % 86_400;
    let (year, month, day) = civil_from_days(days as i64);
    proof {
        assert(year >= 1600) by (nonlinear_arith)
            requires
                valid_date(year as int, month as int, day as int),
                days_from_civil(year as int, month as int, day as int) == days,
                days >= 0,
        {
            assert(days_from_civil(year as int, month as int, day as int) >= 0);
        }
    }
    let hour = rem / 3_600;
    let minute = (rem % 3_600) / 60;
    let second = rem % 60;
    let mut v = padded_chars(year as u64, 4);
    v.push('-');
    extend(&mut v, padded_chars(month, 2));
    v.push('-');
    extend(&mut v, padded_chars(day, 2));
    v.push('T');
    extend(&mut v, padded_chars(hour, 2));
    v.push(':');
    extend(&mut v, padded_chars(minute, 2));
    v.push(':');
    extend(&mut v, padded_chars(second, 2));
    v.push('Z');
    string_of(v.as_slice())
}

/// Milliseconds since the epoch, with a `.mmm` fraction when it is not zero.
pub fn iso_from_unix_millis(milliseconds: u64) -> (r: String)
    ensures
        r@ == iso_millis_text(milliseconds as nat),
{
    let value = iso_from_unix(milliseconds / 1_000);
    let fraction = milliseconds % 1_000;
    if fraction != 0 {
        let mut v = chars_of(value.as_str());
        let _ = v.pop();
        v.push('.');
        extend(&mut v, padded_chars(fraction, 3));
        v.push('Z');
        string_of(v.as_slice())
    } else {
        value
    }
}

/// Milliseconds since the epoch by the system clock, when the clock reads
/// after the epoch and the count fits in a `u64`
/// (`SystemTime::now().duration_since(UNIX_EPOCH)`).
#[verifier::external_body]
fn system_millis() -> (r: Option<u64>) {
    std::time::SystemTime::now().duration_since(std::time::UNIX_EPOCH).ok().and_then(
        |duration| u64::try_from(duration.as_millis()).ok(),
    )
}

/// The ISO-8601 UTC text of a clock reading in milliseconds since the
/// epoch; the epoch itself when there is no reading (a clock before the
/// epoch, or one past what a `u64` holds).
pub fn utc_text(reading: Option<u64>) -> (r: String)
    ensures
        r@ == match reading {
            Some(m) => iso_millis_text(m as nat),
            None => "1970-01-01T00:00:00Z"@,
        },
        r@ == iso_millis_text(match reading {
            Some(m) => m as nat,
            None => 0,
        }),
{
    match reading {
        Some(milliseconds) => iso_from_unix_millis(milliseconds),
        None => {
            let r = owned("1970-01-01T00:00:00Z");
            proof {
                reveal_strlit("1970-01-01T00:00:00Z");
                lemma_epoch_text();
            }
            r
        },
    }
}

/// The current time as ISO-8601 UTC text; the epoch when the clock reads
/// before it.
pub fn utc_now() -> (r: String)
    ensures
        exists|m: nat| r@ == iso_millis_text(m),
{
    utc_text(system_millis())
}

proof fn lemma_epoch_text()
    ensures
        iso_millis_text(0) == "1970-01-01T00:00:00Z"@,
{
    reveal_strlit("1970-01-01T00:00:00Z");
    crate::calendar::lemma_civil_inverse(1970, 1, 1);
    assert(days_from_civil(1970, 1, 1) == 0);
    assert(civil(0) == (1970int, 1int, 1int));
    assert(crate::number::decimal(1970) == seq!['1', '9', '7', '0']) by {
        reveal_with_fuel(crate::number::decimal, 5);
    }
    assert(padded(1970, 4) == seq!['1', '9', '7', '0']);
    assert(padded(1, 2) == seq!['0', '1']) by {
        reveal_with_fuel(crate::number::decimal, 2);
    }
    assert(padded(0, 2) == seq!['0', '0']) by {
        reveal_with_fuel(crate::number::decimal, 2);
    }
    assert(iso_millis_text(0) =~= "1970-01-01T00:00:00Z"@);
}

/// Minutes east of UTC of a workspace timezone: `UTC`, or a fixed offset
/// `+HH:MM` / `-HH:MM` of at most fourteen hours.
pub open spec fn offset_spec(tz: Seq<char>) -> Result<int, Seq<char>> {
    if tz == "UTC"@ {
        Ok(0)
    } else if tz.len() == 6 && (tz[0] == '+' || tz[0] == '-') && crate::number::all_digits(
        tz.subrange(1, 3),
    ) && tz[3] == ':' && crate::number::all_digits(tz.subrange(4, 6))
        && crate::number::digits_value(tz.subrange(4, 6)) < 60 && crate::number::digits_value(
        tz.subrange(1, 3),
    ) * 60 + crate::number::digits_value(tz.subrange(4, 6)) <= 840 {
        let value = crate::number::digits_value(tz.subrange(1, 3)) * 60
            + crate::number::digits_value(tz.subrange(4, 6));
        Ok(
            if tz[0] == '-' {
                -value
            } else {
                value as int
            },
        )
    } else {
        Err("workspace timezone must be UTC or an offset from -14:00 to +14:00"@)
    }
}

/// The offset of a workspace timezone in minutes.
pub fn offset_minutes(timezone: &str) -> (r: Result<i32, String>)
    ensures
        match r {
            Ok(v) => offset_spec(timezone@) == Ok::<int, Seq<char>>(v as int),
            Err(e) => offset_spec(timezone@) == Err::<int, Seq<char>>(e@),
        },
{
    let c = chars_of(timezone);
    let utc = chars_of("UTC");
    if crate::text::chars_eq(c.as_slice(), utc.as_slice()) {
        return Ok(0);
    }
    let refusal = "workspace timezone must be UTC or an offset from -14:00 to +14:00";
    if c.len() != 6 || !(c[0] == '+' || c[0] == '-') || c[3] != ':' {
        return Err(owned(refusal));
    }
    let hour = match crate::number::digits_exec(c.as_slice(), 1, 3) {
        Some(h) => h,
        None => return Err(owned(refusal)),
    };
    let minute = match crate::number::digits_exec(c.as_slice(), 4, 6) {
        Some(m) => m,
        None => return Err(owned(refusal)),
    };
    if minute >= 60 || hour * 60 + minute > 840 {
        return Err(owned(refusal));
    }
    let value = (hour * 60 + minute) as i32;
    Ok(
        if c[0] == '-' {
            -value
        } else {
            value
        },
    )
}

/// `YYYY-MM-DD` of day `days` after 1970-01-01.
pub open spec fn date_text(days: int) -> Seq<char> {
    let date = civil(days);
    padded(date.0 as nat, 4) + seq!['-'] + padded(date.1 as nat, 2) + seq!['-'] + padded(
        date.2 as nat,
        2,
    )
}

/// The calendar date at a fixed offset of the instant a canonical UTC stamp names.
pub open spec fn local_date_spec(wall: Seq<char>, tz: Seq<char>) -> Result<Seq<char>, Seq<char>> {
    if !(exists|m: nat| canonical_utc(wall, m)) {
        Err("selected wall time is not canonical UTC"@)
    } else {
        let m = choose|m: nat| canonical_utc(wall, m);
        match offset_spec(tz) {
            Err(e) => Err(e),
            Ok(o) => Ok(date_text((m + o * 60000) / 86400000)),
        }
    }
}

/// A canonical stamp names one instant.
pub proof fn lemma_stamp_unique(t: Seq<char>, a: nat, b: nat)
    requires
        canonical_utc(t, a),
        canonical_utc(t, b),
    ensures
        a == b,
{
    lemma_stamp_layout(a);
    lemma_stamp_layout(b);
    let fa = crate::stamp::stamp_fields(a);
    let fb = crate::stamp::stamp_fields(b);
    if fa.6 == 0 {
        assert(fb.6 == 0);
    } else {
        assert(fb.6 != 0);
    }
    assert(fa == fb);
}

/// The date, at the offset of `timezone`, of the instant that the canonical
/// UTC stamp `wall_time` names, as `YYYY-MM-DD`.
#[verifier::spinoff_prover]
pub fn local_date(wall_time: &str, timezone: &str) -> (r: Result<String, String>)
    ensures
        match r {
            Ok(d) => local_date_spec(wall_time@, timezone@) == Ok::<Seq<char>, Seq<char>>(d@),
            Err(e) => local_date_spec(wall_time@, timezone@) == Err::<Seq<char>, Seq<char>>(e@),
        },
{
    let millis = match utc_millis(wall_time) {
        Some(m) => m,
        None => return Err(owned("selected wall time is not canonical UTC")),
    };
    proof {
        let m = choose|m: nat| canonical_utc(wall_time@, m);
        lemma_stamp_unique(wall_time@, m, millis as nat);
        lemma_stamp_layout(millis as nat);
    }
    let offset = match offset_minutes(timezone) {
        Ok(o) => o,
        Err(e) => return Err(e),
    };
    assert(-840 <= offset <= 840);
    assert(millis < 400_000_000_000_000) by {
        crate::stamp::lemma_stamp_bound(millis as nat);
    }
    let local: i64 = millis as i64 + offset as i64 * 60_000;
    let days: i64 = if local >= 0 {
        local / 86_400_000
    } else {
        -((-local + 86_399_999) / 86_400_000)
    };
    assert(days == (local as int) / 86400000) by (nonlinear_arith)
        requires
            local >= 0 ==> days == local / 86400000,
            local < 0 ==> days == -((-local + 86399999) / 86400000),
            local >= -50_400_000,
    ;
    assert(days >= -1);
    Ok(date_of_day(days))
}

/// `YYYY-MM-DD` of a day from 1969-12-31 on.
fn date_of_day(days: i64) -> (r: String)
    requires
        -1 <= days <= 0x4_0000_0000_0000,
    ensures
        r@ == date_text(days as int),
{
    let (year, month, day) = civil_from_days(days);
    proof {
        assert(year >= 1600) by (nonlinear_arith)
            requires
                valid_date(year as int, month as int, day as int),
                days_from_civil(year as int, month as int, day as int) == days,
                days >= -1,
        {
            assert(days_from_civil(year as int, month as int, day as int) >= -1);
        }
    }
    let mut v = padded_chars(year as u64, 4);
    v.push('-');
    extend(&mut v, padded_chars(month, 2));
    v.push('-');
    extend(&mut v, padded_chars(day, 2));
    string_of(v.as_slice())
}

} // verus!
