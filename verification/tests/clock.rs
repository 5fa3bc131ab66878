use lkjagent_app::clock::{
    civil_from_days, iso_from_unix, iso_from_unix_millis, local_date, offset_minutes, utc_now, utc_text,
};
use lkjagent_app::stamp::{days_from_civil_exec, utc_millis};

#[test]
fn unix_seconds_render_human_utc() {
    assert_eq!(iso_from_unix(0), "1970-01-01T00:00:00Z");
    assert_eq!(iso_from_unix(86_400), "1970-01-02T00:00:00Z");
    assert_eq!(iso_from_unix_millis(50), "1970-01-01T00:00:00.050Z");
    assert_eq!(iso_from_unix(1_788_739_200), "2026-09-07T00:00:00Z");
}

#[test]
fn civil_dates_cover_leap_days_and_centuries() {
    assert_eq!(civil_from_days(0), (1970, 1, 1));
    assert_eq!(civil_from_days(-1), (1969, 12, 31));
    assert_eq!(civil_from_days(11_016), (2000, 2, 29));
    assert_eq!(civil_from_days(11_017), (2000, 3, 1));
    assert_eq!(civil_from_days(47_540), (2100, 2, 28));
    assert_eq!(civil_from_days(47_541), (2100, 3, 1));
    assert_eq!(civil_from_days(-719_468), (0, 3, 1));
}

#[test]
fn consecutive_days_give_consecutive_dates() {
    let mut previous = civil_from_days(-1_000);
    for days in -999i64..3_000 {
        let next = civil_from_days(days);
        let (y, m, d) = previous;
        let expected = if next.2 == 1 {
            if next.1 == 1 { (y + 1, 1, 1) } else { (y, m + 1, 1) }
        } else {
            (y, m, d + 1)
        };
        assert_eq!(next, expected);
        previous = next;
    }
}

#[test]
fn millisecond_stamps_keep_the_fraction() {
    assert_eq!(iso_from_unix_millis(0), "1970-01-01T00:00:00Z");
    assert_eq!(iso_from_unix_millis(1_000), "1970-01-01T00:00:01Z");
    assert_eq!(iso_from_unix_millis(1_001), "1970-01-01T00:00:01.001Z");
    assert_eq!(iso_from_unix_millis(951_782_400_123), "2000-02-29T00:00:00.123Z");
    assert_eq!(iso_from_unix(253_402_300_799), "9999-12-31T23:59:59Z");
    assert_eq!(iso_from_unix(253_402_300_800), "10000-01-01T00:00:00Z");
}

#[test]
fn now_is_rendered_as_utc() {
    let now = utc_now();
    assert!(now.ends_with('Z'));
    assert_eq!(&now[4..5], "-");
    assert_eq!(&now[10..11], "T");
}

#[test]
fn fixed_offsets_bind_the_local_date_at_real_boundaries() {
    assert_eq!(
        local_date("2026-07-12T23:30:00Z", "+14:00"),
        Ok("2026-07-13".into())
    );
    assert_eq!(
        local_date("2026-07-12T00:30:00Z", "-14:00"),
        Ok("2026-07-11".into())
    );
    assert!(local_date("2026-07-12T00:00:00Z", "+14:01").is_err());
}

#[test]
fn canonical_stamps_read_back_as_their_milliseconds() {
    assert_eq!(utc_millis("1970-01-01T00:00:00Z"), Some(0));
    assert_eq!(utc_millis("1970-01-01T00:00:00.050Z"), Some(50));
    assert_eq!(utc_millis("2026-09-07T00:00:00Z"), Some(1_788_739_200_000));
    for millis in [0u64, 50, 86_400_000, 1_788_739_200_123, 951_782_400_000, 253_402_300_799_999] {
        assert_eq!(utc_millis(&iso_from_unix_millis(millis)), Some(millis));
    }
}

#[test]
fn non_canonical_stamps_are_refused() {
    assert_eq!(utc_millis("1970-01-01T00:00:00.000Z"), None);
    assert_eq!(utc_millis("1970-01-01 00:00:00Z"), None);
    assert_eq!(utc_millis("1970-01-01T00:00:00"), None);
    assert_eq!(utc_millis("2026-02-30T00:00:00Z"), None);
    assert_eq!(utc_millis("2026-07-12T24:00:00Z"), None);
    assert_eq!(utc_millis("1969-12-31T23:59:59Z"), None);
    assert_eq!(utc_millis("10000-01-01T00:00:00Z"), None);
    assert_eq!(utc_millis("2026-07-12T00:00:00+00:00"), None);
}

#[test]
fn timezone_offsets_are_minutes_east() {
    assert_eq!(offset_minutes("UTC"), Ok(0));
    assert_eq!(offset_minutes("+05:30"), Ok(330));
    assert_eq!(offset_minutes("-14:00"), Ok(-840));
    assert_eq!(offset_minutes("+00:00"), Ok(0));
    assert!(offset_minutes("+14:01").is_err());
    assert!(offset_minutes("+05:60").is_err());
    assert!(offset_minutes("05:30").is_err());
    assert!(offset_minutes("utc").is_err());
    assert!(offset_minutes("+5:30").is_err());
}

#[test]
fn local_dates_follow_the_offset_and_refuse_bad_input() {
    assert_eq!(local_date("1970-01-01T00:00:00Z", "-00:01"), Ok("1969-12-31".into()));
    assert_eq!(local_date("2024-02-28T23:00:00Z", "+01:00"), Ok("2024-02-29".into()));
    assert_eq!(local_date("2024-02-29T12:00:00.500Z", "UTC"), Ok("2024-02-29".into()));
    assert_eq!(
        local_date("2024-02-29T12:00:00", "UTC"),
        Err("selected wall time is not canonical UTC".into())
    );
    assert!(local_date("2024-02-29T12:00:00Z", "CET").is_err());
}

#[test]
fn day_counts_match_the_dates() {
    assert_eq!(days_from_civil_exec(1970, 1, 1), 0);
    assert_eq!(days_from_civil_exec(2000, 3, 1), 11_017);
    assert_eq!(days_from_civil_exec(1969, 12, 31), -1);
    assert_eq!(days_from_civil_exec(0, 3, 1), -719_468);
}

#[test]
fn a_clock_reading_renders_and_no_reading_is_the_epoch() {
    assert_eq!(utc_text(Some(86_400_000)), "1970-01-02T00:00:00Z");
    assert_eq!(utc_text(Some(50)), "1970-01-01T00:00:00.050Z");
    assert_eq!(utc_text(None), "1970-01-01T00:00:00Z");
}
