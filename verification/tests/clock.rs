use stozher_kernel::calendar::{civil_from_days, days_from_civil, days_in_month};
use stozher_kernel::clock::declaration::{
    declaration_record, declare_advance, from_config, last_declared_instant, KernelClock,
};
use stozher_kernel::clock::{
    add_duration, format_millis, parse_duration_seconds, parse_timestamp, shift, AdvancedClock,
    Clock, ClockAdvance, FixedClock, SystemClock, CLOCK_ADVANCE_DECLARED, CLOCK_ADVANCE_REFUSED,
    LAST_REPRESENTABLE_INSTANT,
};

#[test]
fn a_fixed_clock_stands_still_and_moves_on_request() {
    let mut clock = FixedClock::new("2026-07-26T09:00:00.000Z").unwrap();
    assert_eq!(clock.now(), "2026-07-26T09:00:00.000Z");
    assert_eq!(clock.now(), "2026-07-26T09:00:00.000Z");
    clock.advance_seconds(3_600);
    assert_eq!(clock.now(), "2026-07-26T10:00:00.000Z");
    clock.advance_seconds(-3_600);
    assert_eq!(clock.now(), "2026-07-26T09:00:00.000Z");
}

#[test]
fn durations_are_days_and_time_only() {
    assert_eq!(parse_duration_seconds("P30D").unwrap(), 2_592_000);
    assert_eq!(parse_duration_seconds("PT15M").unwrap(), 900);
    assert_eq!(parse_duration_seconds("PT1H").unwrap(), 3_600);
    assert_eq!(parse_duration_seconds("P0D").unwrap(), 0);
    assert_eq!(parse_duration_seconds("P1DT2H3M4S").unwrap(), 93_784);
    assert_eq!(parse_duration_seconds("P3650D").unwrap(), 315_360_000);
    for bad in [
        "P1Y", "P1M", "P1YT1H", "30D", "P", "PT", "P1", "PT1X", "", "P-1D", "PT1H1", "PT1D",
    ] {
        assert_eq!(
            parse_duration_seconds(bad).unwrap_err().code(),
            "encoding-bad-duration",
            "{bad:?} must be rejected"
        );
    }
}

#[test]
fn timestamps_round_trip_in_exactly_one_form() {
    for at in [
        "2026-07-26T09:15:01.300Z",
        "1970-01-01T00:00:00.000Z",
        "1969-12-31T23:59:59.999Z",
        "2000-02-29T12:00:00.000Z",
        "2024-02-29T00:00:00.000Z",
        "1900-03-01T00:00:00.000Z",
        "2099-12-31T23:59:59.999Z",
    ] {
        assert_eq!(format_millis(parse_timestamp(at).unwrap()), at, "{at}");
    }
    for bad in [
        "2026-07-26T09:15:01Z",
        "2026-07-26T09:15:01.3Z",
        "2026-07-26T11:15:01.300+02:00",
        "2026-07-26t09:15:01.300z",
        "2026-13-26T09:15:01.300Z",
        "2026-02-30T09:15:01.300Z",
        "2026-07-26T24:15:01.300Z",
        "2026-07-26T09:60:01.300Z",
        "2026-07-2xT09:15:01.300Z",
        "",
    ] {
        assert_eq!(
            parse_timestamp(bad).unwrap_err().code(),
            "encoding-bad-timestamp",
            "{bad:?} must be rejected"
        );
    }
}

#[test]
fn the_calendar_round_trips_over_three_centuries() {
    let mut days = days_from_civil(1900, 1, 1);
    let end = days_from_civil(2200, 1, 1);
    let mut previous: Option<i64> = None;
    while days < end {
        let (year, month, day) = civil_from_days(days);
        assert_eq!(
            days_from_civil(year, month, day),
            days,
            "{year:04}-{month:02}-{day:02} does not round-trip"
        );
        assert!((1..=12).contains(&month));
        assert!(day >= 1 && day <= days_in_month(year, month));
        if let Some(prior) = previous {
            assert_eq!(days - prior, 1);
        }
        previous = Some(days);
        days += 1;
    }
}

#[test]
fn a_leap_second_is_refused_rather_than_folded_into_the_next_minute() {
    assert!(parse_timestamp("2016-12-31T23:59:60.000Z").is_err());
    let before = parse_timestamp("2016-12-31T23:59:59.000Z").unwrap();
    let after = parse_timestamp("2017-01-01T00:00:00.000Z").unwrap();
    assert!(before < after);
}

#[test]
fn retention_ceiling_arithmetic() {
    assert_eq!(
        add_duration("2026-07-26T00:00:00.000Z", "P365D").unwrap(),
        "2027-07-26T00:00:00.000Z"
    );
    assert_eq!(
        add_duration("2026-07-26T00:00:00.000Z", "P0D").unwrap(),
        "2026-07-26T00:00:00.000Z"
    );
    assert_eq!(
        add_duration("2026-02-27T00:00:00.000Z", "P2D").unwrap(),
        "2026-03-01T00:00:00.000Z"
    );
    assert_eq!(
        add_duration("2028-02-27T00:00:00.000Z", "P2D").unwrap(),
        "2028-02-29T00:00:00.000Z"
    );
    assert_eq!(shift("2026-07-26T00:00:00.000Z", -1).unwrap(), "2026-07-25T23:59:59.000Z");
    assert_eq!(
        shift("2026-07-26T00:00:00.000Z", i64::MAX).unwrap_err().code(),
        "encoding-bad-timestamp"
    );
}

#[test]
fn the_system_clock_produces_a_parseable_instant() {
    let now = SystemClock.now();
    assert_eq!(format_millis(parse_timestamp(&now).unwrap()), now);
}

fn advance(duration: &str) -> ClockAdvance {
    ClockAdvance {
        seconds: parse_duration_seconds(duration).unwrap(),
        duration: duration.to_owned(),
    }
}

fn fixed(at: &str) -> FixedClock {
    FixedClock::new(at).unwrap()
}

#[test]
fn an_advanced_clock_reads_ahead_of_the_one_it_wraps() {
    let clock =
        AdvancedClock::new(fixed("2026-07-26T09:00:00.000Z"), advance("P400D")).unwrap();
    assert_eq!(clock.base_now(), "2026-07-26T09:00:00.000Z");
    assert_eq!(clock.now(), "2027-08-30T09:00:00.000Z");
    let mut base = clock.into_base();
    base.advance_seconds(3_600);
    let clock = AdvancedClock::new(base, advance("P400D")).unwrap();
    assert_eq!(clock.now(), "2027-08-30T10:00:00.000Z");
    assert!(clock.banner().contains("P400D"));
}

#[test]
fn the_clock_advance_has_no_way_to_point_backwards() {
    for spelling in ["-P400D", "-PT1H", "P-400D", "PT-1H"] {
        assert_eq!(
            parse_duration_seconds(spelling).unwrap_err().code(),
            "encoding-bad-duration",
            "{spelling:?} must not parse as a duration"
        );
    }
    for seconds in [-1, -86_400, i64::MIN] {
        let hostile = ClockAdvance { seconds, duration: "forged".to_owned() };
        assert_eq!(
            AdvancedClock::new(fixed("2026-07-26T09:00:00.000Z"), hostile).unwrap_err().code(),
            CLOCK_ADVANCE_REFUSED,
            "an advance of {seconds}s was accepted"
        );
    }
}

#[test]
fn an_advance_is_bounded_and_never_zero() {
    let at = "2026-07-26T09:00:00.000Z";
    for refused in ["PT0S", "P0D"] {
        assert_eq!(
            AdvancedClock::new(fixed(at), advance(refused)).unwrap_err().code(),
            CLOCK_ADVANCE_REFUSED,
            "a zero advance was accepted as {refused:?}"
        );
    }
    assert_eq!(
        AdvancedClock::new(fixed(at), advance("P3651D")).unwrap_err().code(),
        CLOCK_ADVANCE_REFUSED
    );
    assert!(AdvancedClock::new(fixed(at), advance("P3650D")).is_ok());
}

#[test]
fn an_advance_saturates_rather_than_reading_behind_the_host() {
    let clock =
        AdvancedClock::new(fixed("9999-01-01T00:00:00.000Z"), advance("P3650D")).unwrap();
    assert_eq!(clock.now(), LAST_REPRESENTABLE_INSTANT);
    assert!(clock.now() > clock.base_now());
}

#[test]
fn an_advance_is_declared_at_every_start_and_never_taken_back() {
    let a = advance("P400D");
    let at = "2027-08-30T09:00:00.000Z";
    let declared = declare_advance(at, None, Some(&a)).unwrap().unwrap();
    assert_eq!(declared.text_at("effective"), Some(at));
    assert_eq!(declared.text_at("real"), Some("2026-07-26T09:00:00.000Z"));
    assert_eq!(declared.text_at("advance"), Some("P400D"));
    assert_eq!(last_declared_instant(Some(&declared)), Some(at));
    assert!(declare_advance(at, Some(at), None).unwrap().is_none());
    assert_eq!(
        declare_advance("2026-07-26T09:00:00.000Z", Some(at), None).unwrap_err().code(),
        CLOCK_ADVANCE_REFUSED
    );
    let record = declaration_record(&a, at, "{}");
    assert_eq!(record.reason, CLOCK_ADVANCE_DECLARED);
    assert_eq!(record.received_at, "2026-07-26T09:00:00.000Z");
    assert!(matches!(from_config(None), Ok(KernelClock::Host(_))));
    assert!(matches!(from_config(Some(a)), Ok(KernelClock::Ahead(_))));
}
