use claw::cron::{next_after_utc, parse_field, parse_list, Cron};

fn next(expr: &str, after: &str) -> String {
    let cron = Cron::parse(expr).expect("parse");
    next_after_utc(&cron, after, "UTC").expect("next")
}

fn nanos(instant: &str) -> i128 {
    instant
        .parse::<jiff::Timestamp>()
        .expect("timestamp")
        .as_nanosecond()
}

#[test]
fn daily_at_nine_is_grid_aligned_regardless_of_completion_latency() {
    // Completed five minutes late; next fire stays on the 09:00 grid (no drift).
    assert_eq!(
        next("0 9 * * *", "2026-06-11T09:05:00.000Z"),
        "2026-06-12T09:00:00.000Z"
    );
}

#[test]
fn every_five_minutes_skips_missed_windows() {
    // A run that overran to 12:07 jumps to 12:10, not back to the missed 12:05.
    assert_eq!(
        next("*/5 * * * *", "2026-06-11T12:07:30.000Z"),
        "2026-06-11T12:10:00.000Z"
    );
}

#[test]
fn hourly_on_the_hour() {
    assert_eq!(
        next("0 * * * *", "2026-06-11T12:00:00.000Z"),
        "2026-06-11T13:00:00.000Z"
    );
}

#[test]
fn lists_and_ranges() {
    let cron = Cron::parse("0 9,17 * * 1-5").expect("parse");
    // Friday 17:00: the weekend is skipped, to Monday 09:00.
    let after = "2026-06-12T17:00:00.000Z";
    assert_eq!(
        next_after_utc(&cron, after, "UTC").expect("next"),
        "2026-06-15T09:00:00.000Z"
    );
}

#[test]
fn a_step_of_one_runs_from_a_number_to_the_end() {
    for after in ["2026-06-11T12:00:00.000Z", "2026-06-11T12:57:00.000Z", "2026-06-11T12:58:30.000Z"] {
        assert_eq!(next("57/1 * * * *", after), next("57-59 * * * *", after));
    }
    assert_eq!(
        next("57/1 * * * *", "2026-06-11T12:57:00.000Z"),
        "2026-06-11T12:58:00.000Z"
    );
    assert_eq!(
        next("57 * * * *", "2026-06-11T12:57:00.000Z"),
        "2026-06-11T13:57:00.000Z"
    );
}

#[test]
fn a_list_fires_when_any_of_its_parts_does() {
    let after = "2026-06-11T12:06:00.000Z";
    let parts = [next("5 * * * *", after), next("*/20 * * * *", after)];
    let list = next("5,*/20 * * * *", after);
    assert_eq!(Some(&list), parts.iter().min());
    assert_eq!(list, "2026-06-11T12:20:00.000Z");
    assert_eq!(list, next("*/20,5 * * * *", after));
}

#[test]
fn the_mask_of_a_list_is_that_of_its_parts() {
    assert_eq!(parse_field("e", "1,3", 0, 59), Ok((0b1010, true)));
    assert_eq!(parse_field("e", "*", 0, 7), Ok((0xff, false)));
    let (first, second, list) = parse_list("e", "*", "5", 0, 7);
    assert_eq!(first, Ok((0xff, false)));
    assert_eq!(second, Ok((0b10_0000, true)));
    assert_eq!(list, Ok((0xff, true)));
    let (_, refused, list) = parse_list("e", "1", "9", 0, 7);
    assert_eq!(list, refused);
}

#[test]
fn dom_and_dow_both_restricted_matches_either() {
    // The first of the month, or any Monday.
    let cron = Cron::parse("0 0 1 * 1").expect("parse");
    let next = cron
        .next_after(nanos("2026-06-10T00:00:00Z"), "UTC")
        .expect("next");
    let day = jiff::Timestamp::from_nanosecond(next)
        .expect("timestamp")
        .strftime("%Y-%m-%d")
        .to_string();
    assert_eq!(day, "2026-06-15");
}

#[test]
fn timezone_is_respected() {
    let cron = Cron::parse("0 9 * * *").expect("parse");
    // 09:00 in New York on that day is 13:00 UTC.
    let result =
        next_after_utc(&cron, "2026-06-11T00:00:00.000Z", "America/New_York").expect("next");
    assert_eq!(result, "2026-06-11T13:00:00.000Z");
}

#[test]
fn malformed_expressions_are_rejected() {
    for bad in [
        "",
        "* * * *",
        "60 * * * *",
        "* * * * 8/x",
        "0-99 * * * *",
        "5-1 * * * *",
    ] {
        assert!(Cron::parse(bad).is_err(), "{bad:?} should fail");
    }
}

#[test]
fn refusals_name_the_expression() {
    let err = Cron::parse("* * *").expect_err("must fail");
    assert_eq!(err.expr, "* * *");
    assert_eq!(
        err.message(),
        "invalid cron expression \"* * *\": expected 5 space-separated fields"
    );
}

#[test]
fn sunday_accepts_zero_and_seven() {
    let zero = Cron::parse("0 0 * * 0").expect("parse");
    let seven = Cron::parse("0 0 * * 7").expect("parse");
    assert_eq!(zero, seven);
}

#[test]
fn a_schedule_that_never_comes_has_no_next() {
    // There is no thirtieth of February.
    let cron = Cron::parse("0 0 30 2 *").expect("parse");
    assert_eq!(cron.next_after(nanos("2026-01-01T00:00:00Z"), "UTC"), None);
}

#[test]
fn the_next_occurrence_is_strictly_later() {
    let cron = Cron::parse("* * * * *").expect("parse");
    let at = nanos("2026-06-11T12:00:00Z");
    let minute = nanos("2026-06-11T12:01:00Z") - at;
    assert_eq!(cron.next_after(at, "UTC"), Some(at + minute));
    assert_eq!(cron.next_after(at + 1, "UTC"), Some(at + minute));
    assert_eq!(cron.next_after(at - 1, "UTC"), Some(at));
}

#[test]
fn a_malformed_time_or_an_unknown_zone_has_no_next() {
    let cron = Cron::parse("* * * * *").expect("parse");
    assert_eq!(next_after_utc(&cron, "yesterday", "UTC"), None);
    let after = "2026-06-11T12:00:00.000Z";
    assert!(next_after_utc(&cron, after, "UTC").is_some());
    assert_eq!(next_after_utc(&cron, after, "Nowhere/Atlantis"), None);
}
