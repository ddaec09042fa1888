use arz_predictor::candidate_engine::{plan_generation, GenerationPlan, PlanError};
use arz_predictor::clock::{elapsed_nanoseconds, elapsed_whole_hours, elapsed_whole_seconds, Instant};
use arz_predictor::daily_selections::publication;
use arz_predictor::text::{counted, join_with_spaces, owned, text_eq, trim, white_space};
use chrono::{DateTime, Utc};

fn chrono_at(text: &str) -> DateTime<Utc> {
    DateTime::parse_from_rfc3339(text).unwrap().with_timezone(&Utc)
}

fn instant(text: &str) -> Instant {
    let t = chrono_at(text);
    Instant { seconds: t.timestamp(), nanos: t.timestamp_subsec_nanos() }
}

#[test]
fn cutoffs_are_rewritten_in_utc_and_dates_checked() {
    match plan_generation(&Some("2026-09-02".into()), &Some("2026-09-02T15:00:00+03:00".into()), "x") {
        Ok(GenerationPlan::Generate { business_date, generated_at }) => {
            assert_eq!(business_date, "2026-09-02");
            assert_eq!(generated_at, "2026-09-02T12:00:00+00:00");
        }
        other => panic!("unexpected {other:?}"),
    }
    assert_eq!(
        plan_generation(&Some("2026-02-30".into()), &Some("2026-09-02T12:00:00Z".into()), "x").unwrap_err(),
        PlanError::InvalidBusinessDate
    );
    assert_eq!(
        plan_generation(&None, &Some("2026-09-02 12:00".into()), "x").unwrap_err(),
        PlanError::InvalidTimestamp
    );
}

#[test]
fn elapsed_time_truncates_toward_zero_like_chrono() {
    for (a, b) in [
        ("2026-09-02T12:00:00Z", "2026-09-01T11:00:01Z"),
        ("2026-09-02T12:00:00Z", "2026-09-01T11:00:00Z"),
        ("2026-09-02T12:00:00Z", "2026-09-02T13:30:00Z"),
        ("2026-09-02T12:00:00Z", "2026-09-02T12:30:00Z"),
        ("2026-09-02T12:00:00.5Z", "2026-09-02T12:00:01Z"),
        ("2026-09-02T12:00:00Z", "2026-09-02T11:59:59.999Z"),
        ("2026-09-02T15:00:00+03:00", "2026-09-02T11:00:00Z"),
    ] {
        let (x, y) = (instant(a), instant(b));
        let d = chrono_at(a) - chrono_at(b);
        assert_eq!(elapsed_whole_hours(x, y), d.num_hours(), "{a} - {b}");
        assert_eq!(elapsed_whole_seconds(x, y), d.num_seconds(), "{a} - {b}");
        assert_eq!(elapsed_nanoseconds(x, y), d.num_nanoseconds().unwrap() as i128, "{a} - {b}");
    }
}

#[test]
fn elapsed_time_counts_a_leap_second() {
    let a = "2016-12-31T23:59:60.5Z";
    let b = "2016-12-31T23:59:59Z";
    let (x, y) = (instant(a), instant(b));
    let d = chrono_at(a) - chrono_at(b);
    assert_eq!(elapsed_nanoseconds(x, y), d.num_nanoseconds().unwrap() as i128);
    assert_eq!(elapsed_whole_seconds(x, y), d.num_seconds());
    assert_eq!(elapsed_nanoseconds(y, x), -(d.num_nanoseconds().unwrap() as i128));
}

#[test]
fn text_helpers() {
    assert!(text_eq("Günün", "Günün"));
    assert!(!text_eq("Günün", "Gunun"));
    assert_eq!(owned("abc"), "abc");
    assert_eq!(counted(-42, ""), "-42");
    assert_eq!(counted(0, " maç"), "0 maç");
    assert_eq!(counted(i64::MIN, ""), "-9223372036854775808");
    assert_eq!(publication("d", Some(1234567), None).unwrap().id, "d:base:1234567:btts:1234567");
    assert_eq!(join_with_spaces(&vec!["a".into(), "b".into(), "c".into()]), "a b c");
    assert_eq!(join_with_spaces(&vec![]), "");
    assert_eq!(trim("\u{a0} x y \t\n"), "x y");
    assert_eq!(trim("   "), "");
    assert!(white_space('\u{3000}'));
    assert!(!white_space('x'));
}
