use arz_predictor::clock::Instant;
use arz_predictor::features::{
    above_count, eligible, form_tally, market_state, matches_within_days, perspective, recent,
    reportable, training_label, LabelSource, MatchTiming, FEATURE_ENGINE_VERSION, LABEL_VERSION,
};

fn source(status: &str, goals: Option<(i64, i64)>, corners: Option<(i64, i64)>, cards: Option<(i64, i64)>) -> LabelSource {
    LabelSource {
        status: status.into(),
        home_goals: goals.map(|g| g.0),
        away_goals: goals.map(|g| g.1),
        home_corners: corners.map(|c| c.0),
        away_corners: corners.map(|c| c.1),
        home_yellow_cards: cards.map(|c| c.0),
        away_yellow_cards: cards.map(|c| c.1),
    }
}

fn flag(flags: &[(String, bool)], key: &str) -> bool {
    flags.iter().find(|(k, _)| k == key).map(|(_, v)| *v).unwrap()
}

#[test]
fn versions_are_fixed() {
    assert_eq!(FEATURE_ENGINE_VERSION, "fe_v1");
    assert_eq!(LABEL_VERSION, "label_v1");
}

#[test]
fn labels_of_a_finished_match_with_statistics() {
    let l = training_label(7, &source("finished", Some((7, 6)), Some((30, 29)), Some((9, 8)))).unwrap();
    assert_eq!(l.match_id, 7);
    assert_eq!(l.match_result, "HOME");
    assert_eq!(l.total_goals, 13);
    assert!(l.over_1_5 && l.over_2_5 && l.over_3_5 && l.btts);
    assert!(l.home_over_0_5 && l.home_over_1_5 && l.away_over_0_5 && l.away_over_1_5);
    assert_eq!(l.total_corners, Some(59));
    let corners = l.corner_thresholds.unwrap();
    let keys: Vec<&str> = corners.iter().map(|(k, _)| k.as_str()).collect();
    assert_eq!(keys, vec!["over_10_5", "over_11_5", "over_7_5", "over_8_5", "over_9_5"]);
    assert!(flag(&corners, "over_11_5"));
    assert_eq!(l.total_yellow_cards, Some(17));
    let cards = l.card_thresholds.unwrap();
    let keys: Vec<&str> = cards.iter().map(|(k, _)| k.as_str()).collect();
    assert_eq!(keys, vec!["over_2_5", "over_3_5", "over_4_5", "over_5_5", "over_6_5"]);
    assert!(flag(&cards, "over_6_5"));
}

#[test]
fn labels_follow_the_score_and_leave_missing_statistics_out() {
    let l = training_label(1, &source("finished", Some((1, 1)), None, Some((2, 1)))).unwrap();
    assert_eq!(l.match_result, "DRAW");
    assert_eq!(l.total_goals, 2);
    assert!(l.over_1_5 && !l.over_2_5 && !l.over_3_5 && l.btts);
    assert!(l.home_over_0_5 && !l.home_over_1_5);
    assert_eq!(l.total_corners, None);
    assert!(l.corner_thresholds.is_none());
    assert_eq!(l.total_yellow_cards, Some(3));
    let cards = l.card_thresholds.unwrap();
    assert!(flag(&cards, "over_2_5"));
    assert!(!flag(&cards, "over_3_5"));
    let l = training_label(2, &source("finished", Some((0, 2)), Some((4, 5)), None)).unwrap();
    assert_eq!(l.match_result, "AWAY");
    assert!(!l.btts && !l.home_over_0_5 && l.away_over_1_5);
    let corners = l.corner_thresholds.unwrap();
    assert!(flag(&corners, "over_8_5"));
    assert!(!flag(&corners, "over_9_5"));
    assert!(l.card_thresholds.is_none());
}

#[test]
fn unfinished_or_scoreless_matches_have_no_label() {
    assert!(training_label(1, &source("scheduled", Some((1, 0)), None, None)).is_none());
    assert!(training_label(1, &source("finished", None, None, None)).is_none());
}

fn timing(id: i64, kickoff: &str, date: &str, known: bool) -> MatchTiming {
    MatchTiming { id, kickoff_at: kickoff.into(), scheduled_local_date: Some(date.into()), kickoff_time_known: known }
}

#[test]
fn only_strictly_earlier_other_matches_feed_features() {
    let target = timing(10, "2026-08-20T15:00:00Z", "2026-08-20", true);
    assert!(!eligible(&target, &target));
    assert!(eligible(&target, &timing(1, "2026-08-20T14:59:59Z", "2026-08-20", true)));
    assert!(!eligible(&target, &timing(2, "2026-08-20T15:00:00Z", "2026-08-20", true)));
    assert!(!eligible(&target, &timing(3, "2026-08-21T15:00:00Z", "2026-08-21", true)));
    // A kickoff time that is not known falls back to the calendar date.
    assert!(!eligible(&target, &timing(4, "2026-08-20T10:00:00Z", "2026-08-20", false)));
    assert!(eligible(&target, &timing(5, "2026-08-19T23:00:00Z", "2026-08-19", false)));
    let unknown = timing(11, "2026-08-15T00:00:00Z", "2026-08-15", false);
    assert!(eligible(&unknown, &timing(6, "2026-08-14T15:00:00Z", "2026-08-14", true)));
    assert!(!eligible(&unknown, &timing(7, "2026-08-15T01:00:00Z", "2026-08-15", true)));
}

#[test]
fn calendar_dates_order_matches_without_a_known_kickoff() {
    let target = timing(20, "2026-03-01T12:00:00Z", "2026-03-01", false);
    assert!(eligible(&target, &timing(1, "2026-02-28T12:00:00Z", "2026-02-28", false)));
    assert!(eligible(&target, &timing(2, "2025-12-31T12:00:00Z", "2025-12-31", false)));
    assert!(!eligible(&target, &timing(3, "2026-03-02T12:00:00Z", "2026-03-02", false)));
    // A date that is not a calendar date never precedes anything.
    assert!(!eligible(&target, &timing(4, "2026-02-28T12:00:00Z", "2026-02-30", false)));
    assert!(!eligible(&target, &timing(5, "2026-02-28T12:00:00Z", "2026/02/28", false)));
}

#[test]
fn form_tally_partitions_results() {
    let t = form_tally(&vec![(2, 1), (0, 0), (1, 3), (3, 0), (0, 2)]);
    assert_eq!(t.sample_size, 5);
    assert_eq!((t.wins, t.draws, t.losses), (2, 1, 2));
    assert_eq!(t.wins + t.draws + t.losses, 5);
    assert_eq!((t.goals_for, t.goals_against), (6, 6));
    assert_eq!(t.clean_sheets, 2);
    assert_eq!(t.failed_to_score, 2);
    assert_eq!((t.over_1_5, t.over_2_5, t.over_3_5), (4, 3, 1));
    assert_eq!(t.btts, 2);
    let empty = form_tally(&vec![]);
    assert_eq!(empty.sample_size, 0);
}

#[test]
fn team_perspective_and_recent_window() {
    assert_eq!(perspective(4, 2, 1, 4), (2, 1, true));
    assert_eq!(perspective(4, 2, 1, 9), (1, 2, false));
    let history = vec![(1, 0), (2, 0), (3, 0), (4, 0)];
    assert_eq!(recent(&history, 2), vec![(4, 0), (3, 0)]);
    assert_eq!(recent(&history, 10), vec![(4, 0), (3, 0), (2, 0), (1, 0)]);
    assert!(recent(&history, 0).is_empty());
}

#[test]
fn lines_and_samples() {
    let totals = vec![8, 9, 10, 11, 12];
    assert_eq!(above_count(&totals, 9), 3);
    assert_eq!(above_count(&totals, 11), 1);
    assert!(above_count(&totals, 11) <= above_count(&totals, 9));
    assert!(!reportable(2));
    assert!(reportable(3));
}

#[test]
fn recent_load_counts_whole_days_before_the_target() {
    let t = |s: &str| {
        let x = chrono::DateTime::parse_from_rfc3339(s).unwrap();
        Instant { seconds: x.timestamp(), nanos: x.timestamp_subsec_nanos() }
    };
    let target = t("2026-08-20T15:00:00Z");
    let times = vec![
        t("2026-08-19T15:00:00Z"),
        t("2026-08-13T15:00:00Z"),
        t("2026-08-12T15:00:00Z"),
        t("2026-08-12T14:59:59Z"),
        t("2026-08-21T15:00:00Z"),
    ];
    assert_eq!(matches_within_days(&times, target, 7), 2);
    assert_eq!(matches_within_days(&times, target, 1), 1);
    assert_eq!(matches_within_days(&times, target, 14), 4);
}

#[test]
fn market_support_states() {
    assert_eq!(market_state(50, false), "SOURCE_NOT_AVAILABLE");
    assert_eq!(market_state(10, true), "SUPPORTED");
    assert_eq!(market_state(3, true), "PARTIAL");
    assert_eq!(market_state(2, true), "INSUFFICIENT_HISTORY");
}
