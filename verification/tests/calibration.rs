use arz_predictor::calibration::{
    actual, calibration_version, contains, family, family_plan, fit_partition, result_index, walk_forward_folds,
    BacktestError, ConfusionMatrix, FamilyPlan, Fold, OutcomeLabels, ThresholdLine, MIN_CALIBRATION_SAMPLES,
    MIN_INITIAL_TRAINING_ROWS, TEST_WINDOW,
};
use arz_predictor::coupons::LineKey;

#[test]
fn folds_are_consecutive_windows_after_the_training_rows() {
    assert_eq!(walk_forward_folds(109), Err(BacktestError::InsufficientBacktestData));
    assert_eq!(walk_forward_folds(0), Err(BacktestError::InsufficientBacktestData));
    assert_eq!(walk_forward_folds(110).unwrap(), vec![Fold { start: 100, end: 110 }]);
    let folds = walk_forward_folds(125).unwrap();
    assert_eq!(folds, vec![
        Fold { start: 100, end: 110 },
        Fold { start: 110, end: 120 },
        Fold { start: 120, end: 125 },
    ]);
    for f in &folds {
        assert!(f.start >= MIN_INITIAL_TRAINING_ROWS);
        assert!(f.end - f.start <= TEST_WINDOW);
    }
}

#[test]
fn fitting_half_is_the_earlier_half_of_distinct_matches() {
    // Matches 1..=4 give a fitting half of matches 1 and 2.
    let ids = vec![3, 1, 1, 4, 2, 3];
    assert_eq!(fit_partition(&ids), vec![false, true, true, false, true, false]);
    // Three distinct matches: one fits, two evaluate.
    assert_eq!(fit_partition(&vec![5, 7, 9]), vec![true, false, false]);
    assert_eq!(fit_partition(&vec![5, 5]), vec![false, false]);
    assert!(fit_partition(&vec![]).is_empty());
}

#[test]
fn families_by_market() {
    assert_eq!(family("MATCH_RESULT"), "MATCH_RESULT");
    assert_eq!(family("BTTS"), "BTTS");
    assert_eq!(family("TOTAL_GOALS"), "TOTAL_GOALS");
    assert_eq!(family("HOME_TEAM_TOTAL_GOALS"), "TEAM_TOTAL_GOALS");
    assert_eq!(family("HOME_TEAM_CORNERS"), "TEAM_CORNERS");
    assert_eq!(family("FULL_TIME_TOTAL_CORNERS"), "TOTAL_CORNERS");
    assert_eq!(family("FULL_TIME_TOTAL_CARDS"), "TOTAL_CARDS");
    assert_eq!(family("DOUBLE_CHANCE"), "OTHER");
    assert!(contains("FULL_TIME_TOTAL_CORNERS", "CORNERS"));
    assert!(!contains("CORN", "CORNERS"));
    assert!(contains("abc", ""));
}

#[test]
fn fitting_needs_enough_samples() {
    assert_eq!(family_plan(MIN_CALIBRATION_SAMPLES), FamilyPlan::Fit);
    assert_eq!(family_plan(19), FamilyPlan::SkippedInsufficientData);
}

#[test]
fn result_positions_and_versions() {
    assert_eq!(result_index("HOME"), 0);
    assert_eq!(result_index("DRAW"), 1);
    assert_eq!(result_index("AWAY"), 2);
    assert_eq!(calibration_version(None, "walk_base"), "walk_base_cal1");
    assert_eq!(calibration_version(Some("walk_v1"), "walk_base"), "walk_v1");
    let m = ConfusionMatrix::default();
    assert_eq!(m.home, [0, 0, 0]);
    assert_eq!(m.away, [0, 0, 0]);
}

fn labels() -> OutcomeLabels {
    OutcomeLabels {
        over_1_5: true,
        over_2_5: true,
        over_3_5: false,
        btts: true,
        home_over_0_5: true,
        home_over_1_5: true,
        away_over_0_5: true,
        away_over_1_5: false,
        total_corners: Some(10),
        total_yellow_cards: Some(4),
        home_corners: Some(6),
        away_corners: None,
    }
}

fn line(x: f64) -> LineKey {
    LineKey::Number(x.to_bits())
}

#[test]
fn outcomes_follow_the_labels() {
    let l = labels();
    let none = ThresholdLine::Absent;
    assert_eq!(actual(&l, "HOME", "MATCH_RESULT", "HOME", LineKey::Absent, none), Some(true));
    assert_eq!(actual(&l, "HOME", "MATCH_RESULT", "DRAW", LineKey::Absent, none), Some(false));
    assert_eq!(actual(&l, "HOME", "BTTS", "YES", LineKey::Absent, none), Some(true));
    assert_eq!(actual(&l, "HOME", "BTTS", "NO", LineKey::Absent, none), Some(false));
    assert_eq!(actual(&l, "HOME", "TOTAL_GOALS", "OVER", line(2.5), none), Some(true));
    assert_eq!(actual(&l, "HOME", "TOTAL_GOALS", "UNDER", line(3.5), none), Some(true));
    assert_eq!(actual(&l, "HOME", "TOTAL_GOALS", "OVER", line(4.5), none), None);
    assert_eq!(actual(&l, "HOME", "HOME_TEAM_TOTAL_GOALS", "OVER", line(0.5), none), Some(true));
    assert_eq!(actual(&l, "HOME", "AWAY_TEAM_TOTAL_GOALS", "OVER", line(1.5), none), Some(false));
    assert_eq!(
        actual(&l, "HOME", "FULL_TIME_TOTAL_CORNERS", "OVER", line(9.5), ThresholdLine::Floor(9)),
        Some(true)
    );
    assert_eq!(
        actual(&l, "HOME", "FULL_TIME_TOTAL_CORNERS", "UNDER", line(9.5), ThresholdLine::Floor(9)),
        Some(false)
    );
    assert_eq!(
        actual(&l, "HOME", "FULL_TIME_TOTAL_CARDS", "OVER", line(4.5), ThresholdLine::Floor(4)),
        Some(false)
    );
    assert_eq!(
        actual(&l, "HOME", "FULL_TIME_TOTAL_CARDS", "UNDER", LineKey::NotANumber, ThresholdLine::NotANumber),
        Some(false)
    );
    assert_eq!(
        actual(&l, "HOME", "AWAY_TEAM_CORNERS", "OVER", line(4.5), ThresholdLine::Floor(4)),
        None
    );
    assert_eq!(actual(&l, "HOME", "HALF_TIME", "OVER", line(0.5), none), None);
}
