use arz_predictor::ingestion::{statistics_upsert_outcome, ImportedStatistics};
use arz_predictor::series::{
    cancel_series, compound_step_gate, settle_series_result, start_series, SeriesError, SeriesState, SeriesStatus,
    KATLAMA_MAX_STEP,
};
use arz_predictor::settlement::LegResult;

#[test]
fn a_series_starts_at_step_one_with_a_positive_stake() {
    let s = start_series(10000, false).unwrap();
    assert_eq!(s.status, SeriesStatus::Active);
    assert_eq!((s.current_step, s.starting_stake_cents, s.current_stake_cents), (1, 10000, 10000));
    assert_eq!((s.completed_steps, s.reset_count), (0, 0));
    assert_eq!(start_series(0, false), Err(SeriesError::InvalidStartingStake));
    assert_eq!(start_series(10000, true), Err(SeriesError::ActiveSeriesExists));
    assert_eq!(SeriesError::ActiveSeriesExists.as_str(), "ACTIVE_SERIES_EXISTS");
}

#[test]
fn wins_roll_over_losses_restart_and_voids_retry() {
    let s = start_series(10000, false).unwrap();
    let won = settle_series_result(&s, Some("UNSETTLED"), true, "WON", 16000).unwrap();
    assert_eq!(won.mark_latest_step, Some(LegResult::Won));
    assert_eq!((won.state.current_step, won.state.current_stake_cents, won.state.completed_steps), (2, 16000, 1));
    let lost = settle_series_result(&won.state, Some("UNSETTLED"), true, "LOST", 0).unwrap();
    assert_eq!(lost.mark_latest_step, Some(LegResult::Lost));
    assert_eq!((lost.state.current_step, lost.state.current_stake_cents, lost.state.reset_count), (1, 10000, 1));
    assert_eq!(lost.state.status, SeriesStatus::Active);
    let void = settle_series_result(&won.state, Some("UNSETTLED"), true, "VOID", 0).unwrap();
    assert_eq!(void.state, won.state);
    assert_eq!(void.mark_latest_step, Some(LegResult::Void));
    assert_eq!(
        settle_series_result(&won.state, Some("UNSETTLED"), true, "MAYBE", 0),
        Err(SeriesError::InvalidSeriesResult)
    );
    assert_eq!(SeriesError::NoStepCoupon.as_str(), "NO_STEP_COUPON");
}

#[test]
fn the_final_step_completes_and_a_settled_step_is_not_settled_again() {
    let mut s = start_series(10000, false).unwrap();
    let mut stake = 10000;
    for _ in 0..KATLAMA_MAX_STEP {
        stake += 1000;
        s = settle_series_result(&s, Some("UNSETTLED"), true, "WON", stake).unwrap().state;
    }
    assert_eq!(s.status, SeriesStatus::Completed);
    assert_eq!(s.completed_steps, KATLAMA_MAX_STEP);
    assert_eq!(s.current_step, KATLAMA_MAX_STEP);
    assert_eq!(compound_step_gate(s.status), Err(SeriesError::SeriesCompleted));
    let frozen = settle_series_result(&s, Some("UNSETTLED"), true, "LOST", 0).unwrap();
    assert_eq!((frozen.state, frozen.mark_latest_step), (s, None));
    let active = start_series(10000, false).unwrap();
    assert_eq!(
        settle_series_result(&active, Some("WON"), true, "LOST", 0),
        Err(SeriesError::StepAlreadySettled)
    );
}

#[test]
fn cancelling_stops_only_an_active_series() {
    let s = start_series(5000, false).unwrap();
    let c = cancel_series(&s);
    assert_eq!(c.status, SeriesStatus::Cancelled);
    assert_eq!(c.current_stake_cents, 5000);
    assert_eq!(compound_step_gate(c.status), Err(SeriesError::SeriesNotActive));
    assert_eq!(compound_step_gate(SeriesStatus::Active), Ok(()));
    let done = SeriesState { status: SeriesStatus::Completed, ..s };
    assert_eq!(cancel_series(&done), done);
    assert_eq!(SeriesStatus::parse("CANCELLED"), Some(SeriesStatus::Cancelled));
    assert_eq!(SeriesStatus::parse("cancelled"), None);
    assert_eq!(SeriesStatus::Completed.as_str(), "COMPLETED");
}

#[test]
fn reimported_statistics_keep_figures_the_import_lacks() {
    let stored = ImportedStatistics { home_shots: Some(10), home_corners: Some(6), ..Default::default() };
    let import = ImportedStatistics { home_shots: Some(12), away_corners: Some(4), ..Default::default() };
    let merged = import.merged_over(&stored);
    assert_eq!(merged.home_shots, Some(12));
    assert_eq!(merged.home_corners, Some(6));
    assert_eq!(merged.away_corners, Some(4));
    assert_eq!(merged.away_shots, None);
    let twice = import.merged_over(&merged);
    assert_eq!((twice.home_shots, twice.home_corners, twice.away_corners), (Some(12), Some(6), Some(4)));
    assert!(import.has_any_value());
    assert!(!ImportedStatistics::default().has_any_value());
    assert_eq!(statistics_upsert_outcome(&import, false), Some(true));
    assert_eq!(statistics_upsert_outcome(&import, true), Some(false));
    assert_eq!(statistics_upsert_outcome(&ImportedStatistics::default(), true), None);
}

#[test]
fn series_without_a_step_coupon_stays_at_step_one() {
    // A series without a step coupon cannot advance, and stays at step one.
    let s = start_series(10000, false).unwrap();
    assert!(settle_series_result(&s, None, false, "WON", 16000).is_err());
    assert_eq!(settle_series_result(&s, None, true, "WON", 16000), Err(SeriesError::NoStepCoupon));
    assert_eq!(s.current_step, 1);
}

#[test]
fn a_settled_step_refuses_a_later_void() {
    let s = start_series(10000, false).unwrap();
    let won = settle_series_result(&s, Some("UNSETTLED"), true, "WON", 13000).unwrap();
    let after_win = won.state;
    assert_eq!(after_win.current_step, 2);
    assert_eq!(after_win.current_stake_cents, 13000);
    // The step is settled: a later void for it is refused and the series keeps its step and stake.
    assert!(settle_series_result(&after_win, Some("WON"), false, "VOID", 0).is_err());
    assert_eq!(settle_series_result(&after_win, Some("WON"), true, "VOID", 0), Err(SeriesError::StepAlreadySettled));
    assert_eq!(after_win.current_step, 2);
    assert_eq!(start_series(10000, true), Err(SeriesError::ActiveSeriesExists));
    let cancelled = cancel_series(&after_win);
    assert_eq!(cancelled.status, SeriesStatus::Cancelled);
    assert_eq!(compound_step_gate(cancelled.status), Err(SeriesError::SeriesNotActive));
    assert_eq!(cancel_series(&cancelled).status, SeriesStatus::Cancelled);
}

#[test]
fn an_open_step_moves_only_through_its_coupon() {
    let s = start_series(10000, false).unwrap();
    assert_eq!(
        settle_series_result(&s, Some("UNSETTLED"), false, "WON", 100000),
        Err(SeriesError::StepCouponNotSettled)
    );
    assert_eq!(SeriesError::StepAlreadySettled.as_str(), "STEP_ALREADY_SETTLED");
    assert_eq!(SeriesError::StepCouponNotSettled.as_str(), "STEP_COUPON_NOT_SETTLED");
}
