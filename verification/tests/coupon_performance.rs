use chrono::Datelike;
use arz_predictor::coupon_performance::{
    counted_outcome, financial_totals, system_totals, CouponRow, katlama_totals, row_included, season_start_year, step_tally, steps_through, wants_summary,
    window_start, FinancialMode, PerformanceWindow, SeriesStepRow, SettledFigures, StepTally,
};
use arz_predictor::settlement::LegState;

fn day(text: &str) -> i32 {
    chrono::NaiveDate::parse_from_str(text, "%Y-%m-%d").unwrap().num_days_from_ce()
}

fn step(series_id: i64, step: usize, date: &str, stake: i64, result: LegState, gross: i64) -> SeriesStepRow {
    SeriesStepRow { series_id, step, day: day(date), stake_cents: stake, result, gross_return_cents: gross }
}

fn steps() -> Vec<SeriesStepRow> {
    let mut v = vec![
        step(1, 1, "2026-08-20", 10000, LegState::Lost, 0),
        step(1, 1, "2026-08-22", 10000, LegState::Won, 16000),
        step(1, 2, "2026-08-23", 16000, LegState::Won, 25600),
        step(1, 3, "2026-08-24", 25600, LegState::Unsettled, 0),
    ];
    let mut stake: i64 = 10000;
    for n in 1..=7usize {
        let gross = if n == 7 { 26800 } else { (stake as f64 * 1.1).round() as i64 };
        v.push(step(2, n, &format!("2026-08-{}", 24 + n), stake, LegState::Won, gross));
        stake = gross;
    }
    v
}

#[test]
fn phase10_1_katlama_rollover_counts_only_step_one_external_stake() {
    let rows = steps_through(&steps(), day("2026-09-04"));
    let k = katlama_totals(&rows, None);
    assert_eq!(
        (k.sequences_started, k.active_sequences, k.failed_sequences, k.completed_sequences),
        (3, 1, 1, 1)
    );
    assert_eq!(k.highest_reached_step, Some(7));
    assert!((k.reached_step_sum as f64 / k.sequences_started as f64 - 11.0 / 3.0).abs() < 1e-12);
    assert_eq!(
        (k.total_initial_stake_cents, k.realized_initial_stake_cents, k.total_realized_return_cents),
        (30000, 20000, 26800)
    );
    assert_eq!(k.total_realized_return_cents - k.realized_initial_stake_cents, 6800);
    let roi = (k.total_realized_return_cents - k.realized_initial_stake_cents) as f64 / k.realized_initial_stake_cents as f64;
    assert_eq!(Some(roi), Some(6800.0 / 20000.0));
    let first: Vec<LegState> = rows.iter().filter(|s| s.step == 1).map(|s| s.result).collect();
    let t = step_tally(&first);
    assert_eq!((t.attempts, t.wins, t.losses), (3, 2, 1));
    let seventh: Vec<LegState> = rows.iter().filter(|s| s.step == 7).map(|s| s.result).collect();
    assert_eq!(step_tally(&seventh).attempts, 1);
}

#[test]
fn sequences_before_the_window_are_left_out() {
    let rows = steps();
    let k = katlama_totals(&rows, Some(day("2026-08-21")));
    assert_eq!((k.sequences_started, k.active_sequences, k.failed_sequences, k.completed_sequences), (2, 1, 0, 1));
    assert_eq!(k.total_initial_stake_cents, 20000);
    assert_eq!(k.realized_initial_stake_cents, 10000);
    let early = steps_through(&rows, day("2026-08-23"));
    assert_eq!(early.len(), 3);
    let k = katlama_totals(&early, None);
    assert_eq!((k.sequences_started, k.active_sequences, k.failed_sequences), (2, 1, 1));
    assert_eq!(k.highest_reached_step, Some(2));
    let none = katlama_totals(&vec![], None);
    assert_eq!(none.sequences_started, 0);
    assert_eq!(none.highest_reached_step, None);
}

#[test]
fn windows_and_seasons() {
    let to = day("2026-09-04");
    assert_eq!(window_start(PerformanceWindow::Last7Days, to, 0), Some(day("2026-08-29")));
    assert_eq!(window_start(PerformanceWindow::Last30Days, to, 0), Some(day("2026-08-06")));
    let season = day("2026-07-01");
    assert_eq!(window_start(PerformanceWindow::Season, to, season), Some(season));
    assert_eq!(window_start(PerformanceWindow::AllTime, to, season), None);
    assert_eq!(season_start_year(2026, 9), 2026);
    assert_eq!(season_start_year(2026, 7), 2026);
    assert_eq!(season_start_year(2026, 6), 2025);
    assert_eq!(FinancialMode::Realized.as_str(), "REALIZED");
}

#[test]
fn rows_follow_window_type_and_system_filters() {
    let to = day("2026-09-04");
    let from = Some(day("2026-08-29"));
    assert!(row_included("DAILY_OVER_25", day("2026-09-01"), from, to, None, true));
    assert!(!row_included("DAILY_OVER_25", day("2026-08-28"), from, to, None, true));
    assert!(!row_included("DAILY_OVER_25", day("2026-09-05"), from, to, None, true));
    assert!(!row_included("DAILY_OVER_25", day("2026-09-01"), from, to, Some("DAILY_BTTS"), true));
    assert!(!row_included("DAILY_COMPOUND", day("2026-09-01"), None, to, None, true));
    assert!(row_included("DAILY_SURPRISE_SYSTEM", day("2026-09-01"), None, to, None, true));
    assert!(!row_included("DAILY_SURPRISE_SYSTEM", day("2026-09-01"), None, to, None, false));
    assert!(wants_summary(None, None, "DAILY_COMPOUND"));
    assert!(!wants_summary(Some(false), None, "DAILY_COMPOUND"));
    assert!(!wants_summary(None, Some("DAILY_BTTS"), "DAILY_COMPOUND"));
    assert!(wants_summary(Some(true), Some("DAILY_COMPOUND"), "DAILY_COMPOUND"));
}

#[test]
fn system_coupons_count_by_their_columns() {
    let s = SettledFigures {
        status: LegState::Lost,
        total_columns: 14,
        winning_columns: 1,
        losing_columns: 13,
        void_columns: 0,
        total_stake_cents: 14000,
        gross_return_cents: 9000,
    };
    assert_eq!(counted_outcome("DAILY_SURPRISE_SYSTEM", &s), LegState::Won);
    assert_eq!(counted_outcome("DAILY_OVER_25", &s), LegState::Lost);
    let lost = SettledFigures { winning_columns: 0, ..s };
    assert_eq!(counted_outcome("DAILY_SURPRISE_SYSTEM", &lost), LegState::Lost);
    let void = SettledFigures { winning_columns: 0, losing_columns: 0, ..s };
    assert_eq!(counted_outcome("DAILY_SURPRISE_SYSTEM", &void), LegState::Void);
    let t: StepTally = step_tally(&vec![LegState::Won, LegState::Void, LegState::Lost, LegState::Won]);
    assert_eq!((t.attempts, t.wins, t.losses, t.voids), (4, 2, 1, 1));
}

fn figures(status: LegState, columns: (usize, usize, usize, usize), stake: i64, gross: i64) -> SettledFigures {
    SettledFigures {
        status,
        winning_columns: columns.0,
        losing_columns: columns.1,
        void_columns: columns.2,
        total_columns: columns.3,
        total_stake_cents: stake,
        gross_return_cents: gross,
    }
}

/// The report's coupons (drafts and cancelled coupons are never read), with
/// their dates.
fn coupons() -> Vec<(&'static str, &'static str, CouponRow)> {
    let row = |kind: &str, settled: bool, settlement: Option<SettledFigures>| CouponRow {
        coupon_type: kind.into(),
        settled,
        settlement,
    };
    vec![
        ("DAILY_HIGH_CONFIDENCE", "2026-09-01", row("DAILY_HIGH_CONFIDENCE", true, Some(figures(LegState::Won, (1, 0, 0, 1), 10000, 16000)))),
        ("DAILY_OVER_25", "2026-08-20", row("DAILY_OVER_25", true, Some(figures(LegState::Lost, (0, 1, 0, 1), 10000, 0)))),
        ("DAILY_OVER_25", "2026-09-02", row("DAILY_OVER_25", true, Some(figures(LegState::Void, (0, 0, 1, 1), 5000, 5000)))),
        ("DAILY_HIGH_CONFIDENCE", "2026-09-02", row("DAILY_HIGH_CONFIDENCE", false, None)),
        ("DAILY_SURPRISE_SYSTEM", "2026-09-03", row("DAILY_SURPRISE_SYSTEM", true, Some(figures(LegState::Won, (1, 6, 0, 7), 7000, 9000)))),
        ("DAILY_SURPRISE_SYSTEM", "2026-08-25", row("DAILY_SURPRISE_SYSTEM", true, Some(figures(LegState::Void, (0, 7, 0, 7), 7000, 0)))),
        ("DAILY_CORNERS", "2026-06-01", row("DAILY_CORNERS", true, Some(figures(LegState::Void, (0, 0, 1, 1), 0, 0)))),
    ]
}

fn in_window(window: PerformanceWindow, requested: Option<&str>) -> Vec<CouponRow> {
    let to = day("2026-09-04");
    let from = window_start(window, to, day("2026-07-01"));
    coupons()
        .into_iter()
        .filter(|(kind, date, _)| row_included(kind, day(date), from, to, requested, true))
        .map(|(_, _, row)| row)
        .collect()
}

#[test]
fn portfolio_figures_follow_windows_and_types() {
    let all = financial_totals(&in_window(PerformanceWindow::AllTime, None));
    assert_eq!((all.coupon_count, all.settled_count), (7, 6));
    assert_eq!((all.won_count, all.lost_count, all.void_count), (2, 2, 2));
    assert_eq!(all.won_count as f64 / (all.won_count + all.lost_count) as f64, 0.5);
    assert_eq!((all.total_stake_cents, all.total_gross_return_cents), (39000, 30000));
    assert_eq!(all.total_gross_return_cents - all.total_stake_cents, -9000);
    assert_eq!(all.total_stake_cents as f64 / all.settled_count as f64, 6500.0);
    assert_eq!(financial_totals(&in_window(PerformanceWindow::AllTime, Some("DAILY_OVER_25"))).coupon_count, 2);
    let systems = financial_totals(&in_window(PerformanceWindow::AllTime, Some("DAILY_SURPRISE_SYSTEM")));
    assert_eq!(systems.won_count as f64 / (systems.won_count + systems.lost_count) as f64, 0.5);
    assert_eq!(financial_totals(&in_window(PerformanceWindow::Last7Days, None)).coupon_count, 4);
    assert_eq!(financial_totals(&in_window(PerformanceWindow::Last30Days, None)).coupon_count, 6);
    assert_eq!(financial_totals(&in_window(PerformanceWindow::Season, None)).coupon_count, 6);
}

#[test]
fn phase10_1_system_uses_persisted_columns_and_total_stake_once() {
    let s = system_totals(&in_window(PerformanceWindow::AllTime, None));
    assert_eq!((s.system_coupon_count, s.settled_system_coupon_count), (2, 2));
    assert_eq!((s.total_columns, s.winning_columns, s.losing_columns, s.void_columns), (14, 1, 13, 0));
    let net = s.total_gross_return_cents - s.total_stake_cents;
    assert_eq!((s.total_stake_cents, s.total_gross_return_cents, net), (14000, 9000, -5000));
    let roi = (s.total_stake_cents > 0).then_some(net as f64 / s.total_stake_cents as f64);
    assert_eq!(roi, Some(-5000.0 / 14000.0));
    let none = system_totals(&vec![]);
    assert_eq!(none.system_coupon_count, 0);
}
