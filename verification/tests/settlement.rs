use arz_predictor::coupons::SelectionOutcome;
use arz_predictor::settlement::{
    column_state, leg_states, status_after_settlement, recorded_settlement, reported_outcomes, settlement_gate, RecordedSettlement, SettleRequestError, SettlementGate,
    audit_state, outcome, parse_leg_state, pending_reason_text, selection_decision, settle_coupon, ColumnSettlement,
    FinalResult, LegResult, LegState, MarketLine, PendingReason, SettleError,
};

/// The settlement line of a decimal line, as the product reads quoted lines.
fn line(value: Option<f64>) -> MarketLine {
    match value {
        Some(x) if x.is_finite() => {
            if (x * 2.0).fract() == 0.0 {
                MarketLine::HalfPoints((x * 2.0) as i64)
            } else {
                MarketLine::Fractional
            }
        }
        _ => MarketLine::Missing,
    }
}

fn named(r: Result<LegResult, SettleError>) -> Result<&'static str, &'static str> {
    match r {
        Ok(x) => Ok(x.as_str()),
        Err(e) => Err(e.as_str()),
    }
}

#[test]
fn supported_results_and_missing_corners() {
    for (m, s, l, h, a, c, result) in [
        ("MATCH_RESULT", "HOME", None, 2, 1, None, Ok("WON")),
        ("MATCH_RESULT", "DRAW", None, 1, 1, None, Ok("WON")),
        ("MATCH_RESULT", "AWAY", None, 2, 1, None, Ok("LOST")),
        ("TOTAL_GOALS", "OVER", Some(2.5), 2, 1, None, Ok("WON")),
        ("TOTAL_GOALS", "OVER", Some(3.5), 2, 1, None, Ok("LOST")),
        ("TOTAL_GOALS", "OVER", Some(3.5), 2, 2, None, Ok("WON")),
        ("BTTS", "YES", None, 2, 1, None, Ok("WON")),
        ("BTTS", "YES", None, 2, 0, None, Ok("LOST")),
        ("FULL_TIME_TOTAL_CORNERS", "OVER", Some(8.5), 2, 1, None, Err("FINAL_CORNERS_UNAVAILABLE")),
        ("FULL_TIME_TOTAL_CORNERS", "UNDER", Some(10.5), 2, 1, Some(9), Ok("WON")),
        ("FULL_TIME_TOTAL_CORNERS", "OVER", Some(9.0), 2, 1, Some(9), Ok("VOID")),
    ] {
        assert_eq!(named(outcome(m, s, line(l), h, a, c)), result);
    }
}

#[test]
fn unsupported_inputs_are_reported_not_settled() {
    assert_eq!(named(outcome("MATCH_RESULT", "X", MarketLine::Missing, 1, 0, None)), Err("UNSUPPORTED_SELECTION"));
    assert_eq!(named(outcome("TOTAL_GOALS", "OVER", MarketLine::Missing, 1, 0, None)), Err("SELECTION_LINE_MISSING"));
    assert_eq!(named(outcome("TOTAL_GOALS", "OVER", line(Some(2.25)), 1, 0, None)), Err("UNSUPPORTED_ASIAN_LINE"));
    assert_eq!(named(outcome("TOTAL_GOALS", "EXACT", line(Some(2.5)), 1, 0, None)), Err("UNSUPPORTED_SELECTION"));
    assert_eq!(named(outcome("HANDICAP", "HOME", MarketLine::Missing, 1, 0, None)), Err("UNSUPPORTED_MARKET"));
    assert_eq!(named(outcome("BOTH_TEAMS_TO_SCORE", "NO", MarketLine::Missing, 1, 0, None)), Ok("WON"));
    assert_eq!(named(outcome("CORNERS_TOTAL", "UNDER", line(Some(9.5)), 0, 0, Some(12))), Ok("LOST"));
}

#[test]
fn own_result_or_unique_result_settles_a_selection() {
    let own = FinalResult { match_id: 7, home_goals: 2, away_goals: 1, corners: None };
    let other = FinalResult { match_id: 8, home_goals: 0, away_goals: 0, corners: None };
    let d = selection_decision(7, &vec![own, other], false, "MATCH_RESULT", "HOME", MarketLine::Missing);
    assert_eq!(d, Ok(LegResult::Won));
    let d = selection_decision(7, &vec![other], false, "MATCH_RESULT", "DRAW", MarketLine::Missing);
    assert_eq!(d, Ok(LegResult::Won));
    let d = selection_decision(7, &vec![other, other], false, "MATCH_RESULT", "HOME", MarketLine::Missing);
    assert_eq!(d, Err(PendingReason::AmbiguousFinalResult));
    assert_eq!(audit_state(&d), "PENDING_DATA");
    assert_eq!(pending_reason_text(PendingReason::AmbiguousFinalResult), "AMBIGUOUS_FINAL_RESULT");
    let d = selection_decision(7, &vec![], true, "MATCH_RESULT", "HOME", MarketLine::Missing);
    assert_eq!(d, Err(PendingReason::AwaitingMatchCompletion));
    assert_eq!(audit_state(&d), "PENDING");
    let d = selection_decision(7, &vec![], false, "MATCH_RESULT", "HOME", MarketLine::Missing);
    assert_eq!(d, Err(PendingReason::FinalResultUnavailable));
    let d = selection_decision(7, &vec![own], false, "FULL_TIME_TOTAL_CORNERS", "OVER", line(Some(8.5)));
    assert_eq!(d, Err(PendingReason::Unsettleable(SettleError::FinalCornersUnavailable)));
    assert_eq!(pending_reason_text(PendingReason::Unsettleable(SettleError::FinalCornersUnavailable)), "FINAL_CORNERS_UNAVAILABLE");
    assert_eq!(audit_state(&Ok(LegResult::Void)), "VOID");
}

#[test]
fn leg_states_parse_by_name() {
    assert_eq!(parse_leg_state("WON"), Some(LegState::Won));
    assert_eq!(parse_leg_state("UNSETTLED"), Some(LegState::Unsettled));
    assert_eq!(parse_leg_state("PENDING"), None);
}

fn col(state: LegState, won: i64) -> ColumnSettlement {
    ColumnSettlement { state, won_return_cents: won }
}

#[test]
fn accumulator_settles_from_its_single_column() {
    let r = settle_coupon(5, false, &vec![col(LegState::Won, 2500)], Some(1000), Some(1000));
    assert_eq!(r.status, "WON");
    assert_eq!(r.total_columns, 1);
    assert_eq!(r.total_stake_cents, 1000);
    assert_eq!(r.gross_return_cents, 2500);
    assert_eq!(r.profit_loss_cents, 1500);
    let r = settle_coupon(5, false, &vec![col(LegState::Void, 0)], Some(1000), Some(1000));
    assert_eq!(r.status, "VOID");
    assert_eq!(r.gross_return_cents, 1000);
    let r = settle_coupon(5, false, &vec![col(LegState::Lost, 0)], Some(1000), Some(1000));
    assert_eq!((r.status.as_str(), r.gross_return_cents, r.profit_loss_cents), ("LOST", 0, -1000));
}

#[test]
fn system_coupon_pays_each_winning_column_and_refunds_voids() {
    let mut cols = vec![col(LegState::Lost, 0); 27];
    cols[0] = col(LegState::Won, 32000);
    cols[1] = col(LegState::Void, 0);
    let r = settle_coupon(9, true, &cols, Some(27000), Some(1000));
    assert_eq!(r.total_columns, 29 - 2);
    assert_eq!(r.winning_columns, 1);
    assert_eq!(r.void_columns, 1);
    assert_eq!(r.losing_columns, 25);
    assert_eq!(r.gross_return_cents, 33000);
    assert_eq!(r.total_stake_cents, 27000);
    assert_eq!(r.status, "WON");
    let pending = settle_coupon(9, true, &vec![col(LegState::Unsettled, 0), col(LegState::Lost, 0)], Some(2000), Some(1000));
    assert_eq!(pending.unsettled_columns, 1);
    assert_eq!(pending.status, "UNSETTLED");
}

#[test]
fn settlement_requests_need_a_final_coupon_and_known_results() {
    assert_eq!(settlement_gate("SETTLED"), Ok(SettlementGate::ReturnStored));
    assert_eq!(settlement_gate("FINALIZED"), Ok(SettlementGate::Settle));
    assert_eq!(settlement_gate("DRAFT"), Err(SettleRequestError::CouponNotFinalized));
    assert_eq!(SettleRequestError::CouponNotFinalized.as_str(), "COUPON_NOT_FINALIZED");
    let outcome = |id: i64, result: &str| SelectionOutcome { candidate_id: id, result: result.into() };
    assert_eq!(
        reported_outcomes(&vec![outcome(1, "WON"), outcome(2, "VOID"), outcome(1, "UNSETTLED")]),
        Ok(vec![(1, LegState::Won), (2, LegState::Void), (1, LegState::Unsettled)])
    );
    assert_eq!(
        reported_outcomes(&vec![outcome(1, "WON"), outcome(2, "won")]),
        Err(SettleRequestError::InvalidSettlementResult)
    );
    assert_eq!(SettleRequestError::InvalidSettlementResult.as_str(), "INVALID_SETTLEMENT_RESULT");
    assert_eq!(reported_outcomes(&vec![]), Ok(vec![]));
}

/// Settles a system coupon of legs priced at 2.0 with a unit stake of 1000
/// cents, from the result of each leg.
fn settle_system(results: &[LegState], sizes: Vec<usize>) -> arz_predictor::settlement::SettlementResult {
    let ids: Vec<i64> = (1..=results.len() as i64).collect();
    let outcomes: Vec<(i64, LegState)> = ids.iter().copied().zip(results.iter().copied()).collect();
    let columns = arz_predictor::coupons::system_columns(&ids, &sizes);
    let settled: Vec<ColumnSettlement> = columns
        .iter()
        .map(|col| {
            let legs = leg_states(&col.candidate_ids, &outcomes);
            let won = legs.iter().filter(|s| **s == LegState::Won).count() as i32;
            ColumnSettlement {
                state: column_state(&legs),
                won_return_cents: (1000.0 * 2.0f64.powi(won)).round() as i64,
            }
        })
        .collect();
    settle_coupon(9, true, &settled, Some(1000 * columns.len() as i64), Some(1000))
}

#[test]
fn system_payouts_follow_their_columns() {
    let all = settle_system(&[LegState::Won; 6], vec![5, 6]);
    assert_eq!((all.total_columns, all.gross_return_cents, all.total_stake_cents), (7, 256000, 7000));
    assert_eq!(all.profit_loss_cents, 249000);
    let all = settle_system(&[LegState::Won; 7], vec![5, 6, 7]);
    assert_eq!((all.total_columns, all.gross_return_cents, all.total_stake_cents), (29, 1248000, 29000));
    let partial = settle_system(&[LegState::Won, LegState::Won, LegState::Won, LegState::Won, LegState::Won, LegState::Lost], vec![5, 6]);
    assert_eq!(partial.gross_return_cents, 32000);
    assert_eq!(partial.status, "WON");
    let partial = settle_system(&[LegState::Won, LegState::Won, LegState::Won, LegState::Won, LegState::Won, LegState::Lost, LegState::Lost], vec![5, 6, 7]);
    assert_eq!(partial.gross_return_cents, 32000);
    let mixed = settle_system(&[LegState::Won, LegState::Won, LegState::Won, LegState::Won, LegState::Won, LegState::Void], vec![5, 6]);
    assert_eq!(mixed.gross_return_cents, 144000);
    let mixed = settle_system(&[LegState::Won, LegState::Won, LegState::Won, LegState::Won, LegState::Won, LegState::Won, LegState::Void], vec![5, 6, 7]);
    assert_eq!(mixed.gross_return_cents, 752000);
    let voided = settle_system(&[LegState::Void; 6], vec![5, 6]);
    assert_eq!((voided.gross_return_cents, voided.profit_loss_cents), (7000, 0));
    assert_eq!(voided.status, "VOID");
    let voided = settle_system(&[LegState::Void; 7], vec![5, 6, 7]);
    assert_eq!(voided.gross_return_cents, 29000);
    let pending = settle_system(&[LegState::Won, LegState::Won, LegState::Won, LegState::Won, LegState::Won, LegState::Unsettled], vec![5, 6]);
    assert!(pending.unsettled_columns > 0);
    assert_eq!(pending.status, "UNSETTLED");
}

#[test]
fn coupons_without_a_stake_keep_only_their_outcome() {

    let won = settle_coupon(5, false, &vec![ColumnSettlement { state: LegState::Won, won_return_cents: 0 }], None, None);
    assert_eq!(won.status, "WON");
    match recorded_settlement(None, won.clone()) {
        RecordedSettlement::StakeNotRecorded { status } => assert_eq!(status, "WON"),
        other => panic!("unexpected {other:?}"),
    }
    match recorded_settlement(Some(1000), won) {
        RecordedSettlement::Money(x) => assert_eq!(x.coupon_id, 5),
        other => panic!("unexpected {other:?}"),
    }
}

#[test]
fn a_stored_settlement_answers_later_requests() {
    let done = settle_coupon(3, false, &vec![ColumnSettlement { state: LegState::Lost, won_return_cents: 0 }], Some(1000), None);
    assert_eq!(status_after_settlement(&done), "SETTLED");
    assert_eq!(settlement_gate(status_after_settlement(&done)), Ok(SettlementGate::ReturnStored));
    let open = settle_coupon(3, false, &vec![ColumnSettlement { state: LegState::Unsettled, won_return_cents: 0 }], Some(1000), None);
    assert_eq!(status_after_settlement(&open), "FINALIZED");
    assert_eq!(settlement_gate(status_after_settlement(&open)), Ok(SettlementGate::Settle));
}
