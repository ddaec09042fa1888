use sha2::Digest;
use arz_predictor::candidate_engine::{
    category_at, category_summaries, category_summary, correlation_type, daily_goal_category, lineup_choice,
    lineup_family, lineup_run_fingerprint, plan_generation, publish_action, reduce_and_rank, reject, revision_context,
    selected_run, uncovered_reason, CandidateEvidence, CoverageGap, ExclusionReason, GenerationPlan,
    PlanError, PoolEntry, PredictionSource, PublishAction, RevisionMarket, RevisionReference, ThresholdChecks,
};
use arz_predictor::candidate_engine::{
    check_run_date, run_to_read, run_verdicts, source_match_counts, status, LatestRun, ReadError,
};
use arz_predictor::coupons::LineKey;

/// The policy comparisons made on a prediction's floating-point values.
fn checks(public: f64, odd: f64, observed: Option<f64>, n: Option<usize>) -> ThresholdChecks {
    let edge = public - 1.0 / odd;
    let severe = match (observed, n) {
        (Some(o), Some(n)) if n > 0 => {
            o.is_finite()
                && (0.0..=1.0).contains(&o)
                && public - o > 0.20
                && public - o > 3.0 * (public * (1.0 - public) / n as f64).sqrt()
        }
        _ => false,
    };
    ThresholdChecks {
        odd_valid: odd.is_finite() && odd > 1.0,
        probability_valid: public.is_finite() && (0.0..=1.0).contains(&public),
        severe_overconfidence: severe,
        corners_coverage_sufficient: false,
        corners_low_probability: public < 0.50,
        over_35_low_probability: public < 0.52,
        over_35_no_edge: edge <= 0.0,
        high_confidence_low_probability: public < 0.75,
        surprise_low_probability: odd < 2.0 || public < 0.42,
        surprise_low_edge: edge < 0.05,
        compound_low_probability: public < 0.72,
        compound_odd_outside_range: odd < 1.10 || odd > 1.50,
    }
}

struct Input {
    market: &'static str,
    selection: &'static str,
    line: Option<f64>,
    public: f64,
    status: String,
    observed: Option<f64>,
    n: Option<usize>,
    quality_json: String,
    goal_identity_valid: bool,
    kickoff_known: bool,
    odd: f64,
    captured: String,
}

fn input(category: &str) -> Input {
    let btts = category == "BTTS_YES";
    Input {
        market: if btts { "BTTS" } else { "TOTAL_GOALS" },
        selection: if btts { "YES" } else { "OVER" },
        line: if btts { None } else { Some(2.5) },
        public: 0.58,
        status: "UNCALIBRATED_V1".into(),
        observed: None,
        n: None,
        quality_json: r#"{"history_matches_home":10,"history_matches_away":10}"#.into(),
        goal_identity_valid: true,
        kickoff_known: true,
        odd: 1.5,
        captured: "2026-09-02T11:00:00Z".into(),
    }
}

fn evidence(p: &Input) -> CandidateEvidence {
    CandidateEvidence {
        market: p.market.into(),
        selection: p.selection.into(),
        line: match p.line {
            None => LineKey::Absent,
            Some(x) if x.is_nan() => LineKey::NotANumber,
            Some(x) => LineKey::Number(x.to_bits()),
        },
        calibration_status: p.status.clone(),
        bucket_sample_size: p.n,
        availability: "AVAILABLE".into(),
        match_status: "scheduled".into(),
        quality_json: p.quality_json.clone(),
        goal_identity_valid: p.goal_identity_valid,
        kickoff_known: p.kickoff_known,
        generated_at: "2026-09-02T12:00:00Z".into(),
        odds_captured_at: p.captured.clone(),
        checks: checks(p.public, p.odd, p.observed, p.n),
    }
}

fn reason(p: &Input, category: &str) -> Option<&'static str> {
    reject(&evidence(p), category).map(|r| r.as_str())
}

#[test]
fn daily_goals_admit_low_probability_negative_ev_without_weakening_high_confidence() {
    for category in ["OVER_25", "BTTS_YES"] {
        let mut p = input(category);
        assert!(p.public * p.odd < 1.0);
        assert_eq!(reason(&p, category), None);
        assert_eq!(reason(&p, "HIGH_CONFIDENCE"), Some("LOW_PUBLIC_PROBABILITY"));
        p.public = 0.75;
        assert_eq!(reason(&p, "HIGH_CONFIDENCE"), Some("CALIBRATION_INSUFFICIENT"));
        p.status = "CALIBRATION_NOT_BENEFICIAL".into();
        p.n = Some(20);
        assert_eq!(reason(&p, "HIGH_CONFIDENCE"), None);
        p.n = Some(19);
        assert!(reason(&p, "HIGH_CONFIDENCE").is_some());
    }
}

#[test]
fn daily_goals_reject_invalid_stale_unresolved_and_proven_bad_inputs() {
    for category in ["OVER_25", "BTTS_YES"] {
        let mut x = input(category);
        x.goal_identity_valid = false;
        assert_eq!(reason(&x, category), Some("RESOLUTION_FAILED"));
        x = input(category);
        x.kickoff_known = false;
        assert_eq!(reason(&x, category), Some("KICKOFF_UNKNOWN"));
        x = input(category);
        x.quality_json = r#"{"history_matches_home":4,"history_matches_away":10}"#.into();
        assert_eq!(reason(&x, category), Some("INSUFFICIENT_HISTORY"));
        x = input(category);
        x.public = f64::NAN;
        assert_eq!(reason(&x, category), Some("INVALID_PROBABILITY"));
        x = input(category);
        x.public = 0.80;
        x.observed = Some(0.40);
        x.n = Some(100);
        assert_eq!(reason(&x, category), Some("NEGATIVE_MODEL_QUALITY"));
        x.n = Some(10);
        assert_eq!(reason(&x, category), None);
        let mut quote = input(category);
        quote.captured = "2026-09-01T11:00:00Z".into();
        assert_eq!(reason(&quote, category), Some("STALE_ODDS"));
        quote.captured = "2026-09-02T13:00:00Z".into();
        assert_eq!(reason(&quote, category), Some("INVALID_ODDS"));
    }
}

#[test]
fn other_pools_keep_their_market_rules() {
    let mut p = input("OVER_25");
    assert_eq!(reason(&p, "OVER_35"), Some("UNSUPPORTED_MARKET"));
    assert_eq!(reason(&p, "BTTS_YES"), Some("UNSUPPORTED_MARKET"));
    assert_eq!(reason(&p, "CORNERS"), Some("ODDS_MARKET_UNAVAILABLE"));
    assert_eq!(reason(&p, "SURPRISE"), Some("LOW_PUBLIC_PROBABILITY"));
    assert_eq!(reason(&p, "COMPOUND"), Some("LOW_PUBLIC_PROBABILITY"));
    assert_eq!(reason(&p, "PARLAY"), Some("UNSUPPORTED_MARKET"));
    p.line = Some(3.5);
    p.public = 0.60;
    p.odd = 1.8;
    assert_eq!(reason(&p, "OVER_35"), None);
    p.odd = 1.5;
    assert_eq!(reason(&p, "OVER_35"), Some("LOW_EDGE"));
    p.public = 0.80;
    p.odd = 1.30;
    p.status = "CALIBRATED_V1".into();
    p.n = Some(25);
    assert_eq!(reason(&p, "COMPOUND"), None);
    p.odd = 1.60;
    assert_eq!(reason(&p, "COMPOUND"), Some("ODDS_OUTSIDE_COMPOUND_RANGE"));
    p.odd = 0.9;
    assert_eq!(reason(&p, "COMPOUND"), Some("INVALID_ODDS"));
}

#[test]
fn corner_pool_needs_coverage_and_its_lines() {
    let mut p = input("OVER_25");
    p.market = "FULL_TIME_TOTAL_CORNERS";
    p.line = Some(9.5);
    p.public = 0.6;
    let mut e = evidence(&p);
    assert_eq!(reject(&e, "CORNERS").map(|r| r.as_str()), Some("LOW_DATA_QUALITY"));
    e.checks.corners_coverage_sufficient = true;
    assert_eq!(reject(&e, "CORNERS"), None);
    e.line = LineKey::Number(12.5f64.to_bits());
    assert_eq!(reject(&e, "CORNERS"), Some(ExclusionReason::OddsMarketUnavailable));
    e.line = LineKey::Number(9.5f64.to_bits());
    e.match_status = "finished".into();
    assert_eq!(reject(&e, "CORNERS"), Some(ExclusionReason::MatchFinished));
    e.match_status = "started".into();
    assert_eq!(reject(&e, "CORNERS"), Some(ExclusionReason::MatchStarted));
    e.match_status = "scheduled".into();
    e.availability = "UNAVAILABLE".into();
    assert_eq!(reject(&e, "CORNERS"), Some(ExclusionReason::ModelUnavailable));
}

#[test]
fn categories_families_and_correlations() {
    assert_eq!(category_at(0), "CORNERS");
    assert_eq!(category_at(6), "COMPOUND");
    assert!(daily_goal_category("OVER_25"));
    assert!(!daily_goal_category("OVER_35"));
    assert_eq!(lineup_family("COMPOUND"), "TOTAL_GOALS");
    assert_eq!(lineup_family("SURPRISE"), "MATCH_RESULT");
    assert_eq!(correlation_type("BTTS"), "BTTS_GOALS_CORRELATION");
    assert_eq!(correlation_type("MATCH_RESULT"), "NONE");
    assert_eq!(uncovered_reason(CoverageGap::ModelInputMissing), ExclusionReason::InsufficientHistory);
    assert_eq!(uncovered_reason(CoverageGap::Other).as_str(), "MODEL_PREDICTION_UNAVAILABLE");
}

#[test]
fn pools_keep_the_best_candidate_per_match_and_rank_from_one() {
    let e = |category, match_id| PoolEntry { category, match_id };
    let ranks = reduce_and_rank(&vec![e(1, 10), e(1, 11), e(1, 10), e(3, 10), e(1, 12), e(3, 10)]);
    assert_eq!(ranks, vec![Some(1), Some(2), None, Some(1), Some(3), None]);
}

#[test]
fn summaries_report_shortfalls() {
    let s = category_summary("OVER_25", 3, 2);
    assert_eq!(s.shortfall_reason.as_deref(), Some("Only 3 selections passed current quality policy."));
    assert_eq!(s.target_display_range, "5-10");
    assert_eq!(category_summary("OVER_25", 5, 0).shortfall_reason, None);
    let all = category_summaries(&vec![1, 1, 1, 1, 1, 0], &vec![0, 6], None);
    assert_eq!(all.len(), 7);
    assert_eq!(all[1].category, "OVER_25");
    assert_eq!(all[1].qualified_count, 5);
    assert_eq!(all[0].exclusion_count, 1);
    assert_eq!(all[6].shortfall_reason.as_deref(), Some("Only 0 selections passed current quality policy."));
    let one = category_summaries(&vec![1, 1], &vec![], Some(1));
    assert_eq!(one.len(), 1);
    assert_eq!(one[0].qualified_count, 2);
}

#[test]
fn lineup_provenance_follows_the_revision() {
    let active = Some(RevisionMarket { family_status: "ACTIVE".into(), fallback_reason: None });
    let c = lineup_choice(&active, "OVER_25");
    assert_eq!(c.source, PredictionSource::LineupAware);
    assert_eq!(c.family_status.as_deref(), Some("ACTIVE"));
    assert_eq!(c.fallback_reason, None);
    let held = Some(RevisionMarket { family_status: "INSUFFICIENT".into(), fallback_reason: None });
    let c = lineup_choice(&held, "BTTS_YES");
    assert_eq!(c.source.as_str(), "BASE_RETAINED");
    assert_eq!(c.fallback_reason.as_deref(), Some("BASE_RETAINED:BTTS"));
    let c = lineup_choice(&None, "CORNERS");
    assert_eq!(c.source, PredictionSource::Base);
    assert_eq!(c.family_status.as_deref(), Some("CORNERS"));
}

#[test]
fn generation_plans_follow_dates_and_cutoffs() {
    match plan_generation(&None, &Some("2026-09-01T21:30:00Z".into()), "2026-09-05T00:00:00Z") {
        Ok(GenerationPlan::Generate { business_date, generated_at }) => {
            assert_eq!(business_date, "2026-09-02");
            assert_eq!(generated_at, "2026-09-01T21:30:00+00:00");
        }
        other => panic!("unexpected {other:?}"),
    }
    match plan_generation(&Some("2026-09-01".into()), &None, "2026-09-02T12:00:00Z") {
        Ok(GenerationPlan::ReopenPublished { business_date }) => assert_eq!(business_date, "2026-09-01"),
        other => panic!("unexpected {other:?}"),
    }
    assert_eq!(plan_generation(&Some("2026-13-40".into()), &Some("2026-09-02T12:00:00Z".into()), "x").unwrap_err(), PlanError::InvalidBusinessDate);
    assert_eq!(plan_generation(&None, &Some("yesterday".into()), "x").unwrap_err(), PlanError::InvalidTimestamp);
}

#[test]
fn publication_is_never_hidden_by_an_empty_or_invalid_run() {
    assert_eq!(publish_action("BASE", false, false, true, false), PublishAction::Keep);
    assert_eq!(publish_action("BASE", false, false, false, false), PublishAction::ReplaceUnlessNewer);
    assert_eq!(publish_action("LINEUP_AWARE", true, false, false, false), PublishAction::Keep);
    assert_eq!(publish_action("LINEUP_AWARE", true, true, true, true), PublishAction::InsertIfAbsent);
    assert_eq!(selected_run(Some(9), &Some(("BASE".into(), true)), false, Some(3)), Some(9));
    assert_eq!(selected_run(Some(9), &Some(("BASE".into(), false)), false, Some(3)), Some(3));
    assert_eq!(selected_run(Some(9), &Some(("BASE".into(), false)), false, None), Some(9));
    assert_eq!(selected_run(Some(9), &Some(("LINEUP_AWARE".into(), true)), false, None), None);
    assert_eq!(selected_run(None, &None, true, Some(3)), None);
}

#[test]
fn fingerprints_hash_the_run_identity() {
    let context = revision_context(&vec![
        RevisionReference { match_id: 4, revision_id: 9, payload_hash: Some("ab".into()) },
        RevisionReference { match_id: 5, revision_id: 10, payload_hash: None },
    ]);
    assert_eq!(context, "4:9:ab;5:10:;");
    let a = lineup_run_fingerprint(3, "2026-09-02", "2026-09-02T12:00:00Z", "v2", &context);
    let b = lineup_run_fingerprint(3, "2026-09-02", "2026-09-02T12:00:00Z", "v2", &context);
    let c = lineup_run_fingerprint(4, "2026-09-02", "2026-09-02T12:00:00Z", "v2", &context);
    assert_eq!(a, b);
    assert_ne!(a, c);
    assert_eq!(a.len(), 64);
    let expected = format!(
        "{:x}",
        sha2::Sha256::digest("LINEUP_AWARE|3|2026-09-02|2026-09-02T12:00:00Z|v2|4:9:ab;5:10:;".as_bytes())
    );
    assert_eq!(a, expected);
}

#[test]
fn daily_odds_expire_at_exact_24_hour_boundary() {
    let mut quote = input("OVER_25");
    quote.odd = 2.0;
    quote.public = 0.80;
    quote.captured = "2026-09-01T11:59:59Z".into();
    assert_eq!(reason(&quote, "OVER_25"), Some("STALE_ODDS"));
    quote.captured = "2026-09-01T12:00:00Z".into();
    assert_eq!(reason(&quote, "OVER_25"), None);
}

#[test]
fn business_dates_are_istanbul_dates() {
    assert_eq!(arz_predictor::candidate_engine::BUSINESS_TIMEZONE, "Europe/Istanbul");
    let day_of = |cutoff: &str| match plan_generation(&None, &Some(cutoff.into()), "2026-09-05T00:00:00Z") {
        Ok(GenerationPlan::Generate { business_date, .. }) => Some(business_date),
        _ => None,
    };
    assert_eq!(day_of("2026-09-01T21:30:00Z").as_deref(), Some("2026-09-02"));
    assert_eq!(day_of("2026-09-01T20:59:59Z").as_deref(), Some("2026-09-01"));
    assert_eq!(day_of("not a time"), None);
}

fn named(v: &[(&str, usize)]) -> Vec<(String, usize)> {
    v.iter().map(|(k, n)| (k.to_string(), *n)).collect()
}

#[test]
fn engine_status_reports_the_latest_run() {
    let latest = LatestRun {
        id: 9,
        business_date: "2026-09-02".into(),
        generated_at: "2026-09-02T12:00:00Z".into(),
        matches_considered: 12,
        qualified_by_category: named(&[("BTTS_YES", 3), ("OVER_25", 7)]),
        rejected_by_reason: named(&[
            ("CALIBRATION_INSUFFICIENT", 2),
            ("INSUFFICIENT_BUCKET_SAMPLE", 1),
            ("ODDS_UNAVAILABLE", 4),
            ("STALE_ODDS", 5),
        ]),
        rejected_by_category: named(&[("CORNERS", 6), ("OVER_25", 6)]),
    };
    let s = status(Some("model_v1".into()), Some("model_v1_cal1".into()), Some(latest), 20);
    assert_eq!(s.active_model_version.as_deref(), Some("model_v1"));
    assert_eq!(s.active_model.as_deref(), Some("model_v1"));
    assert_eq!(s.calibration_status.as_deref(), Some("ACTIVE"));
    assert_eq!(s.candidate_policy_version, "candidate_policy_v2_daily_goal_ranking");
    assert_eq!(s.timezone, "Europe/Istanbul");
    assert_eq!((s.latest_run_id, s.latest_run), (Some(9), Some(9)));
    assert_eq!(s.business_date.as_deref(), Some("2026-09-02"));
    assert_eq!(s.latest_generated_at.as_deref(), Some("2026-09-02T12:00:00Z"));
    assert_eq!((s.matches_considered, s.matches_eligible_today, s.eligible_match_count), (12, 20, 20));
    let cats: Vec<(&str, usize, usize)> =
        s.category_counts.iter().map(|c| (c.category.as_str(), c.qualified_count, c.rejected_count)).collect();
    assert_eq!(cats, vec![
        ("CORNERS", 0, 6),
        ("OVER_25", 7, 6),
        ("OVER_35", 0, 0),
        ("BTTS_YES", 3, 0),
        ("HIGH_CONFIDENCE", 0, 0),
        ("SURPRISE", 0, 0),
        ("COMPOUND", 0, 0),
    ]);
    assert_eq!(s.total_rejected, 12);
    assert_eq!((s.missing_odds_count, s.stale_odds_count, s.model_unavailable_count), (4, 5, 0));
    assert_eq!((s.low_data_quality_count, s.calibration_insufficient_count), (0, 3));
    assert_eq!(s.qualified_counts.len(), 2);
    assert_eq!(s.rejected_counts_by_category.len(), 2);
}

#[test]
fn engine_status_without_a_run_is_empty() {
    let s = status(None, None, None, 0);
    assert_eq!((s.active_model, s.calibration_status), (None, None));
    assert_eq!(s.latest_run_id, None);
    assert!(s.category_counts.is_empty());
    assert_eq!(s.total_rejected, 0);
    assert_eq!(s.policy_version, "candidate_policy_v2_daily_goal_ranking");
}

#[test]
fn runs_count_matches_by_prediction_source() {
    let candidates = vec![(1, true), (1, true), (2, false), (3, false), (2, false), (1, false)];
    assert_eq!(source_match_counts(&candidates, None), (1, 3));
    assert_eq!(source_match_counts(&vec![], None), (0, 0));
    assert_eq!(source_match_counts(&candidates, Some((4, 10))), (4, 6));
    assert_eq!(source_match_counts(&candidates, Some((12, 10))), (12, 0));
}

#[test]
fn every_prediction_gets_one_verdict_per_category() {
    let good = evidence(&input("OVER_25"));
    let rows = run_verdicts(&vec![Some(good.clone()), None], None);
    assert_eq!(rows.len(), 2);
    assert!(rows.iter().all(|r| r.len() == 7));
    // Category order: CORNERS, OVER_25, OVER_35, BTTS_YES, HIGH_CONFIDENCE, SURPRISE, COMPOUND.
    assert_eq!(rows[0][1], None);
    assert_eq!(rows[0][3], Some(ExclusionReason::UnsupportedMarket));
    assert!(rows[1].iter().all(|v| *v == Some(ExclusionReason::OddsUnavailable)));
    let only = run_verdicts(&vec![Some(good)], Some(1));
    assert_eq!(only, vec![vec![None]]);
}

#[test]
fn reads_refuse_a_missing_run_and_another_date() {
    assert_eq!(run_to_read(Some(4), Some(9)), Ok(4));
    assert_eq!(run_to_read(None, Some(9)), Ok(9));
    assert_eq!(run_to_read(None, None), Err(ReadError::NoCandidateRun));
    assert_eq!(ReadError::NoCandidateRun.as_str(), "no candidate run");
    assert_eq!(check_run_date("2026-09-02", "2026-09-02"), Ok(()));
    assert_eq!(check_run_date("2026-09-02", "2026-09-01"), Err(ReadError::SourceRunDateMismatch));
    assert_eq!(ReadError::SourceRunDateMismatch.as_str(), "SOURCE_RUN_DATE_MISMATCH");
}
