use arz_predictor::btts_pipeline::{
    audit_tally, AuditTally,
    btts_exclusion, cutoff_source, exclusion_detail, selected_count, BttsExclusion, BttsFixture, BttsQuote,
    CutoffSource,
};
use arz_predictor::candidate_engine::ExclusionReason;
use arz_predictor::clock::Instant;

fn parse_rfc3339(text: &str) -> Option<Instant> {
    let t = chrono::DateTime::parse_from_rfc3339(text).ok()?;
    Some(Instant { seconds: t.timestamp(), nanos: t.timestamp_subsec_nanos() })
}

fn ready() -> BttsFixture {
    BttsFixture {
        resolved: true,
        kickoff_known: true,
        history_home: 10,
        history_away: 10,
        has_yes_probability: true,
        has_no_probability: true,
        pair_valid: true,
        yes_quote: Some(BttsQuote { odd_valid: true, captured_at: "2026-09-13T11:00:00Z".into() }),
        yes_calibrated: false,
        raw_yes_alias: true,
        in_candidate_pool: true,
        candidate_rejection: None,
    }
}

#[test]
fn each_excluded_fixture_has_one_primary_reason() {
    let cutoff = parse_rfc3339("2026-09-13T12:00:00Z").unwrap();
    assert_eq!(btts_exclusion(&ready(), cutoff), Ok(None));
    let mut f = ready();
    f.resolved = false;
    f.history_home = 0;
    assert_eq!(btts_exclusion(&f, cutoff), Ok(Some(BttsExclusion::Unresolved)));
    f = ready();
    f.kickoff_known = false;
    assert_eq!(btts_exclusion(&f, cutoff), Ok(Some(BttsExclusion::Other)));
    f = ready();
    f.history_away = 4;
    assert_eq!(btts_exclusion(&f, cutoff), Ok(Some(BttsExclusion::InsufficientHistory)));
    f = ready();
    f.has_no_probability = false;
    assert_eq!(btts_exclusion(&f, cutoff), Ok(Some(BttsExclusion::NoBttsPrediction)));
    f = ready();
    f.pair_valid = false;
    assert_eq!(btts_exclusion(&f, cutoff), Ok(Some(BttsExclusion::PoorModelQuality)));
    f = ready();
    f.yes_quote = None;
    assert_eq!(btts_exclusion(&f, cutoff), Ok(Some(BttsExclusion::NoBttsOdds)));
    f = ready();
    f.yes_quote = Some(BttsQuote { odd_valid: false, captured_at: "2026-09-13T11:00:00Z".into() });
    assert_eq!(btts_exclusion(&f, cutoff), Ok(Some(BttsExclusion::InvalidOdds)));
    f = ready();
    f.in_candidate_pool = false;
    f.candidate_rejection = Some(ExclusionReason::CorrelationReduction);
    assert_eq!(btts_exclusion(&f, cutoff), Ok(Some(BttsExclusion::Duplicate)));
    f.candidate_rejection = Some(ExclusionReason::NegativeModelQuality);
    assert_eq!(btts_exclusion(&f, cutoff), Ok(Some(BttsExclusion::PoorModelQuality)));
    f.candidate_rejection = Some(ExclusionReason::LowDataQuality);
    assert_eq!(btts_exclusion(&f, cutoff), Ok(Some(BttsExclusion::InsufficientHistory)));
    f.candidate_rejection = None;
    assert_eq!(btts_exclusion(&f, cutoff), Ok(Some(BttsExclusion::Other)));
}

#[test]
fn btts_quotes_go_stale_after_a_day() {
    let mut f = ready();
    f.yes_quote = Some(BttsQuote { odd_valid: true, captured_at: "2026-09-13T12:00:00Z".into() });
    let day_later = parse_rfc3339("2026-09-14T12:00:00Z").unwrap();
    assert_eq!(btts_exclusion(&f, day_later), Ok(None));
    let just_after = parse_rfc3339("2026-09-14T12:00:01Z").unwrap();
    assert_eq!(btts_exclusion(&f, just_after), Ok(Some(BttsExclusion::StaleOdds)));
    assert_eq!(BttsExclusion::StaleOdds.as_str(), "STALE_ODDS");
    f.yes_quote = Some(BttsQuote { odd_valid: true, captured_at: "yesterday".into() });
    assert_eq!(btts_exclusion(&f, day_later), Err(()));
}

#[test]
fn details_and_coupon_size() {
    assert_eq!(
        exclusion_detail(BttsExclusion::Other, true),
        "Match started, cancelled, unknown kickoff, or unavailable at this cutoff"
    );
    assert_eq!(
        exclusion_detail(BttsExclusion::NoBttsOdds, true),
        "Raw YES alias exists but normalized mapping is missing"
    );
    assert_eq!(exclusion_detail(BttsExclusion::NoBttsOdds, false), "NO_BTTS_ODDS");
    assert_eq!(selected_count(4), 0);
    assert_eq!(selected_count(5), 5);
    assert_eq!(selected_count(6), 6);
    assert_eq!(selected_count(10), 7);
}

#[test]
fn audit_cutoff_comes_from_the_request_publication_or_clock() {
    assert_eq!(cutoff_source(Some("2026-09-13T12:00:00Z"), "2026-09-13", "2026-09-13"), Ok(CutoffSource::Given));
    assert_eq!(cutoff_source(Some("noon"), "2026-09-13", "2026-09-13"), Err(()));
    assert_eq!(cutoff_source(None, "2026-09-12", "2026-09-13"), Ok(CutoffSource::Published));
    assert_eq!(cutoff_source(None, "2026-09-13", "2026-09-13"), Ok(CutoffSource::Now));
}

#[test]
fn audit_tallies_account_for_every_ready_fixture() {

    let cutoff = parse_rfc3339("2026-09-13T12:00:00Z").unwrap();
    let mut fixtures = vec![ready(); 6];
    fixtures[0].resolved = false;
    fixtures[1].yes_quote = None;
    fixtures[2].pair_valid = false;
    fixtures[3].yes_calibrated = true;
    let t = audit_tally(&fixtures, cutoff).unwrap();
    assert_eq!(
        t,
        AuditTally {
            fixtures: 6,
            current_matches_with_yes_odds: 5,
            mapping_failed_matches: 1,
            prediction_ready: 5,
            btts_probability: 5,
            calibrated_btts_probability: 1,
            public_btts_fallback: 4,
            pair_sum_failures: 1,
            btts_odds: 5,
            valid_yes_mapping: 4,
            invalid_input_survivors: 3,
            excluded: 2,
            ranking_pool: 3,
            selected: 0,
        }
    );
    assert_eq!(t.excluded + t.ranking_pool, t.prediction_ready);
    let t = audit_tally(&vec![ready(); 9], cutoff).unwrap();
    assert_eq!((t.ranking_pool, t.selected), (9, 7));
    let t = audit_tally(&vec![ready(); 5], cutoff).unwrap();
    assert_eq!(t.selected, 5);
    let mut broken = ready();
    broken.yes_quote = Some(BttsQuote { odd_valid: true, captured_at: "noon".into() });
    assert_eq!(audit_tally(&vec![ready(), broken], cutoff), Err(()));
    assert_eq!(audit_tally(&vec![], cutoff).unwrap().fixtures, 0);
}
