use arz_predictor::coupons::{
    draft_selection, DraftError,
    all_types, category, check_replacement, combinations, coupon_total_stake, daily_pool, display_name,
    finalize_check, first_per_match, generated_system_sizes, impact_type, lines_equal, report_types,
    report_unavailable_reason, report_verdict, require_draft, system_columns, unavailable_reason,
    valid_system_sizes, validate_selection_set, CompoundOdds, LineKey, ReplacementError, ReportVerdict,
    RunCandidate, SelectionError, SelectionKey, StoredCandidate,
};

fn key(id: i64, match_id: i64, market: &str, line: Option<f64>) -> SelectionKey {
    SelectionKey {
        id,
        match_id,
        market: market.into(),
        line: match line {
            None => LineKey::Absent,
            Some(x) => LineKey::Number(x.to_bits()),
        },
    }
}

#[test]
fn zero_selection_draft_is_not_a_usable_coupon() {
    let result = validate_selection_set("DAILY_CORNERS", &vec![], CompoundOdds::InRange);
    assert!(result.is_err());
    assert_eq!(result.unwrap_err(), SelectionError::EmptySelectionSet);
}

#[test]
fn same_match_pairs_name_their_conflict() {
    let nested = vec![key(1, 10, "TOTAL_GOALS", Some(2.5)), key(2, 10, "TOTAL_GOALS", Some(3.5))];
    assert_eq!(validate_selection_set("DAILY_OVER_25", &nested, CompoundOdds::InRange), Err(SelectionError::NestedTotalConflict));
    let btts = vec![key(1, 10, "BTTS", None), key(2, 10, "TOTAL_GOALS", Some(2.5))];
    assert_eq!(validate_selection_set("DAILY_BTTS", &btts, CompoundOdds::InRange), Err(SelectionError::BttsGoalsConflict));
    let corners = vec![
        key(1, 10, "FULL_TIME_TOTAL_CORNERS", Some(8.5)),
        key(2, 10, "FULL_TIME_TOTAL_CORNERS", Some(9.5)),
    ];
    assert_eq!(
        validate_selection_set("DAILY_CORNERS", &corners, CompoundOdds::InRange),
        Err(SelectionError::NestedCornersConflict)
    );
    let same = vec![key(1, 10, "TOTAL_GOALS", Some(2.5)), key(2, 10, "TOTAL_GOALS", Some(2.5))];
    assert_eq!(validate_selection_set("DAILY_OVER_25", &same, CompoundOdds::InRange), Err(SelectionError::SameMatchConflict));
    assert_eq!(SelectionError::SameMatchConflict.as_str(), "SAME_MATCH_CONFLICT");
}

#[test]
fn system_and_compound_sizes_are_enforced() {
    let six: Vec<SelectionKey> = (1..=6).map(|i| key(i, i, "TOTAL_GOALS", Some(2.5))).collect();
    assert_eq!(validate_selection_set("DAILY_SURPRISE_SYSTEM", &six, CompoundOdds::InRange), Ok(vec![5, 6]));
    let seven: Vec<SelectionKey> = (1..=7).map(|i| key(i, i, "TOTAL_GOALS", Some(2.5))).collect();
    assert_eq!(validate_selection_set("DAILY_SURPRISE_SYSTEM", &seven, CompoundOdds::InRange), Ok(vec![5, 6, 7]));
    assert_eq!(
        validate_selection_set("DAILY_SURPRISE_SYSTEM", &six[..5].to_vec(), CompoundOdds::InRange),
        Err(SelectionError::InvalidSystemSelectionCount)
    );
    assert_eq!(
        validate_selection_set("DAILY_COMPOUND", &six[..1].to_vec(), CompoundOdds::InRange),
        Err(SelectionError::InvalidCompoundSelectionCount)
    );
    assert_eq!(
        validate_selection_set("DAILY_COMPOUND", &six[..2].to_vec(), CompoundOdds::BelowMinimum),
        Err(SelectionError::CompoundOddsBelowMinimum)
    );
    assert_eq!(
        validate_selection_set("DAILY_COMPOUND", &six[..3].to_vec(), CompoundOdds::AboveMaximum),
        Err(SelectionError::CompoundOddsAboveMaximum)
    );
    assert_eq!(validate_selection_set("DAILY_COMPOUND", &six[..3].to_vec(), CompoundOdds::InRange), Ok(vec![]));
    assert_eq!(validate_selection_set("DAILY_OVER_25", &six, CompoundOdds::InRange), Ok(vec![]));
}

#[test]
fn system_columns_are_every_combination_numbered_in_order() {
    assert_eq!(combinations(&vec![1, 2, 3], 2), vec![vec![1, 2], vec![1, 3], vec![2, 3]]);
    assert_eq!(combinations(&vec![1, 2], 3), Vec::<Vec<i64>>::new());
    let six: Vec<i64> = (1..=6).collect();
    let cols = system_columns(&six, &vec![5, 6]);
    assert_eq!(cols.len(), 7);
    assert_eq!((cols[0].column_number, cols[0].system_size), (1, 5));
    assert_eq!(cols[0].candidate_ids, vec![1, 2, 3, 4, 5]);
    assert_eq!((cols[6].column_number, cols[6].system_size), (7, 6));
    assert_eq!(cols[6].candidate_ids, six);
    let seven: Vec<i64> = (1..=7).collect();
    assert_eq!(system_columns(&seven, &vec![5, 6, 7]).len(), 29);
    assert_eq!(coupon_total_stake(Some(1000), true, 29), Some(29000));
    assert_eq!(coupon_total_stake(Some(1000), false, 29), Some(1000));
    assert_eq!(coupon_total_stake(None, true, 7), None);
    assert!(valid_system_sizes(&vec![5, 6]));
    assert!(valid_system_sizes(&vec![5, 6, 7]));
    assert!(!valid_system_sizes(&vec![6, 7]));
    assert_eq!(generated_system_sizes("DAILY_SURPRISE_SYSTEM"), vec![5, 6, 7]);
    assert!(generated_system_sizes("DAILY_BTTS").is_empty());
}

#[test]
fn coupon_types_categories_and_titles() {
    assert_eq!(all_types().len(), 7);
    assert_eq!(category("DAILY_BTTS"), Some("BTTS_YES"));
    assert_eq!(category("DAILY_SURPRISE_SYSTEM"), Some("SURPRISE"));
    assert_eq!(category("WEEKLY"), None);
    assert_eq!(display_name("DAILY_OVER_25"), "Günün 2.5 Üst Kuponu");
    assert_eq!(display_name("WEEKLY"), "Günün Kuponu");
    assert_eq!(unavailable_reason("DAILY_COMPOUND"), "NO_QUALIFYING_COMPOUND_COUPON");
    assert_eq!(unavailable_reason("DAILY_CORNERS"), "INSUFFICIENT_QUALIFIED_CANDIDATES");
}

#[test]
fn daily_pools_take_one_selection_per_match() {
    assert_eq!(first_per_match(&vec![4, 4, 5, 6, 5]), vec![0, 2, 3]);
    assert_eq!(daily_pool("DAILY_OVER_25", &vec![1, 1, 2]), Some(vec![0, 2]));
    assert_eq!(daily_pool("DAILY_SURPRISE_SYSTEM", &vec![1, 2, 3, 4, 5]), None);
    assert_eq!(daily_pool("DAILY_SURPRISE_SYSTEM", &vec![1, 2, 3, 4, 5, 6, 7, 8]), Some(vec![0, 1, 2, 3, 4, 5, 6]));
}

#[test]
fn lines_compare_as_numbers() {
    assert!(lines_equal(LineKey::Absent, LineKey::Absent));
    assert!(lines_equal(LineKey::Number(2.5f64.to_bits()), LineKey::Number(2.5f64.to_bits())));
    assert!(!lines_equal(LineKey::Number(2.5f64.to_bits()), LineKey::Number(3.5f64.to_bits())));
    assert!(!lines_equal(LineKey::NotANumber, LineKey::NotANumber));
    assert!(!lines_equal(LineKey::Absent, LineKey::Number(2.5f64.to_bits())));
}

fn stored(id: i64, run_id: i64, category: &str, state: &str) -> StoredCandidate {
    StoredCandidate { id, run_id, category: category.into(), qualification_state: state.into() }
}

#[test]
fn replacements_are_checked_candidate_by_candidate() {
    let run = vec![
        RunCandidate { id: 1, category: "OVER_25".into() },
        RunCandidate { id: 2, category: "OVER_25".into() },
        RunCandidate { id: 3, category: "BTTS_YES".into() },
    ];
    let all = vec![
        stored(1, 7, "OVER_25", "QUALIFIED"),
        stored(2, 7, "OVER_25", "QUALIFIED"),
        stored(3, 7, "BTTS_YES", "QUALIFIED"),
        stored(4, 8, "OVER_25", "QUALIFIED"),
        stored(5, 7, "OVER_25", "REJECTED"),
        stored(6, 7, "CORNERS", "REJECTED"),
    ];
    assert_eq!(check_replacement(&vec![2, 1], &run, &all, 7, "OVER_25"), Ok(vec![1, 0]));
    assert_eq!(check_replacement(&vec![], &run, &all, 7, "OVER_25"), Ok(vec![]));
    assert_eq!(
        check_replacement(&vec![2, 2], &run, &all, 7, "OVER_25"),
        Err(ReplacementError::DuplicateCandidate)
    );
    assert_eq!(check_replacement(&vec![3], &run, &all, 7, "OVER_25"), Err(ReplacementError::WrongCategory));
    assert_eq!(
        check_replacement(&vec![999999], &run, &all, 7, "OVER_25"),
        Err(ReplacementError::CandidateNotFound)
    );
    assert_eq!(
        check_replacement(&vec![4], &run, &all, 7, "OVER_25"),
        Err(ReplacementError::CandidateFromDifferentRun)
    );
    assert_eq!(
        check_replacement(&vec![5], &run, &all, 7, "OVER_25"),
        Err(ReplacementError::CandidateNotQualified)
    );
    assert_eq!(check_replacement(&vec![6], &run, &all, 7, "OVER_25"), Err(ReplacementError::WrongCategory));
    // The first failing candidate decides.
    assert_eq!(
        check_replacement(&vec![1, 4, 3], &run, &all, 7, "OVER_25"),
        Err(ReplacementError::CandidateFromDifferentRun)
    );
    assert_eq!(ReplacementError::CandidateFromDifferentRun.as_str(), "CANDIDATE_FROM_DIFFERENT_RUN");
    assert_eq!(require_draft("DRAFT"), Ok(()));
    assert_eq!(require_draft("FINALIZED"), Err(ReplacementError::CouponNotDraft));
    assert_eq!(finalize_check(false, "FINALIZED"), Ok(()));
    assert_eq!(finalize_check(true, "DRAFT"), Ok(()));
    assert_eq!(finalize_check(false, "SETTLED"), Err(ReplacementError::CouponNotDraft));
}

#[test]
fn lineup_revision_impacts() {
    assert_eq!(impact_type("QUALIFIED", "REJECTED", true), "NO_LONGER_QUALIFIED");
    assert_eq!(impact_type("QUALIFIED", "QUALIFIED", true), "STILL_QUALIFIED");
    assert_eq!(impact_type("REJECTED", "REJECTED", true), "PROBABILITY_CHANGED");
    assert_eq!(impact_type("QUALIFIED", "QUALIFIED", false), "UNCHANGED");
}

#[test]
fn phase8_daily_report_never_omits_unavailable_types() {
    let types = report_types(&None);
    assert_eq!(types.len(), 7);
    for kind in &types {
        let verdict = report_verdict(kind, true, false);
        assert_eq!(verdict, ReportVerdict::Insufficient);
        assert!(report_unavailable_reason(kind, verdict).is_some());
    }
    assert_eq!(
        report_unavailable_reason("DAILY_SURPRISE_SYSTEM", ReportVerdict::Insufficient),
        Some("INSUFFICIENT_QUALIFIED_SURPRISE_SELECTIONS")
    );
    assert_eq!(
        report_unavailable_reason("DAILY_COMPOUND", ReportVerdict::Insufficient),
        Some("NO_QUALIFYING_COMPOUND_COUPON")
    );
    assert_eq!(types.iter().filter(|k| display_name(k).starts_with("Günün")).count(), 7);
    assert_eq!(report_types(&Some("DAILY_BTTS".into())), vec!["DAILY_BTTS".to_string()]);
    assert_eq!(report_verdict("WEEKLY", true, true), ReportVerdict::InvalidCouponType);
    assert_eq!(report_unavailable_reason("WEEKLY", ReportVerdict::InvalidCouponType), Some("INVALID_COUPON_TYPE"));
    assert_eq!(report_verdict("DAILY_BTTS", false, true), ReportVerdict::SourceCandidateRunNotFound);
    assert_eq!(
        report_unavailable_reason("DAILY_BTTS", ReportVerdict::SourceCandidateRunNotFound),
        Some("SOURCE_CANDIDATE_RUN_NOT_FOUND")
    );
    assert_eq!(report_verdict("DAILY_BTTS", true, true), ReportVerdict::Generated);
    assert_eq!(report_unavailable_reason("DAILY_BTTS", ReportVerdict::Generated), None);
    assert_eq!(
        report_unavailable_reason("DAILY_SURPRISE_SYSTEM", ReportVerdict::Insufficient),
        Some("INSUFFICIENT_QUALIFIED_SURPRISE_SELECTIONS")
    );
}

#[test]
fn a_candidate_listed_twice_is_refused() {

    let x = key(1, 10, "TOTAL_GOALS", Some(2.5));
    assert_eq!(
        validate_selection_set("DAILY_OVER_25", &vec![x.clone(), x.clone()], CompoundOdds::InRange),
        Err(SelectionError::DuplicateCandidate)
    );
    assert_eq!(SelectionError::DuplicateCandidate.as_str(), "DUPLICATE_CANDIDATE");
    let pool = vec![key(1, 10, "TOTAL_GOALS", Some(2.5)), key(2, 11, "TOTAL_GOALS", Some(2.5))];
    assert_eq!(
        draft_selection("DAILY_OVER_25", &vec![1, 1], &pool, CompoundOdds::InRange),
        Err(DraftError::Selection(SelectionError::DuplicateCandidate))
    );
    assert_eq!(draft_selection("DAILY_OVER_25", &vec![2, 1], &pool, CompoundOdds::InRange), Ok((vec![1, 0], vec![])));
    assert_eq!(
        draft_selection("DAILY_OVER_25", &vec![3], &pool, CompoundOdds::InRange),
        Err(DraftError::CandidateNotFoundOrNotQualified)
    );
    assert_eq!(
        draft_selection("WEEKLY", &vec![1], &pool, CompoundOdds::InRange),
        Err(DraftError::InvalidCouponType)
    );
    assert_eq!(
        draft_selection("DAILY_CORNERS", &vec![], &pool, CompoundOdds::InRange),
        Err(DraftError::Selection(SelectionError::EmptySelectionSet))
    );
    assert_eq!(DraftError::CandidateNotFoundOrNotQualified.as_str(), "CANDIDATE_NOT_FOUND_OR_NOT_QUALIFIED");
}
