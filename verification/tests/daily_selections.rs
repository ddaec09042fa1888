use arz_predictor::daily_selections::{
    publication, selection_status, source_selection_status, strict_qualified, PublicationError,
};

#[test]
fn selection_statuses_by_category() {
    assert_eq!(selection_status("OVER_25"), "DAILY_RANKED");
    assert_eq!(selection_status("BTTS_YES"), "DAILY_RANKED");
    assert_eq!(selection_status("HIGH_CONFIDENCE"), "HIGH_CONFIDENCE");
    assert_eq!(selection_status("COMPOUND"), "KATLAMA_ELIGIBLE");
    assert_eq!(selection_status("CORNERS"), "STRICT_QUALIFIED");
    assert_eq!(source_selection_status("OVER_25", "candidate_policy_v1"), "STRICT_QUALIFIED");
    assert_eq!(source_selection_status("OVER_25", "candidate_policy_v2_daily_goal_ranking"), "DAILY_RANKED");
    assert_eq!(source_selection_status("COMPOUND", "candidate_policy_v1"), "KATLAMA_ELIGIBLE");
    assert!(!strict_qualified("DAILY_RANKED"));
    assert!(strict_qualified("STRICT_QUALIFIED"));
}

#[test]
fn publication_manifest_names_the_runs_of_each_category() {
    let p = publication("2026-09-02", Some(11), Some(12)).unwrap();
    assert_eq!(p.id, "2026-09-02:base:11:btts:12");
    assert_eq!(p.business_date, "2026-09-02");
    assert_eq!(p.candidate_run_id, 11);
    let names: Vec<&str> = p.category_run_ids.iter().map(|(k, _)| k.as_str()).collect();
    assert_eq!(names, vec!["BTTS_YES", "COMPOUND", "CORNERS", "HIGH_CONFIDENCE", "OVER_25", "OVER_35", "SURPRISE"]);
    assert_eq!(p.category_run_ids[0].1, 12);
    assert!(p.category_run_ids[1..].iter().all(|(_, id)| *id == 11));
    let base_only = publication("2026-09-02", Some(11), None).unwrap();
    assert_eq!(base_only.id, "2026-09-02:base:11:btts:11");
    assert!(base_only.category_run_ids.iter().all(|(_, id)| *id == 11));
    let btts_only = publication("2026-09-02", None, Some(12)).unwrap();
    assert_eq!(btts_only.candidate_run_id, 12);
    assert_eq!(btts_only.id, "2026-09-02:base:12:btts:12");
    let none = publication("2026-09-02", None, None).unwrap_err();
    assert_eq!(none, PublicationError::NoCandidateRun);
    assert_eq!(none.as_str(), "no candidate run");
}
