use arz_predictor::data_center::{CalibrationIdentity, ModelIdentity, ReadinessFacts, RuntimeReadiness};
use arz_predictor::readiness_details::{details, ReadinessFigures};

fn facts() -> ReadinessFacts {
    ReadinessFacts {
        scope_ready: true,
        finished_matches: 500,
        min_training_samples: 100,
        upcoming_match_count: 10,
        odds_snapshot_count: 40,
        latest_odds_snapshot_time: Some("2026-09-02T10:00:00Z".into()),
        latest_iddaa_error: None,
        popularity_selection_count: 5,
        popularity_snapshot_time: Some("2026-09-02T09:00:00Z".into()),
        known_teams: 4,
        cached_logos: 3,
        logos_in_progress: 0,
        global_matches: 8,
        global_resolved: 6,
        current_matches: 3,
        current_resolved: 2,
        pending_resolution_diagnostics: 1,
        upcoming_supported: 3,
        upcoming_resolved: 1,
        production_events: 3,
        production_features_missing: 1,
        features_generated: 7,
        insufficient_history: 2,
        active_model: Some(ModelIdentity {
            version: "model_v1".into(),
            artifact_hash: Some("0123456789abcdef0123".into()),
        }),
        artifact_valid: true,
        feature_compatible: true,
        calibration: Some(CalibrationIdentity {
            version: "model_v1_cal1".into(),
            parent_model_version: "model_v1".into(),
            parent_artifact_hash: "fedcba".into(),
        }),
        calibration_loads: true,
        lineup_model: None,
        lineup_model_loads: false,
        official_complete_lineups: 2,
        lineup_provider_availability: "LIVE_LINEUP_PROVIDER_NOT_CONFIGURED".into(),
        missing_predictions: 0,
        publication_error: None,
        pipeline_failure: None,
    }
}

fn figures() -> ReadinessFigures {
    ReadinessFigures {
        match_count: 120,
        latest_import: Some("2026-09-01T08:00:00Z".into()),
        registered_competitions: 5,
        required_competitions: 6,
        production_history_matches: 900,
        last_bulletin_refresh: Some("2026-09-02T11:00:00Z".into()),
        bulletin_competition_count: 4,
        queued_logos: 1,
        discovering_logos: 0,
        downloading_logos: 0,
        retry_later_logos: 2,
        rate_limited_logos: 0,
        source_not_found_logos: 1,
        unavailable_logos: 0,
        invalid_logos: 0,
        cached_logo_bytes: -5,
        logos_updated_at: None,
        all_provider_matches: 11,
        resolved_team_mappings: 9,
        upcoming_model_ready: 2,
        features_updated_at: Some("2026-09-02T07:00:00Z".into()),
        feature_engine_version: "fe_v1".into(),
        training_cutoff: Some("2026-08-31".into()),
        lineups_updated_at: None,
    }
}

fn runtime() -> RuntimeReadiness {
    RuntimeReadiness {
        historical_dataset_count: 6,
        historical_cached_count: 5,
        historical_imported_count: 4,
        historical_missing_count: 1,
        historical_failed_count: 0,
        historical_cached_bytes: 4096,
        ..RuntimeReadiness::default()
    }
}

fn metric(m: &[(String, i64)], key: &str) -> i64 {
    m.iter().find(|(k, _)| k == key).map(|(_, v)| *v).unwrap()
}

#[test]
fn subsystem_details_carry_their_figures() {
    let d = details(&facts(), &runtime(), &figures());
    assert_eq!(d.database.title, "Yerel veritabanı");
    assert_eq!((d.database.item_count, d.database.source.as_deref()), (Some(120), Some("SQLite")));
    assert!(!d.database.retryable && d.database.metrics.is_empty());
    let h = &d.historical_data;
    assert_eq!(h.last_updated.as_deref(), Some("2026-09-01T08:00:00Z"));
    assert_eq!((h.item_count, h.downloaded_bytes, h.retryable), (Some(500), Some(4096), true));
    assert_eq!(metric(&h.metrics, "supported_datasets"), 6);
    assert_eq!(metric(&h.metrics, "required_supported_competitions"), 6);
    assert_eq!(metric(&h.metrics, "production_history_missing"), 0);
    let names: Vec<&str> = h.metrics.iter().map(|(k, _)| k.as_str()).collect();
    let mut sorted = names.clone();
    sorted.sort();
    assert_eq!(names, sorted);
    assert_eq!(metric(&d.iddaa.metrics, "competition_count"), 4);
    assert_eq!(d.odds.item_count, Some(40));
    assert_eq!(metric(&d.popularity.metrics, "item_count"), 5);
    assert_eq!(d.team_logos.downloaded_bytes, Some(0));
    assert_eq!(metric(&d.team_logos.metrics, "total_known_teams"), 4);
    assert_eq!(metric(&d.team_logos.metrics, "retry_later_logos"), 2);
}

#[test]
fn resolution_metrics_are_derived_from_counts() {
    let d = details(&facts(), &runtime(), &figures());
    let m = &d.entity_resolution.metrics;
    assert_eq!(d.entity_resolution.item_count, Some(6));
    assert_eq!(metric(m, "unresolved_count"), 2);
    assert_eq!(metric(m, "unsupported_match_count"), 3);
    assert_eq!(metric(m, "supported_resolution_percent"), 75);
    assert_eq!(metric(m, "upcoming_resolution_percent"), 33);
    assert_eq!(metric(m, "blocking_unresolved"), 2);
    assert_eq!(metric(m, "upcoming_unresolved"), 2);
    assert_eq!(metric(m, "nonblocking_unresolved"), 0);
    assert_eq!(metric(m, "current_unresolved_match_count"), 1);
    assert_eq!(m.len(), 17);
    let mut empty = facts();
    empty.global_matches = 0;
    empty.global_resolved = 0;
    empty.upcoming_supported = 0;
    empty.upcoming_resolved = 0;
    let d = details(&empty, &runtime(), &figures());
    assert_eq!(metric(&d.entity_resolution.metrics, "supported_resolution_percent"), 0);
    assert_eq!(metric(&d.entity_resolution.metrics, "upcoming_resolution_percent"), 0);
}

#[test]
fn artifacts_show_a_twelve_character_digest() {
    let d = details(&facts(), &runtime(), &figures());
    assert_eq!(d.prediction_model.artifact_hash.as_deref(), Some("0123456789ab"));
    assert_eq!(d.prediction_model.source.as_deref(), Some("model_v1"));
    assert_eq!(d.prediction_model.last_updated.as_deref(), Some("2026-08-31"));
    assert_eq!(d.calibration.artifact_hash.as_deref(), Some("fedcba"));
    assert_eq!(d.calibration.source.as_deref(), Some("model_v1_cal1"));
    assert_eq!(d.lineup_model.artifact_hash, None);
    assert_eq!(metric(&d.lineup_model.metrics, "active_artifact_available"), 0);
    assert_eq!(metric(&d.lineup_model.metrics, "implementation_available"), 1);
    assert_eq!(d.lineup_provider.item_count, Some(2));
    assert_eq!(d.features.source.as_deref(), Some("fe_v1"));
    assert_eq!(metric(&d.features.metrics, "production_features_missing"), 1);
    assert!(!d.first_run);
    let mut blank = facts();
    blank.known_teams = 0;
    blank.active_model = None;
    let g = ReadinessFigures { match_count: 0, ..figures() };
    assert!(details(&blank, &runtime(), &g).first_run);
}
