use arz_predictor::clock::Instant;
use arz_predictor::data_center::{
    assess, capable, core_check, core_overall, CalibrationIdentity, CoreCheck, ModelIdentity, ReadinessFacts,
    ReadinessState as S, RuntimeReadiness,
};

fn at(text: &str) -> Instant {
    let t = chrono::DateTime::parse_from_rfc3339(text).unwrap();
    Instant { seconds: t.timestamp(), nanos: t.timestamp_subsec_nanos() }
}

#[test]
fn core_score_is_ten_required_checks_and_every_blocker_drops_ready() {
    let mut checks: Vec<_> = [
        "database",
        "live_iddaa",
        "history",
        "base_model",
        "calibration",
        "features",
        "resolution",
        "candidates",
        "coupons",
        "popularity",
    ]
    .into_iter()
    .map(|id| CoreCheck { id: id.into(), title: id.into(), status: S::Ready, reasons: vec![] })
    .collect();
    assert_eq!(core_overall(&checks), S::Ready);
    for i in 0..checks.len() {
        checks[i].status = S::ActionRequired;
        assert_ne!(core_overall(&checks), S::Ready);
        checks[i].status = S::Ready;
    }
    assert_ne!(core_overall(&checks[..9]), S::Ready);
}

fn check(id: &str, status: S) -> CoreCheck {
    CoreCheck { id: id.into(), title: id.into(), status, reasons: vec![] }
}

#[test]
fn error_dominates_and_ready_base_model_is_partial() {
    let checks = vec![check("database", S::Ready), check("base_model", S::Ready), check("history", S::Error)];
    assert_eq!(core_overall(&checks), S::Error);
    let checks = vec![check("database", S::Ready), check("base_model", S::Ready), check("history", S::Partial)];
    assert_eq!(core_overall(&checks), S::Partial);
    let checks = vec![check("database", S::Ready), check("base_model", S::ActionRequired)];
    assert_eq!(core_overall(&checks), S::ActionRequired);
    assert_eq!(core_overall(&[]), S::ActionRequired);
}

#[test]
fn core_check_carries_reason_only_when_not_ready() {
    let ready = core_check("history", "Geçmiş", S::Ready, "eksik");
    assert!(ready.reasons.is_empty());
    assert_eq!(ready.id, "history");
    let blocked = core_check("history", "Geçmiş", S::Partial, "eksik");
    assert_eq!(blocked.reasons, vec!["eksik".to_string()]);
}

#[test]
fn capability_lists_unready_gates_in_order() {
    let c = capable(&[(S::Ready, "a"), (S::Partial, "b"), (S::Error, "c")]);
    assert!(!c.ready);
    assert_eq!(c.reasons, vec!["b".to_string(), "c".to_string()]);
    let c = capable(&[(S::Ready, "a")]);
    assert!(c.ready);
    assert!(c.reasons.is_empty());
}

#[test]
fn runtime_default_is_idle_and_empty() {
    let r = RuntimeReadiness::default();
    assert_eq!(r.asset_state, "IDLE");
    assert_eq!(r.historical_imported_count, 0);
    assert!(!r.lineup_provider_configured);
}

fn empty_facts() -> ReadinessFacts {
    ReadinessFacts {
        scope_ready: false,
        finished_matches: 0,
        min_training_samples: 100,
        upcoming_match_count: 0,
        odds_snapshot_count: 0,
        latest_odds_snapshot_time: None,
        latest_iddaa_error: None,
        popularity_selection_count: 0,
        popularity_snapshot_time: None,
        known_teams: 0,
        cached_logos: 0,
        logos_in_progress: 0,
        global_matches: 0,
        global_resolved: 0,
        current_matches: 0,
        current_resolved: 0,
        pending_resolution_diagnostics: 0,
        upcoming_supported: 0,
        upcoming_resolved: 0,
        production_events: 0,
        production_features_missing: 0,
        features_generated: 0,
        insufficient_history: 0,
        active_model: None,
        artifact_valid: false,
        feature_compatible: false,
        calibration: None,
        calibration_loads: false,
        lineup_model: None,
        lineup_model_loads: false,
        official_complete_lineups: 0,
        lineup_provider_availability: "LIVE_LINEUP_PROVIDER_NOT_CONFIGURED".into(),
        missing_predictions: 0,
        publication_error: None,
        pipeline_failure: None,
    }
}

fn ready_facts() -> ReadinessFacts {
    ReadinessFacts {
        scope_ready: true,
        finished_matches: 500,
        upcoming_match_count: 10,
        odds_snapshot_count: 40,
        latest_odds_snapshot_time: Some("2026-09-02T10:00:00Z".into()),
        popularity_selection_count: 5,
        popularity_snapshot_time: Some("2026-09-02T09:00:00Z".into()),
        known_teams: 4,
        cached_logos: 4,
        global_matches: 3,
        global_resolved: 3,
        upcoming_supported: 3,
        upcoming_resolved: 3,
        production_events: 3,
        features_generated: 3,
        active_model: Some(ModelIdentity { version: "model_v1".into(), artifact_hash: Some("abc".into()) }),
        artifact_valid: true,
        feature_compatible: true,
        calibration: Some(CalibrationIdentity {
            version: "model_v1_cal1".into(),
            parent_model_version: "model_v1".into(),
            parent_artifact_hash: "abc".into(),
        }),
        calibration_loads: true,
        ..empty_facts()
    }
}

fn imported_runtime() -> RuntimeReadiness {
    RuntimeReadiness { historical_imported_count: 3, historical_cached_count: 3, ..Default::default() }
}

#[test]
fn empty_installation_asks_for_action_everywhere() {
    let a = assess(&empty_facts(), &RuntimeReadiness::default(), at("2026-09-02T12:00:00Z"));
    assert_eq!(a.overall_status, S::ActionRequired);
    assert_eq!(a.database.status, S::Ready);
    assert_eq!(a.historical_data.status, S::ActionRequired);
    assert_eq!(a.historical_data.technical_reason.as_deref(), Some("PRODUCTION_SCOPE_BOOTSTRAP_INCOMPLETE"));
    assert_eq!(a.iddaa.status, S::ActionRequired);
    assert_eq!(a.odds.status, S::ActionRequired);
    assert_eq!(a.popularity.status, S::Unavailable);
    assert_eq!(a.team_logos.status, S::Optional);
    assert_eq!(a.lineup_model.status, S::Optional);
    assert_eq!(
        a.lineup_model.technical_reason.as_deref(),
        Some("LINEUP_MODEL_NOT_TRAINED_ON_PRODUCTION_DATA")
    );
    assert_eq!(a.lineup_provider.technical_reason.as_deref(), Some("LIVE_LINEUP_PROVIDER_NOT_CONFIGURED"));
    assert!(!a.can_generate_predictions.ready);
    assert_eq!(a.can_generate_candidates.reasons, vec!["Önce tahmin hazırlığı tamamlanmalı.".to_string()]);
    assert_eq!(a.can_generate_coupons.reasons, vec![
        "Önce aday hazırlığı tamamlanmalı.".to_string(),
        "Aday/kupon kaynağı doğrulanamadı.".to_string(),
    ]);
    assert_eq!(a.core_check_count, 10);
    assert_eq!(a.core_checks.len(), 10);
    assert_eq!(a.core_ready_count, 1);
}

#[test]
fn fully_prepared_installation_is_ready() {
    let a = assess(&ready_facts(), &imported_runtime(), at("2026-09-02T12:00:00Z"));
    assert_eq!(a.iddaa.status, S::Ready);
    assert_eq!(a.odds.status, S::Ready);
    assert_eq!(a.historical_data.status, S::Ready);
    assert_eq!(a.entity_resolution.status, S::Ready);
    assert_eq!(
        a.entity_resolution.technical_reason.as_deref(),
        Some("0 PRODUCTION_UNRESOLVED; 0 REGISTRY_UNRESOLVED; 0 TODAY_UNRESOLVED; 0 PENDING_DIAGNOSTICS")
    );
    assert_eq!(a.calibration.status, S::Ready);
    assert!(a.can_generate_predictions.ready);
    assert!(a.can_generate_candidates.ready);
    assert!(a.can_generate_coupons.ready);
    assert_eq!(a.core_ready_count, 10);
    assert_eq!(a.overall_status, S::Ready);
}

#[test]
fn odds_expire_after_a_day_and_future_odds_are_not_fresh() {
    let now = at("2026-09-02T12:00:00Z");
    let mut f = ready_facts();
    f.latest_odds_snapshot_time = Some("2026-09-01T11:00:01Z".into());
    let a = assess(&f, &imported_runtime(), now);
    assert_eq!(a.odds.status, S::Ready);
    f.latest_odds_snapshot_time = Some("2026-09-01T11:00:00Z".into());
    let a = assess(&f, &imported_runtime(), now);
    assert_eq!(a.odds.status, S::Partial);
    assert_eq!(a.odds.technical_reason.as_deref(), Some("STALE_ODDS"));
    assert_eq!(a.iddaa.status, S::Partial);
    assert!(!a.can_generate_predictions.ready || !a.can_generate_candidates.ready);
    assert_eq!(a.overall_status, S::Partial);
    f.latest_odds_snapshot_time = Some("2026-09-02T13:30:00Z".into());
    let a = assess(&f, &imported_runtime(), now);
    assert_eq!(a.odds.status, S::Partial);
}

#[test]
fn unreadable_publication_blocks_candidates_and_coupons_with_reasons() {
    let mut f = ready_facts();
    f.publication_error = Some("no candidate run".into());
    f.pipeline_failure = Some("TRANSIENT_DB_BUSY".into());
    let a = assess(&f, &imported_runtime(), at("2026-09-02T12:00:00Z"));
    assert!(!a.can_generate_candidates.ready);
    assert_eq!(a.can_generate_candidates.reasons, vec![
        "Günlük aday yayını okunamıyor: no candidate run".to_string(),
        "Günlük üretim yeniden denenecek: TRANSIENT_DB_BUSY".to_string(),
    ]);
    assert_eq!(a.can_generate_coupons.reasons, vec![
        "Aday/kupon kaynağı doğrulanamadı.".to_string(),
        "Son günlük üretim tamamlanamadı; otomatik yeniden deneme bekleniyor.".to_string(),
    ]);
    let candidates = a.core_checks.iter().find(|c| c.id == "candidates").unwrap();
    assert_eq!(candidates.reasons, vec![
        "Günlük aday yayını okunamıyor: no candidate run Günlük üretim yeniden denenecek: TRANSIENT_DB_BUSY".to_string()
    ]);
    assert_ne!(a.overall_status, S::Ready);
}

#[test]
fn missing_features_and_blocking_resolution_are_counted() {
    let mut f = ready_facts();
    f.production_features_missing = 2;
    f.upcoming_resolved = 1;
    f.insufficient_history = 4;
    let a = assess(&f, &imported_runtime(), at("2026-09-02T12:00:00Z"));
    assert_eq!(a.features.status, S::Partial);
    assert_eq!(a.features.message, "2 gelecek desteklenen maç için özellik snapshot’ı eksik.");
    assert_eq!(a.features.technical_reason.as_deref(), Some("PRODUCTION_FEATURES_MISSING"));
    assert_eq!(a.entity_resolution.status, S::ActionRequired);
    assert_eq!(a.entity_resolution.message, "2 gelecek desteklenen maç eşleştirme bekliyor.");
}

#[test]
fn incompatible_calibration_and_lineup_model_are_explicit() {
    let mut f = ready_facts();
    f.calibration = Some(CalibrationIdentity {
        version: "x".into(),
        parent_model_version: "model_v1".into(),
        parent_artifact_hash: "TAMPERED".into(),
    });
    f.lineup_model = Some(arz_predictor::data_center::LineupModelIdentity {
        artifact_hash: "lineup-artifact-digest".into(),
        version: "l1".into(),
        parent_model_version: "model_v1".into(),
        parent_model_hash: "abc".into(),
        feature_version: "lineup_features_v1".into(),
    });
    f.lineup_model_loads = true;
    let a = assess(&f, &imported_runtime(), at("2026-09-02T12:00:00Z"));
    assert_eq!(a.calibration.status, S::ActionRequired);
    assert_eq!(a.calibration.technical_reason.as_deref(), Some("CALIBRATION_INCOMPATIBLE_OR_MISSING"));
    assert_eq!(a.lineup_model.status, S::Ready);
    f.lineup_model_loads = false;
    let a = assess(&f, &imported_runtime(), at("2026-09-02T12:00:00Z"));
    assert_eq!(a.lineup_model.status, S::Error);
}

#[test]
fn background_logo_work_never_blocks_readiness() {
    let mut f = ready_facts();
    f.logos_in_progress = 3;
    let runtime = RuntimeReadiness { asset_state: "DOWNLOADING".into(), ..imported_runtime() };
    let a = assess(&f, &runtime, at("2026-09-02T12:00:00Z"));
    assert_eq!(a.team_logos.status, S::Background);
    assert_eq!(a.overall_status, S::Ready);
    assert!(a.core_checks.iter().all(|x| !x.id.contains("lineup") && !x.id.contains("logo")));
}
