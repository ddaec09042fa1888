use arz_predictor::lineup::{
    check_match_mapping, completeness, feature_quality, import_quality, normalize_name, readiness, starter_count,
    status_for_match, LatestLineup, LineupPlayerInput, LineupProvider, LineupReadiness, LocalLineupPayload,
};

#[test]
fn names_are_trimmed_lowercased_and_single_spaced() {
    assert_eq!(normalize_name("  Kerem   AKTÜRKOĞLU \t"), "kerem aktürkoğlu");
    assert_eq!(normalize_name("\u{3000}Ali\u{00A0}\u{00A0}Koç\n"), "ali koç");
    assert_eq!(normalize_name("   "), "");
    assert_eq!(normalize_name("İSTANBUL"), "i̇stanbul");
}

fn player(team_id: i64, side: &str, role: &str, id: Option<&str>, name: &str) -> LineupPlayerInput {
    LineupPlayerInput {
        team_id,
        side: side.into(),
        role: role.into(),
        provider_player_id: id.map(str::to_string),
        provider_player_name: name.into(),
        position: None,
        shirt_number: None,
        formation_slot: None,
        captain: None,
        goalkeeper: None,
        date_of_birth: None,
        nationality: None,
    }
}

fn payload(players: Vec<LineupPlayerInput>, official: bool) -> LocalLineupPayload {
    LocalLineupPayload {
        provider: "local".into(),
        provider_event_id: "e1".into(),
        match_id: 1,
        captured_at: "2026-09-02T17:00:00Z".into(),
        lineup_status: if official { "OFFICIAL".into() } else { "PROBABLE".into() },
        is_official: official,
        players,
    }
}

fn eleven(team: i64, side: &str, prefix: &str) -> Vec<LineupPlayerInput> {
    (0..11).map(|i| player(team, side, "STARTER", None, &format!("{prefix} Player {i}"))).collect()
}

#[test]
fn complete_official_lineup_needs_eleven_distinct_starters_a_side() {
    let mut players = eleven(1, "HOME", "Home");
    players.extend(eleven(2, "AWAY", "Away"));
    players.push(player(2, "AWAY", "SUBSTITUTE", None, "Bench"));
    assert_eq!(completeness(&payload(players.clone(), true), 1, 2), "COMPLETE_OFFICIAL");
    assert_eq!(completeness(&payload(players.clone(), false), 1, 2), "PARTIAL");
    let mut duplicate = players.clone();
    duplicate[10] = player(1, "HOME", "STARTER", None, "  HOME  player 0 ");
    assert_eq!(completeness(&payload(duplicate, true), 1, 2), "PARTIAL");
    let mut twelve = players.clone();
    twelve.push(player(1, "HOME", "STARTER", Some("p12"), "Twelfth"));
    assert_eq!(completeness(&payload(twelve, true), 1, 2), "INVALID");
    let mut wrong_side = players;
    wrong_side[0] = player(1, "AWAY", "STARTER", None, "Lost");
    assert_eq!(completeness(&payload(wrong_side, true), 1, 2), "PARTIAL");
}

#[test]
fn readiness_follows_the_kickoff_window() {
    let kickoff = "2026-09-02T19:00:00Z";
    assert_eq!(readiness(kickoff, true, "2026-09-02T17:44:59Z", false), LineupReadiness::NotExpectedYet);
    assert_eq!(readiness(kickoff, true, "2026-09-02T17:45:00Z", false), LineupReadiness::WaitingForLineup);
    assert_eq!(readiness(kickoff, true, "2026-09-02T19:05:00Z", false), LineupReadiness::WaitingForLineup);
    assert_eq!(readiness(kickoff, true, "2026-09-02T19:05:01Z", false), LineupReadiness::LineupRevisionUnavailable);
    assert_eq!(readiness(kickoff, false, "2026-09-02T10:00:00Z", false), LineupReadiness::WaitingForLineup);
    assert_eq!(readiness("TBD", true, "2026-09-02T10:00:00Z", false), LineupReadiness::WaitingForLineup);
    assert_eq!(readiness(kickoff, true, "2026-09-02T10:00:00Z", true).as_str(), "OFFICIAL_LINEUP_READY");
}

#[test]
fn match_status_reports_partial_lineups_and_pending_revisions() {
    let partial = Some(LatestLineup { id: 4, captured_at: "t".into(), completeness_status: "PARTIAL".into() });
    let s = status_for_match(1, "2026-09-02T19:00:00Z", true, "2026-09-02T18:00:00Z", &partial);
    assert_eq!(s.status, "PARTIAL_LINEUP");
    assert_eq!(s.revision_status, "UNAVAILABLE");
    assert_eq!(s.lineup_snapshot_id, Some(4));
    let complete = Some(LatestLineup { id: 5, captured_at: "t".into(), completeness_status: "COMPLETE_OFFICIAL".into() });
    let s = status_for_match(1, "2026-09-02T19:00:00Z", true, "2026-09-02T18:00:00Z", &complete);
    assert_eq!(s.status, "OFFICIAL_LINEUP_READY");
    assert_eq!(s.revision_status, "REVISION_PENDING_MODEL");
    let s = status_for_match(1, "2026-09-02T19:00:00Z", true, "2026-09-02T12:00:00Z", &None);
    assert_eq!(s.status, "NOT_EXPECTED_YET");
    assert_eq!(s.captured_at, None);
}

#[test]
fn imports_check_teams_and_count_starters() {
    let players = vec![
        player(1, "HOME", "STARTER", None, "a"),
        player(2, "AWAY", "STARTER", None, "b"),
        player(2, "HOME", "STARTER", None, "c"),
        player(1, "HOME", "SUBSTITUTE", None, "d"),
    ];
    assert!(check_match_mapping(&players, 1, 2).is_ok());
    assert_eq!(check_match_mapping(&players, 1, 3), Err("WRONG_MATCH_MAPPING"));
    assert_eq!(starter_count(&players, "HOME"), 2);
    assert_eq!(starter_count(&players, "AWAY"), 1);
    assert_eq!(import_quality(0), "COMPLETE");
    assert_eq!(import_quality(2), "PARTIAL_PLAYER_RESOLUTION");
    assert_eq!(feature_quality(11, 11, 3), "COMPLETE");
    assert_eq!(feature_quality(11, 11, 0), "INSUFFICIENT_PLAYER_HISTORY");
    assert_eq!(feature_quality(10, 11, 3), "PARTIAL_PLAYER_RESOLUTION");
}

struct Local;

impl LineupProvider for Local {
    fn provider_name(&self) -> &str {
        "local"
    }
}

#[test]
fn providers_without_a_live_feed_refuse_to_fetch() {
    let p = Local;
    assert_eq!(p.provider_name(), "local");
    assert_eq!(p.fetch_lineup("e1").unwrap_err(), "LIVE_LINEUP_PROVIDER_NOT_CONFIGURED");
}
