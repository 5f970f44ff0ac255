use hypixel_watch::hypixel::ApiAchievements;
use hypixel_watch::hypixel::ApiBedwarsStats;
use hypixel_watch::hypixel::ApiHypixelData;
use hypixel_watch::hypixel::ApiHypixelPlayer;
use hypixel_watch::hypixel::ApiStats;
use hypixel_watch::hypixel::HypixelPlayer;
use hypixel_watch::hypixel::prepare_stats_request;
use hypixel_watch::hypixel::process_stats_response;
use hypixel_watch::hypixel::StatsError;
use hypixel_watch::hypixel::StatsResponse;

fn bare_player(name: &str) -> ApiHypixelPlayer {
    ApiHypixelPlayer {
        name: name.to_string(),
        monthly_package_rank: None,
        new_package_rank: None,
        network_xp: None,
        achievements: None,
        stats: None,
    }
}

fn bedwars(b: ApiBedwarsStats) -> Option<ApiStats> {
    Some(ApiStats { bedwars: Some(b) })
}

#[test]
fn absent_achievements_mean_unknown_level() {
    let report = HypixelPlayer::from_api(bare_player("Steve"), "u".to_string());
    assert_eq!(report.level, -1);
}

#[test]
fn zero_final_deaths_give_positive_infinite_ratio() {
    let mut raw = bare_player("Steve");
    raw.stats = bedwars(ApiBedwarsStats {
        winstreak: None,
        final_kills_bedwars: Some(5),
        final_deaths_bedwars: Some(0),
        wins_bedwars: None,
        losses_bedwars: None,
        beds_broken_bedwars: None,
    });
    let report = HypixelPlayer::from_api(raw, "u".to_string());
    assert_eq!(report.final_kills, 5);
    assert_eq!(report.final_deaths, 0);
    // the ratio is derived outside the library as a plain float division
    let fkdr = report.final_kills as f32 / report.final_deaths as f32;
    assert!(fkdr.is_infinite() && fkdr > 0.0);
}

#[test]
fn sentinel_defaults_for_absent_fields() {
    let report = HypixelPlayer::from_api(bare_player("Steve"), "u".to_string());
    assert_eq!(report.winstreak, -1);
    assert_eq!(report.final_kills, -1);
    assert_eq!(report.final_deaths, -1);
    assert_eq!(report.wins, -1);
    assert_eq!(report.losses, -1);
    assert_eq!(report.bed_break, -1);
    assert_eq!(report.rank, "Default");
    assert_eq!(report.name, "Steve");
    assert_eq!(report.uuid, "u");
}

#[test]
fn absent_experience_defaults_differ_for_report_and_level() {
    // the report field defaults to 0, the level computation feeds on -1
    let report = HypixelPlayer::from_api(bare_player("Steve"), "u".to_string());
    assert_eq!(report.network_xp, 0);
    assert_eq!(report.network_level, 1);
}

#[test]
fn network_level_follows_experience() {
    let mut raw = bare_player("Steve");
    raw.network_xp = Some(10000);
    let report = HypixelPlayer::from_api(raw, "u".to_string());
    assert_eq!(report.network_xp, 10000);
    assert_eq!(report.network_level, 2);
}

#[test]
fn monthly_superstar_overrides_rank() {
    let mut raw = bare_player("Steve");
    raw.monthly_package_rank = Some("SUPERSTAR".to_string());
    raw.new_package_rank = Some("VIP".to_string());
    let report = HypixelPlayer::from_api(raw, "u".to_string());
    assert_eq!(report.rank, "MVP++");
}

#[test]
fn plus_token_is_rewritten() {
    for (tier, label) in [("VIP_PLUS", "VIP+"), ("MVP_PLUS", "MVP+"), ("MVP", "MVP")] {
        let mut raw = bare_player("Steve");
        raw.new_package_rank = Some(tier.to_string());
        let report = HypixelPlayer::from_api(raw, "u".to_string());
        assert_eq!(report.rank, label);
    }
}

#[test]
fn achievements_level_is_taken() {
    let mut raw = bare_player("Steve");
    raw.achievements = Some(ApiAchievements { bedwars_level: Some(472) });
    let report = HypixelPlayer::from_api(raw, "u".to_string());
    assert_eq!(report.level, 472);
}

#[test]
fn transport_failure_is_reported() {
    let r = process_stats_response(StatsResponse::Transport, "u".to_string());
    assert!(matches!(r, Err(StatsError::Transport)));
}

#[test]
fn non_success_status_is_reported_with_its_body() {
    let r = process_stats_response(
        StatsResponse::Http(403, "forbidden".to_string()),
        "u".to_string(),
    );
    match r {
        Err(StatsError::RemoteService(code, body)) => {
            assert_eq!(code, 403);
            assert_eq!(body, "forbidden");
        }
        _ => panic!("expected a remote-service error"),
    }
}

#[test]
fn malformed_body_is_a_deserialization_error() {
    let r = process_stats_response(StatsResponse::Malformed, "u".to_string());
    assert!(matches!(r, Err(StatsError::Deserialization)));
}

#[test]
fn absent_player_object_means_player_not_found() {
    let r = process_stats_response(
        StatsResponse::Payload(ApiHypixelData { player: None }),
        "u".to_string(),
    );
    assert!(matches!(r, Err(StatsError::PlayerNotFound)));
}

#[test]
fn present_player_object_is_mapped() {
    let r = process_stats_response(
        StatsResponse::Payload(ApiHypixelData { player: Some(bare_player("Steve")) }),
        "uuid-here".to_string(),
    );
    let report = r.unwrap();
    assert_eq!(report.name, "Steve");
    assert_eq!(report.uuid, "uuid-here");
}

#[test]
fn identifiers_are_canonicalized() {
    let canonical = "550e8400-e29b-41d4-a716-446655440000";
    assert_eq!(
        prepare_stats_request("550E8400-E29B-41D4-A716-446655440000").unwrap(),
        canonical
    );
    assert_eq!(
        prepare_stats_request("550e8400e29b41d4a716446655440000").unwrap(),
        canonical
    );
    assert_eq!(prepare_stats_request(canonical).unwrap(), canonical);
}

#[test]
fn malformed_identifiers_are_rejected() {
    assert!(matches!(
        prepare_stats_request("not-a-uuid"),
        Err(StatsError::InvalidUuid)
    ));
    assert!(matches!(
        prepare_stats_request(""),
        Err(StatsError::InvalidUuid)
    ));
}
