use hypixel_watch::hypixel::ApiHypixelData;
use hypixel_watch::hypixel::ApiHypixelPlayer;
use hypixel_watch::hypixel::process_stats_response;
use hypixel_watch::hypixel::StatsError;
use hypixel_watch::hypixel::StatsResponse;
use hypixel_watch::orchestrator::EnrichmentOrchestrator;
use hypixel_watch::resolver::IdentityResolver;
use hypixel_watch::resolver::PrimaryOutcome;
use hypixel_watch::resolver::ResolveAction;

fn api_player(name: &str) -> ApiHypixelPlayer {
    ApiHypixelPlayer {
        name: name.to_string(),
        monthly_package_rank: None,
        new_package_rank: None,
        network_xp: None,
        achievements: None,
        stats: None,
    }
}

#[test]
fn zero_resolved_identities_produce_zero_reports_and_no_error() {
    // a name list whose batch resolves to no identities at all
    let names = vec!["ghost1".to_string(), "ghost2".to_string()];
    let mut r = IdentityResolver::new(&names);
    match r.next_action() {
        ResolveAction::PrimaryBatch(_) => r.on_primary(PrimaryOutcome::Resolved(Vec::new())),
        _ => panic!("expected a primary batch"),
    }
    assert!(matches!(r.next_action(), ResolveAction::Finished));
    let identities = r.into_results().expect("resolution must not fail");
    assert_eq!(identities, Vec::new());

    let o = EnrichmentOrchestrator::new(identities);
    assert_eq!(o.next_fetch(), None);
    assert_eq!(o.into_reports().len(), 0);
}

#[test]
fn failed_fetches_are_skipped_and_others_continue() {
    let identities = vec![
        ("id-a".to_string(), "A".to_string()),
        ("id-b".to_string(), "B".to_string()),
        ("id-c".to_string(), "C".to_string()),
    ];
    let mut o = EnrichmentOrchestrator::new(identities);
    let mut fetched: Vec<String> = Vec::new();
    while let Some((id, name)) = o.next_fetch() {
        fetched.push(id.clone());
        let outcome = if name == "B" {
            process_stats_response(StatsResponse::Transport, id)
        } else {
            process_stats_response(
                StatsResponse::Payload(ApiHypixelData { player: Some(api_player(&name)) }),
                id,
            )
        };
        o.on_stats(outcome);
    }
    assert_eq!(fetched, vec!["id-a", "id-b", "id-c"]);
    let reports = o.into_reports();
    assert_eq!(reports.len(), 2);
    assert_eq!(reports[0].name, "A");
    assert_eq!(reports[0].uuid, "id-a");
    assert_eq!(reports[1].name, "C");
}

#[test]
fn player_not_found_is_skipped() {
    let identities = vec![("id-x".to_string(), "X".to_string())];
    let mut o = EnrichmentOrchestrator::new(identities);
    let (id, _name) = o.next_fetch().unwrap();
    let outcome = process_stats_response(
        StatsResponse::Payload(ApiHypixelData { player: None }),
        id,
    );
    assert!(matches!(outcome, Err(StatsError::PlayerNotFound)));
    o.on_stats(outcome);
    assert_eq!(o.into_reports().len(), 0);
}
