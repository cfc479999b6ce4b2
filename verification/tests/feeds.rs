use icefeed::event_model::{
    ApiEventType, ApiGameEvent, Player, PlayByPlayType, RawPenalty, RawPeriodInfo, RawPlayByPlay,
};
use icefeed::event_service::EventService;
use icefeed::status::GameStatus;

fn period_event(id: i32, status: &str) -> RawPlayByPlay {
    RawPlayByPlay {
        event_id: id,
        revision: 1,
        period: 1,
        gametime: "00:00".to_string(),
        description: String::new(),
        class: PlayByPlayType::Period(RawPeriodInfo { game_status: status.to_string() }),
    }
}

fn general_event(id: i32, description: &str) -> RawPlayByPlay {
    RawPlayByPlay {
        event_id: id,
        revision: 1,
        period: 2,
        gametime: "13:37".to_string(),
        description: description.to_string(),
        class: PlayByPlayType::General,
    }
}

#[test]
fn upsert_twice_identical_is_idempotent() {
    let mut svc = EventService::new();
    let fresh = svc.store_raw("game-1", general_event(7, "first"), 10);
    assert!(fresh);
    let before = svc.read("game-1");
    let fresh2 = svc.store_raw("game-1", general_event(7, "first"), 11);
    assert!(!fresh2);
    let after = svc.read("game-1");
    assert_eq!(before, after);
    assert_eq!(after.len(), 1);
}

#[test]
fn upsert_same_identity_replaces_in_place() {
    let mut svc = EventService::new();
    assert!(svc.store_raw("game-1", general_event(1, "a"), 10));
    assert!(svc.store_raw("game-1", general_event(2, "b"), 10));
    assert!(svc.store_raw("game-1", general_event(3, "c"), 10));
    // replace the middle record: same index, same length, no duplicate
    assert!(!svc.store_raw("game-1", general_event(2, "b-edited"), 11));
    let events = svc.read("game-1");
    assert_eq!(events.len(), 3);
    assert_eq!(events[0].event_id, 1);
    assert_eq!(events[1].event_id, 2);
    assert_eq!(events[1].description, "b-edited");
    assert_eq!(events[2].event_id, 3);
}

#[test]
fn domain_store_replaces_by_event_id_string() {
    let mut svc = EventService::new();
    let ev = |id: &str, desc: &str| ApiGameEvent {
        game_uuid: "game-1".to_string(),
        event_id: id.to_string(),
        revision: 1,
        status: GameStatus::Period1,
        gametime: "01:00".to_string(),
        description: desc.to_string(),
        info: ApiEventType::General,
    };
    assert!(svc.store("game-1", ev("10", "x"), 5));
    assert!(svc.store("game-1", ev("11", "y"), 5));
    assert!(!svc.store("game-1", ev("10", "x-edited"), 6));
}

#[test]
fn staleness_gate_serves_cache_within_ttl_and_refreshes_after() {
    let mut svc = EventService::new();
    let first = svc
        .update("game-1", Some(10), 100, Some(vec![general_event(1, "from-first-fetch")]))
        .unwrap();
    assert_eq!(first.len(), 1);
    assert_eq!(first[0].description, "from-first-fetch");

    // within the TTL the cache is fresh: the fetched payload must be ignored
    assert!(!svc.is_stale("game-1", Some(10), 105));
    let second = svc
        .update("game-1", Some(10), 105, Some(vec![general_event(2, "must-be-ignored")]))
        .unwrap();
    assert_eq!(second.len(), 1);
    assert_eq!(second[0].description, "from-first-fetch");

    // strictly after the TTL it is stale and the new payload wins
    assert!(svc.is_stale("game-1", Some(10), 116));
    let third = svc
        .update("game-1", Some(10), 116, Some(vec![general_event(2, "from-refresh")]))
        .unwrap();
    assert_eq!(third.len(), 1);
    assert_eq!(third[0].description, "from-refresh");
}

#[test]
fn absent_entry_and_absent_ttl_are_always_stale() {
    let mut svc = EventService::new();
    assert!(svc.is_stale("never-written", Some(1000), 0));
    svc.update("game-1", Some(10), 100, Some(vec![general_event(1, "x")]));
    assert!(svc.is_stale("game-1", None, 100));
}

#[test]
fn fetch_failure_still_writes_empty_raw_cache_and_returns_empty() {
    let mut svc = EventService::new();
    let result = svc.update("game-1", Some(60), 100, None);
    assert_eq!(result, Some(Vec::new()));
    assert_eq!(svc.read("game-1").len(), 0);
    // the write happened: within the TTL the entry is fresh
    assert!(!svc.is_stale("game-1", Some(60), 130));
}

#[test]
fn period_classification_playing_starts_anything_else_ends() {
    assert_eq!(period_event(1, "Playing").to_type(), ApiEventType::PeriodStart);
    assert_eq!(period_event(1, "Ended").to_type(), ApiEventType::PeriodEnd);
    assert_eq!(period_event(1, "").to_type(), ApiEventType::PeriodEnd);
    assert_eq!(period_event(1, "Intermission").to_type(), ApiEventType::PeriodEnd);
    // the match is case-sensitive and exact
    assert_eq!(period_event(1, "playing").to_type(), ApiEventType::PeriodEnd);
}

#[test]
fn penalty_description_splits_into_player_penalty_and_reason() {
    let raw = RawPenalty { team: "LHF".to_string() };
    let info = icefeed::event_model::PenaltyInfo::new(
        "5 Karl Karlsson utvisas 2 min, Hooking",
        &raw,
    );
    assert_eq!(info.team, "LHF");
    let player = info.player.expect("player should be parsed");
    assert_eq!(player.jersey, "5");
    assert_eq!(player.first_name, "Karl");
    assert_eq!(player.family_name, "Karlsson");
    assert_eq!(info.penalty.as_deref(), Some("2 min"));
    assert_eq!(info.reason.as_deref(), Some("Hooking"));
}

#[test]
fn penalty_description_without_marker_yields_all_fields_absent() {
    let raw = RawPenalty { team: "FHC".to_string() };
    let info = icefeed::event_model::PenaltyInfo::new("too many men on the ice", &raw);
    assert_eq!(info.team, "FHC");
    assert!(info.player.is_none());
    assert!(info.penalty.is_none());
    assert!(info.reason.is_none());
}

#[test]
fn penalty_description_without_comma_keeps_player_only() {
    let raw = RawPenalty { team: "FHC".to_string() };
    let info = icefeed::event_model::PenaltyInfo::new("12 Anna Berg utvisas matchstraff", &raw);
    assert!(info.player.is_some());
    assert!(info.penalty.is_none());
    assert!(info.reason.is_none());
}

#[test]
fn player_parsing_splits_jersey_first_and_family() {
    let p = Player::from_str("1 Johan Johansson Olsson");
    assert_eq!(p.jersey, "1");
    assert_eq!(p.first_name, "Johan");
    assert_eq!(p.family_name, "Johansson Olsson");

    let empty = Player::from_str("");
    assert_eq!(empty.jersey, "");
    assert_eq!(empty.first_name, "");
    assert_eq!(empty.family_name, "");
}

#[test]
fn mapped_event_carries_identity_status_and_text() {
    let raw = general_event(17, "somebody did something");
    let mapped = raw.into_mapped_event("game-9");
    assert_eq!(mapped.game_uuid, "game-9");
    assert_eq!(mapped.event_id, "17");
    assert_eq!(mapped.revision, 1);
    assert_eq!(mapped.status, GameStatus::Period2);
    assert_eq!(mapped.gametime, "13:37");
    assert_eq!(mapped.description, "somebody did something");
    assert_eq!(mapped.info, ApiEventType::General);

    let mut negative = general_event(-5, "odd id");
    negative.period = 4;
    let mapped2 = negative.into_mapped_event("game-9");
    assert_eq!(mapped2.event_id, "-5");
    assert_eq!(mapped2.status, GameStatus::Overtime);
}

#[test]
fn mirror_read_keeps_raw_fields() {
    let mut svc = EventService::new();
    svc.store_raw("game-1", period_event(3, "Playing"), 1);
    let read = svc.read("game-1");
    assert_eq!(read.len(), 1);
    assert_eq!(read[0].game_uuid, "game-1");
    assert_eq!(read[0].event_id, 3);
    assert!(matches!(read[0].class, PlayByPlayType::Period(_)));
}
