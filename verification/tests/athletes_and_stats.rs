use icefeed::event_model::{
    ApiEventType, GameEndInfo, Location, PlayByPlayType, RawGoal, RawPlayByPlay, RawShot,
};
use icefeed::player_service::{
    athletes_from_rsp, parse_toi, ApiAthleteStats, IdName, PlayerName, PlayerService,
    PlayerStatsRsp, RawGoalkeeperStats, RawPlayerStats,
};
use icefeed::stats_service::{
    GameStatsV2, GHomeAwayStats, RawPeriodStats, RawStatistic, StatsService,
};
use icefeed::status::Season;

fn empty_rsp() -> PlayerStatsRsp {
    PlayerStatsRsp {
        stats_home: Vec::new(),
        stats_away: Vec::new(),
        players_home: Vec::new(),
        players_away: Vec::new(),
        gk_stats_home: Vec::new(),
        gk_stats_away: Vec::new(),
        goalkeepers_home: Vec::new(),
        goalkeepers_away: Vec::new(),
    }
}

fn skater(id: i32, nr: i32, toi: &str) -> RawPlayerStats {
    RawPlayerStats {
        player_id: id,
        team_id: "LHF".to_string(),
        nr,
        pos: "CE".to_string(),
        plus_minus: 1,
        a: 2,
        fol: 3,
        fow: 4,
        g: 5,
        hits: 6,
        pim: 7,
        sog: 8,
        sw: 9,
        toi: toi.to_string(),
    }
}

fn goalkeeper(id: i32, svs: i32) -> RawGoalkeeperStats {
    RawGoalkeeperStats {
        player_id: id,
        team_id: "FHC".to_string(),
        nr: 30,
        ga: 2,
        soga: 30,
        spga: 33,
        svs,
    }
}

fn named(id: i32, first: &str, last: &str) -> IdName {
    IdName {
        id,
        name: PlayerName { first_name: first.to_string(), last_name: last.to_string() },
    }
}

#[test]
fn time_on_ice_parses_minutes_and_seconds() {
    assert_eq!(parse_toi("12:34"), 754);
    assert_eq!(parse_toi(""), 0);
    assert_eq!(parse_toi("00:05"), 5);
    assert_eq!(parse_toi("0:0"), 0);
    // no colon means no value, even for plain digits
    assert_eq!(parse_toi("42"), 0);
    // a non-numeric side counts as zero
    assert_eq!(parse_toi("x:7"), 7);
    assert_eq!(parse_toi("2:x"), 120);
}

#[test]
fn skater_row_joins_name_table_and_derived_fields() {
    let mut rsp = empty_rsp();
    rsp.stats_home.push(skater(101, 9, "12:34"));
    rsp.players_home.push(named(101, "Erik", "Nilsson"));
    let athletes = athletes_from_rsp(&rsp);
    assert_eq!(athletes.len(), 1);
    let a = &athletes[0];
    assert_eq!(a.id, 101);
    assert_eq!(a.first_name, "Erik");
    assert_eq!(a.family_name, "Nilsson");
    assert_eq!(a.jersey, 9);
    assert_eq!(a.team_code, "LHF");
    assert_eq!(a.position, "CE");
    assert_eq!(a.season, Season::Season2022);
    match &a.stats {
        ApiAthleteStats::Player(st) => {
            assert_eq!(st.toi_s, 754);
            assert_eq!(st.gp, 1);
            assert_eq!(st.a, 2);
            assert_eq!(st.g, 5);
        },
        ApiAthleteStats::Goalkeeper(_) => panic!("expected skater stats"),
    }
}

#[test]
fn away_name_table_overrides_home_on_the_same_id() {
    let mut rsp = empty_rsp();
    rsp.stats_home.push(skater(7, 7, "1:00"));
    rsp.players_home.push(named(7, "Home", "Name"));
    rsp.players_away.push(named(7, "Away", "Name"));
    let athletes = athletes_from_rsp(&rsp);
    assert_eq!(athletes[0].first_name, "Away");
}

#[test]
fn missing_name_degrades_to_empty_fields() {
    let mut rsp = empty_rsp();
    rsp.stats_home.push(skater(55, 12, "5:00"));
    let athletes = athletes_from_rsp(&rsp);
    assert_eq!(athletes[0].first_name, "");
    assert_eq!(athletes[0].family_name, "");
}

#[test]
fn goalkeeper_games_played_inferred_from_saves() {
    let mut rsp = empty_rsp();
    rsp.gk_stats_home.push(goalkeeper(200, 25));
    rsp.gk_stats_away.push(goalkeeper(201, 0));
    rsp.goalkeepers_home.push(named(200, "Maja", "Lind"));
    let athletes = athletes_from_rsp(&rsp);
    assert_eq!(athletes.len(), 2);
    assert_eq!(athletes[0].position, "GK");
    match &athletes[0].stats {
        ApiAthleteStats::Goalkeeper(st) => assert_eq!(st.gp, 1),
        ApiAthleteStats::Player(_) => panic!("expected goalkeeper stats"),
    }
    match &athletes[1].stats {
        ApiAthleteStats::Goalkeeper(st) => assert_eq!(st.gp, 0),
        ApiAthleteStats::Player(_) => panic!("expected goalkeeper stats"),
    }
}

#[test]
fn skaters_come_before_goalkeepers_home_before_away() {
    let mut rsp = empty_rsp();
    rsp.stats_home.push(skater(1, 1, "1:00"));
    rsp.stats_away.push(skater(2, 2, "1:00"));
    rsp.gk_stats_home.push(goalkeeper(3, 1));
    let athletes = athletes_from_rsp(&rsp);
    assert_eq!(athletes.iter().map(|a| a.id).collect::<Vec<i32>>(), vec![1, 2, 3]);
}

#[test]
fn player_service_gateway_caches_and_reads() {
    let mut svc = PlayerService::new();
    assert!(svc.read("url-1").is_none());
    assert!(svc.is_stale("url-1", Some(60), 0));

    let mut rsp = empty_rsp();
    rsp.stats_home.push(skater(101, 9, "0:10"));
    let athletes = svc.update("url-1", Some(60), 100, Some(rsp));
    assert_eq!(athletes.len(), 1);

    // fresh: a second update must serve the cache, ignoring the new payload
    let mut other = empty_rsp();
    other.stats_home.push(skater(500, 5, "0:01"));
    other.stats_home.push(skater(501, 6, "0:02"));
    let again = svc.update("url-1", Some(60), 120, Some(other));
    assert_eq!(again.len(), 1);
    assert_eq!(again[0].id, 101);

    let read = svc.read("url-1").expect("cached after update");
    assert_eq!(read.len(), 1);

    // a TTL of None is always stale, as the upstream read path uses it
    assert!(svc.is_stale("url-1", None, 120));
}

#[test]
fn player_service_fetch_failure_writes_empty_response() {
    let mut svc = PlayerService::new();
    let athletes = svc.update("url-1", Some(60), 100, None);
    assert!(athletes.is_empty());
    let read = svc.read("url-1").expect("empty response is still cached");
    assert!(read.is_empty());
    assert!(!svc.is_stale("url-1", Some(60), 150));
}

#[test]
fn stats_without_total_entry_are_all_zero() {
    let v = GameStatsV2 {
        period_stats_breakdown: vec![RawPeriodStats {
            period: "Period1".to_string(),
            statistics: vec![RawStatistic {
                caption: "G".to_string(),
                home_team_value: 4,
                away_team_value: 2,
            }],
        }],
    };
    let s = GHomeAwayStats::from_game_stats(&v);
    assert_eq!(s.home.g, 0);
    assert_eq!(s.home.sog, 0);
    assert_eq!(s.home.pim, 0);
    assert_eq!(s.home.fow, 0);
    assert_eq!(s.away.g, 0);
    assert_eq!(s.away.sog, 0);
    assert_eq!(s.away.pim, 0);
    assert_eq!(s.away.fow, 0);
}

#[test]
fn stats_read_total_entry_with_missing_captions_as_zero() {
    let stat = |c: &str, h: i32, a: i32| RawStatistic {
        caption: c.to_string(),
        home_team_value: h,
        away_team_value: a,
    };
    let v = GameStatsV2 {
        period_stats_breakdown: vec![
            RawPeriodStats {
                period: "Period1".to_string(),
                statistics: vec![stat("G", 9, 9)],
            },
            RawPeriodStats {
                period: "Total".to_string(),
                statistics: vec![stat("G", 3, 2), stat("SOG", 31, 28), stat("FOWon", 17, 19)],
            },
        ],
    };
    let s = GHomeAwayStats::from_game_stats(&v);
    assert_eq!(s.home.g, 3);
    assert_eq!(s.away.g, 2);
    assert_eq!(s.home.sog, 31);
    assert_eq!(s.away.sog, 28);
    assert_eq!(s.home.fow, 17);
    assert_eq!(s.away.fow, 19);
    // PIM is absent from the Total entry: zero for both sides
    assert_eq!(s.home.pim, 0);
    assert_eq!(s.away.pim, 0);
}

#[test]
fn stats_service_gateway_caches_and_refreshes() {
    let mut svc = StatsService::new();
    assert!(svc.is_stale("url-9", Some(60), 0));

    let v = GameStatsV2 {
        period_stats_breakdown: vec![RawPeriodStats {
            period: "Total".to_string(),
            statistics: vec![RawStatistic {
                caption: "G".to_string(),
                home_team_value: 1,
                away_team_value: 0,
            }],
        }],
    };
    let first = svc.update("url-9", Some(60), 100, Some(v)).expect("stats on fetch");
    assert_eq!(first.home.g, 1);

    // fresh: served from the cache even though the fetch failed
    let second = svc.update("url-9", Some(60), 130, None).expect("stats from cache");
    assert_eq!(second, first);

    // a failed fetch on a stale cache yields no totals but still writes
    let third = svc.update("url-9", Some(60), 300, None);
    assert!(third.is_none());
    assert!(!svc.is_stale("url-9", Some(60), 320));
}

#[test]
fn goal_and_shot_events_publish_rules() {
    let goal = RawPlayByPlay {
        event_id: 1,
        revision: 1,
        period: 1,
        gametime: "10:00".to_string(),
        description: "goal".to_string(),
        class: PlayByPlayType::Goal(RawGoal {
            team: "LHF".to_string(),
            scorer_long: "9 Erik Nilsson".to_string(),
            team_advantage: "PP1".to_string(),
            assist: "12 Anna Berg".to_string(),
            home_forward: 2,
            home_against: 1,
            location: Location { x_bits: 0, y_bits: 0 },
        }),
    };
    let mapped = goal.into_mapped_event("game-1");
    assert!(mapped.should_publish());
    match &mapped.info {
        ApiEventType::Goal(info) => {
            assert_eq!(info.team, "LHF");
            assert_eq!(info.home_team_result, 2);
            assert_eq!(info.away_team_result, 1);
            let scorer = info.player.as_ref().expect("scorer parsed");
            assert_eq!(scorer.jersey, "9");
            assert_eq!(scorer.first_name, "Erik");
            assert_eq!(scorer.family_name, "Nilsson");
            assert_eq!(info.assist.as_deref(), Some("12 Anna Berg"));
        },
        other => panic!("expected a goal, got {:?}", other),
    }

    let shot = RawPlayByPlay {
        event_id: 2,
        revision: 1,
        period: 1,
        gametime: "10:30".to_string(),
        description: "shot wide".to_string(),
        class: PlayByPlayType::ShotWide(RawShot {
            team: "FHC".to_string(),
            location: Location { x_bits: 7, y_bits: 8 },
        }),
    };
    let mapped_shot = shot.into_mapped_event("game-1");
    assert!(!mapped_shot.should_publish());
    assert!(matches!(mapped_shot.info, ApiEventType::Shot(_)));

    let mut end = mapped_shot.clone();
    end.info = ApiEventType::GameEnd(GameEndInfo { winner: Some("LHF".to_string()) });
    assert!(end.should_publish());
    let mut start = mapped_shot.clone();
    start.info = ApiEventType::GameStart;
    assert!(start.should_publish());
}
