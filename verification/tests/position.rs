use aviabot::number::{Double, ZERO};
use aviabot::position::{
    CategoryObject, PlayerPosition, PlayerPositionService, PlayerSession, PlayerState,
    PositionSnapshot,
};

fn bits(value: f64) -> Double {
    value.to_bits()
}

fn message(event: &str, uid: Option<&str>, country: i32) -> PlayerSession {
    PlayerSession {
        event: event.to_string(),
        id: 123,
        gamer_name: "PilotName".to_string(),
        country,
        team_speak_id: uid.map(|s| s.to_string()),
        x: None,
        y: None,
        z: None,
        aircraft_type: None,
        name: None,
        pid: None,
    }
}

fn at(event: &str, uid: &str, country: i32, x: f64, y: f64, z: f64) -> PlayerSession {
    let mut session = message(event, Some(uid), country);
    session.x = Some(bits(x));
    session.y = Some(bits(y));
    session.z = Some(bits(z));
    session.aircraft_type = Some("aircraft".to_string());
    session.name = Some("Bf-109 G-14".to_string());
    session
}

fn sizes(snapshot: &PositionSnapshot) -> (usize, usize, usize, usize) {
    (
        snapshot.lobby_allies.len(),
        snapshot.lobby_axis.len(),
        snapshot.active_allies.len(),
        snapshot.active_axis.len(),
    )
}

fn names(players: Vec<&PlayerPosition>) -> Vec<String> {
    let mut uids: Vec<String> = players
        .iter()
        .map(|p| p.team_speak_id.clone().unwrap())
        .collect();
    uids.sort();
    uids
}

#[test]
fn categories_are_parsed_by_name() {
    let known = vec![
        ("Spectator", CategoryObject::Spectator),
        ("aircraft", CategoryObject::Aircraft),
        ("BotPilot", CategoryObject::BotPilot),
        ("Engine", CategoryObject::Engine),
        ("BotGunner", CategoryObject::BotGunner),
        ("bomb", CategoryObject::Bomb),
        ("rocket", CategoryObject::Rocket),
        ("aircraft_turret", CategoryObject::AircraftTurret),
        ("MAB", CategoryObject::Mab),
        ("paratrooper", CategoryObject::Paratrooper),
        ("rct_container", CategoryObject::RctContainer),
        ("accelerator", CategoryObject::Accelerator),
        ("vehicle", CategoryObject::Vehicle),
        ("vehicle_crew", CategoryObject::VehicleCrew),
        ("vehicle_turret", CategoryObject::VehicleTurret),
    ];
    for (name, category) in known {
        assert_eq!(CategoryObject::parse(name), category);
    }
}

#[test]
fn other_categories_are_unknown() {
    for name in ["", "Aircraft", "spectator", "aircraft ", "mab", "truck"] {
        assert_eq!(CategoryObject::parse(name), CategoryObject::Unknown);
    }
    assert_eq!(CategoryObject::default(), CategoryObject::Unknown);
    assert_eq!(PlayerState::default(), PlayerState::Lobby);
}

#[test]
fn default_player_is_in_the_lobby_without_uid() {
    let player = PlayerPosition::default();
    assert_eq!(player.id, 0);
    assert_eq!(player.gamer_name, "");
    assert_eq!(player.country, 0);
    assert_eq!(player.team_speak_id, None);
    assert_eq!((player.x, player.y, player.z), (ZERO, ZERO, ZERO));
    assert_eq!(player.state, PlayerState::Lobby);
    assert_eq!(player.category, CategoryObject::Unknown);
    assert_eq!(player.aircraft_type, "");
    assert_eq!(player.aircraft_name, "");
    assert!(player.is_lobby_routing());
}

#[test]
fn spectators_use_lobby_routing() {
    let mut player = PlayerPosition::default();
    player.state = PlayerState::Active;
    player.category = CategoryObject::Aircraft;
    assert!(!player.is_lobby_routing());
    player.category = CategoryObject::Spectator;
    assert!(player.is_lobby_routing());
}

#[test]
fn zero_is_the_bit_pattern_of_zero() {
    assert_eq!(f64::from_bits(ZERO), 0.0);
    assert!(f64::from_bits(ZERO).is_sign_positive());
}

#[test]
fn join_enters_the_lobby_of_the_coalition() {
    let mut service = PlayerPositionService::new();
    service.handle_session(message("join", Some("a"), 101));
    service.handle_session(message("join", Some("b"), 201));
    assert_eq!(sizes(&service.snapshot()), (1, 1, 0, 0));
    let a = service.get_by_uid("a").unwrap();
    assert_eq!(a.country, 101);
    assert_eq!(a.state, PlayerState::Lobby);
    assert_eq!(a.id, 123);
    assert_eq!(a.gamer_name, "PilotName");
    assert_eq!(a.team_speak_id, Some("a".to_string()));
    assert!(service.get_by_uid("c").is_none());
}

#[test]
fn join_changes_the_coalition() {
    let mut service = PlayerPositionService::new();
    service.handle_session(at("spawn", "a", 101, 1.0, 2.0, 3.0));
    service.handle_session(message("join", Some("a"), 201));
    assert_eq!(sizes(&service.snapshot()), (0, 1, 0, 0));
    assert_eq!(service.get_by_uid("a").unwrap().country, 201);
}

#[test]
fn spawn_moves_from_the_lobby_into_the_game() {
    let mut service = PlayerPositionService::new();
    service.handle_session(message("join", Some("a"), 101));
    service.handle_session(at("spawn", "a", 101, 15234.5, 120.0, 8765.2));
    assert_eq!(sizes(&service.snapshot()), (0, 0, 1, 0));
    let a = service.get_by_uid("a").unwrap();
    assert_eq!(a.state, PlayerState::Active);
    assert_eq!(f64::from_bits(a.x), 15234.5);
    assert_eq!(f64::from_bits(a.y), 120.0);
    assert_eq!(f64::from_bits(a.z), 8765.2);
    assert_eq!(a.category, CategoryObject::Aircraft);
    assert_eq!(a.aircraft_type, "aircraft");
    assert_eq!(a.aircraft_name, "Bf-109 G-14");
}

#[test]
fn spawn_without_join_enters_the_game() {
    let mut service = PlayerPositionService::new();
    service.handle_session(message("spawn", Some("a"), 201));
    assert_eq!(sizes(&service.snapshot()), (0, 0, 0, 1));
    let a = service.get_by_uid("a").unwrap();
    assert_eq!((a.x, a.y, a.z), (ZERO, ZERO, ZERO));
    assert_eq!(a.category, CategoryObject::Unknown);
}

#[test]
fn spawn_leaves_the_lobby_of_the_other_coalition_alone() {
    let mut service = PlayerPositionService::new();
    service.handle_session(message("join", Some("a"), 101));
    service.handle_session(message("spawn", Some("a"), 201));
    assert_eq!(sizes(&service.snapshot()), (1, 0, 0, 1));
    // The lobby is looked through first.
    assert_eq!(service.get_by_uid("a").unwrap().state, PlayerState::Lobby);
    // A collection takes the last dictionary that knows the player.
    let all = service.snapshot().to_uid_map();
    assert_eq!(all.len(), 1);
    assert_eq!(all["a"].state, PlayerState::Active);
}

#[test]
fn position_moves_an_active_player() {
    let mut service = PlayerPositionService::new();
    service.handle_session(at("spawn", "a", 101, 1.0, 2.0, 3.0));
    let mut update = message("position", Some("a"), 101);
    update.x = Some(bits(10.0));
    update.z = Some(bits(30.0));
    update.gamer_name = "Renamed".to_string();
    update.aircraft_type = Some("Spectator".to_string());
    service.handle_session(update);
    assert_eq!(sizes(&service.snapshot()), (0, 0, 1, 0));
    let a = service.get_by_uid("a").unwrap();
    assert_eq!(f64::from_bits(a.x), 10.0);
    assert_eq!(f64::from_bits(a.y), 2.0);
    assert_eq!(f64::from_bits(a.z), 30.0);
    assert_eq!(a.gamer_name, "Renamed");
    assert_eq!(a.category, CategoryObject::Spectator);
    assert_eq!(a.aircraft_name, "");
    assert_eq!(a.state, PlayerState::Active);
}

#[test]
fn position_of_an_inactive_player_is_a_spawn() {
    let mut service = PlayerPositionService::new();
    service.handle_session(message("join", Some("a"), 101));
    service.handle_session(at("position", "a", 101, 1.0, 2.0, 3.0));
    assert_eq!(sizes(&service.snapshot()), (0, 0, 1, 0));
    assert_eq!(f64::from_bits(service.get_by_uid("a").unwrap().y), 2.0);
}

#[test]
fn despawn_and_detach_return_to_the_lobby() {
    for event in ["despawn", "detach"] {
        let mut service = PlayerPositionService::new();
        service.handle_session(at("spawn", "a", 101, 1.0, 2.0, 3.0));
        service.handle_session(message(event, Some("a"), 101));
        assert_eq!(sizes(&service.snapshot()), (1, 0, 0, 0));
        let a = service.get_by_uid("a").unwrap();
        assert_eq!(a.state, PlayerState::Lobby);
        assert_eq!((a.x, a.y, a.z), (ZERO, ZERO, ZERO));
        assert_eq!(a.aircraft_name, "Bf-109 G-14");
    }
}

#[test]
fn return_of_an_inactive_player_changes_nothing() {
    let mut service = PlayerPositionService::new();
    service.handle_session(message("despawn", Some("a"), 101));
    assert_eq!(sizes(&service.snapshot()), (0, 0, 0, 0));
    service.handle_session(at("spawn", "a", 101, 1.0, 2.0, 3.0));
    service.handle_session(message("despawn", Some("a"), 201));
    assert_eq!(sizes(&service.snapshot()), (0, 0, 1, 0));
}

#[test]
fn leave_removes_from_all_dictionaries() {
    let mut service = PlayerPositionService::new();
    service.handle_session(message("join", Some("a"), 101));
    service.handle_session(message("spawn", Some("a"), 201));
    service.handle_session(message("join", Some("b"), 101));
    // The coalition does not matter.
    service.handle_session(message("leave", Some("a"), 0));
    assert_eq!(sizes(&service.snapshot()), (1, 0, 0, 0));
    assert!(service.get_by_uid("a").is_none());
    assert!(service.get_by_uid("b").is_some());
}

#[test]
fn clear_removes_everybody() {
    let mut service = PlayerPositionService::new();
    service.handle_session(message("join", Some("a"), 101));
    service.handle_session(message("spawn", Some("b"), 201));
    service.handle_session(message("clear", Some("any"), 0));
    assert_eq!(sizes(&service.snapshot()), (0, 0, 0, 0));
}

#[test]
fn messages_without_uid_are_ignored() {
    let mut service = PlayerPositionService::new();
    service.handle_session(message("join", Some("a"), 101));
    for uid in [None, Some(""), Some("   "), Some("\t\n\u{a0}\u{3000}")] {
        service.handle_session(message("join", uid, 101));
        service.handle_session(message("clear", uid, 101));
    }
    assert_eq!(sizes(&service.snapshot()), (1, 0, 0, 0));
}

#[test]
fn foreign_coalitions_are_ignored() {
    let mut service = PlayerPositionService::new();
    for event in ["join", "spawn", "position", "despawn", "detach"] {
        for country in [0, 100, 102, 200, 202, -101] {
            service.handle_session(message(event, Some("a"), country));
        }
    }
    assert_eq!(sizes(&service.snapshot()), (0, 0, 0, 0));
}

#[test]
fn unknown_events_are_ignored() {
    let mut service = PlayerPositionService::new();
    service.handle_session(message("join", Some("a"), 101));
    for event in ["", "Join", "JOIN", "teleport", "leave "] {
        service.handle_session(message(event, Some("a"), 101));
    }
    assert_eq!(sizes(&service.snapshot()), (1, 0, 0, 0));
}

#[test]
fn repeated_messages_change_nothing_more() {
    let mut service = PlayerPositionService::new();
    for _ in 0..3 {
        service.handle_session(at("spawn", "a", 101, 1.0, 2.0, 3.0));
    }
    assert_eq!(sizes(&service.snapshot()), (0, 0, 1, 0));
    service.handle_session(message("leave", Some("a"), 101));
    service.handle_session(message("leave", Some("a"), 101));
    assert_eq!(sizes(&service.snapshot()), (0, 0, 0, 0));
}

#[test]
fn snapshot_does_not_follow_the_service() {
    let mut service = PlayerPositionService::new();
    service.handle_session(message("join", Some("a"), 101));
    let snapshot = service.snapshot();
    service.handle_session(message("leave", Some("a"), 101));
    assert_eq!(sizes(&snapshot), (1, 0, 0, 0));
    assert!(snapshot.get_by_uid("a").is_some());
    let copy = snapshot.clone();
    assert_eq!(copy.get_by_uid("a").unwrap().country, 101);
}

#[test]
fn lobby_recipients_are_those_of_the_coalition() {
    let mut service = PlayerPositionService::new();
    service.handle_session(message("join", Some("a"), 101));
    service.handle_session(message("join", Some("b"), 101));
    service.handle_session(message("join", Some("c"), 201));
    service.handle_session(message("spawn", Some("d"), 101));
    let snapshot = service.snapshot();
    assert_eq!(names(snapshot.lobby_recipients(101)), vec!["a", "b"]);
    assert_eq!(names(snapshot.lobby_recipients(201)), vec!["c"]);
}

#[test]
fn spectators_are_listed_apart() {
    let mut service = PlayerPositionService::new();
    service.handle_session(at("spawn", "a", 101, 0.0, 0.0, 0.0));
    for (uid, country) in [("s", 101), ("t", 201)] {
        let mut spectator = at("spawn", uid, country, 0.0, 0.0, 0.0);
        spectator.aircraft_type = Some("Spectator".to_string());
        service.handle_session(spectator);
    }
    let snapshot = service.snapshot();
    assert_eq!(names(snapshot.spectators(101)), vec!["s"]);
    assert_eq!(names(snapshot.spectators(201)), vec!["t"]);
    assert_eq!(snapshot.active_entries(101).len(), 2);
}

#[test]
fn sphere_holds_the_active_players_inside() {
    let mut service = PlayerPositionService::new();
    service.handle_session(at("spawn", "a", 101, 0.0, 0.0, 0.0));
    service.handle_session(at("spawn", "b", 101, 9.0, 0.0, 0.0));
    service.handle_session(at("spawn", "c", 201, 0.0, 0.0, 0.0));
    service.handle_session(message("join", Some("d"), 101));
    let snapshot = service.snapshot();
    let mut active: Vec<&String> = snapshot.active_entries(101).iter().map(|e| e.0).collect();
    active.sort();
    assert_eq!(active, vec!["a", "b"]);
    let inside: Vec<String> = ["b", "c", "d", "e"].iter().map(|s| s.to_string()).collect();
    assert_eq!(names(snapshot.in_sphere(101, &inside)), vec!["b"]);
    assert_eq!(names(snapshot.in_sphere(201, &inside)), vec!["c"]);
    assert!(snapshot.in_sphere(101, &Vec::new()).is_empty());
}

#[test]
fn collection_holds_every_player_once() {
    let mut service = PlayerPositionService::new();
    for (uid, event, country) in [
        ("a", "join", 101),
        ("b", "join", 201),
        ("c", "spawn", 101),
        ("d", "spawn", 201),
    ] {
        service.handle_session(message(event, Some(uid), country));
    }
    let all = service.snapshot().to_uid_map();
    assert_eq!(all.len(), 4);
    for uid in ["a", "b", "c", "d"] {
        assert_eq!(all[uid].team_speak_id.as_deref(), Some(uid));
        assert_eq!(
            service.snapshot().get_by_uid(uid).unwrap().country,
            all[uid].country
        );
    }
    assert!(PositionSnapshot::default().to_uid_map().is_empty());
}

#[test]
fn spawned_player_is_found_in_the_game() {
    let mut service = PlayerPositionService::new();
    service.handle_session(at("spawn", "a", 201, 1.0, 2.0, 3.0));
    let a = service.get_by_uid("a").unwrap();
    assert_eq!(a.state, PlayerState::Active);
    assert_eq!(a.country, 201);
}

#[test]
fn player_of_one_country_is_in_one_dictionary() {
    let events = ["join", "spawn", "position", "despawn", "detach", "leave", "position", "join"];
    for country in [101, 201, 7] {
        let mut service = PlayerPositionService::new();
        for event in events {
            for _ in 0..2 {
                service.handle_session(message(event, Some("a"), country));
                let (a, b, c, d) = sizes(&service.snapshot());
                assert!(a + b + c + d <= 1);
            }
        }
    }
}
