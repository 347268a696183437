use std::collections::HashSet;

use rustc_hash::FxHashMap;

use aviabot::audio::routing::{compute_recipients, RoutingSnapshot, Sphere};
use aviabot::position::{PlayerPositionService, PlayerSession};

fn send(service: &mut PlayerPositionService, event: &str, uid: &str, country: i32, kind: &str) {
    service.handle_session(PlayerSession {
        event: event.to_string(),
        id: 1,
        gamer_name: uid.to_string(),
        country,
        team_speak_id: Some(uid.to_string()),
        x: Some(1.0f64.to_bits()),
        y: Some(2.0f64.to_bits()),
        z: Some(3.0f64.to_bits()),
        aircraft_type: Some(kind.to_string()),
        name: None,
        pid: None,
    });
}

/// In the lobby: a, b (allies) and x (axis). In the game: p, q, r and the spectator s (allies), and
/// y (axis).
fn roster() -> PlayerPositionService {
    let mut service = PlayerPositionService::new();
    for uid in ["a", "b"] {
        send(&mut service, "join", uid, 101, "");
    }
    send(&mut service, "join", "x", 201, "");
    for uid in ["p", "q", "r"] {
        send(&mut service, "spawn", uid, 101, "aircraft");
    }
    send(&mut service, "spawn", "s", 101, "Spectator");
    send(&mut service, "spawn", "y", 201, "aircraft");
    service
}

fn routing(service: &PlayerPositionService) -> RoutingSnapshot {
    let mut ids: FxHashMap<String, u16> = FxHashMap::default();
    for (i, uid) in ["a", "b", "x", "p", "q", "r", "s", "y"].iter().enumerate() {
        ids.insert(uid.to_string(), 10 + i as u16);
    }
    RoutingSnapshot {
        uid_to_client_id: ids,
        positions: service.snapshot(),
        max_distance: 42000.0f64.to_bits(),
        coalition_check: true,
        radio_effects_enabled: true,
        output_gain: 5.0f32.to_bits(),
        force_whisper_client_id: None,
    }
}

fn recipients(routing: &RoutingSnapshot, speakers: &[&str], near: &[&[&str]]) -> Vec<String> {
    let uids: Vec<(u16, String)> = speakers
        .iter()
        .map(|uid| {
            let id = routing.uid_to_client_id.get(*uid).copied().unwrap_or(99);
            (id, uid.to_string())
        })
        .collect();
    let speaking: HashSet<u16> = uids.iter().map(|s| s.0).collect();
    let near: Vec<Vec<String>> = near
        .iter()
        .map(|list| list.iter().map(|s| s.to_string()).collect())
        .collect();
    let found = compute_recipients(&uids, &speaking, routing, &near);
    let distinct: HashSet<u16> = found.iter().copied().collect();
    assert_eq!(distinct.len(), found.len());
    let mut names: Vec<String> = routing
        .uid_to_client_id
        .iter()
        .filter(|(_, id)| distinct.contains(id))
        .map(|(uid, _)| uid.clone())
        .collect();
    names.sort();
    names
}

#[test]
fn nobody_speaks_nobody_hears() {
    let routing = routing(&roster());
    assert!(recipients(&routing, &[], &[]).is_empty());
}

#[test]
fn lobby_speaker_reaches_the_lobby_of_the_coalition() {
    let routing = routing(&roster());
    assert_eq!(recipients(&routing, &["a"], &[&[]]), vec!["b", "s"]);
    assert!(recipients(&routing, &["x"], &[&[]]).is_empty());
}

#[test]
fn spectator_reaches_the_lobby() {
    let routing = routing(&roster());
    assert_eq!(recipients(&routing, &["s"], &[&["p", "q"]]), vec!["a", "b"]);
}

#[test]
fn active_speaker_reaches_the_players_near() {
    let routing = routing(&roster());
    assert_eq!(recipients(&routing, &["p"], &[&["p", "q"]]), vec!["q"]);
    assert_eq!(recipients(&routing, &["p"], &[&["q", "r", "a", "y"]]), vec!["q", "r"]);
    assert!(recipients(&routing, &["p"], &[&[]]).is_empty());
    assert!(recipients(&routing, &["p"], &[]).is_empty());
}

#[test]
fn spectator_near_does_not_hear_the_game() {
    let routing = routing(&roster());
    assert!(recipients(&routing, &["p"], &[&["s"]]).is_empty());
    assert_eq!(recipients(&routing, &["p"], &[&["s", "q"]]), vec!["q"]);
}

#[test]
fn range_only_adds_listeners() {
    let routing = routing(&roster());
    let near = recipients(&routing, &["p"], &[&["q"]]);
    let far = recipients(&routing, &["p"], &[&["q", "r"]]);
    assert!(near.iter().all(|uid| far.contains(uid)));
}

#[test]
fn speakers_do_not_receive_the_mix() {
    let routing = routing(&roster());
    assert_eq!(recipients(&routing, &["p", "q"], &[&["q", "r"], &["p", "r"]]), vec!["r"]);
}

#[test]
fn several_speakers_reach_the_union_of_their_listeners() {
    let routing = routing(&roster());
    assert_eq!(
        recipients(&routing, &["a", "p"], &[&[], &["q"]]),
        vec!["b", "q", "s"]
    );
}

#[test]
fn unknown_speaker_reaches_nobody() {
    let routing = routing(&roster());
    assert!(recipients(&routing, &["nobody"], &[&["p", "q"]]).is_empty());
}

#[test]
fn listeners_who_are_offline_are_left_out() {
    let mut routing = routing(&roster());
    routing.uid_to_client_id.remove("b");
    assert_eq!(recipients(&routing, &["a"], &[&[]]), vec!["s"]);
}

#[test]
fn coalitions_do_not_hear_each_other() {
    let mut routing = routing(&roster());
    for check in [true, false] {
        routing.coalition_check = check;
        assert!(recipients(&routing, &["y"], &[&["p", "q", "a"]]).is_empty());
        assert!(!recipients(&routing, &["p"], &[&["y", "x"]]).contains(&"y".to_string()));
    }
}

#[test]
fn forced_client_receives_everything() {
    let mut routing = routing(&roster());
    routing.force_whisper_client_id = Some(777);
    let speaking: HashSet<u16> = [777].iter().copied().collect();
    let uids = vec![(777u16, "a".to_string())];
    assert_eq!(compute_recipients(&uids, &speaking, &routing, &Vec::new()), vec![777]);
    assert_eq!(
        compute_recipients(&Vec::new(), &HashSet::new(), &routing, &Vec::new()),
        vec![777]
    );
}

#[test]
fn only_active_speakers_have_a_sphere() {
    let routing = routing(&roster());
    assert_eq!(
        routing.sphere_of("p"),
        Some(Sphere {
            country: 101,
            x: 1.0f64.to_bits(),
            y: 2.0f64.to_bits(),
            z: 3.0f64.to_bits(),
            radius: 42000.0f64.to_bits(),
        })
    );
    for uid in ["a", "x", "s", "nobody"] {
        assert_eq!(routing.sphere_of(uid), None);
    }
}

#[test]
fn listeners_are_listed_for_each_speaker() {
    let routing = routing(&roster());
    let id = |uid: &str| routing.uid_to_client_id[uid];
    let mut lobby = routing.listeners("a", &Vec::new());
    lobby.sort();
    assert_eq!(lobby, vec![id("b"), id("s")]);
    assert_eq!(routing.listeners("p", &vec!["q".to_string()]), vec![id("q")]);
    let speakers = vec![(id("p"), "p".to_string()), (99, "nobody".to_string())];
    let lists = routing.listener_lists(&speakers, &vec![vec!["r".to_string()]]);
    assert_eq!(lists, vec![vec![id("r")], vec![]]);
}
