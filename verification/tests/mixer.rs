use std::collections::HashSet;

use rustc_hash::FxHashMap;

use aviabot::audio::effects::{Lcg, RadioNoise, SidetoneSound};
use aviabot::audio::mixer::{
    pace, Deliveries, MixerState, Pace, Reception, CLEANUP_INTERVAL_TICKS, INACTIVE_TIMEOUT_NS,
};
use aviabot::audio::relay::{ids_of, mix_all, relay_voices, GroupMix};
use aviabot::audio::routing::RoutingSnapshot;
use aviabot::audio::FRAME_SAMPLES;
use aviabot::position::{PlayerPositionService, PlayerSession};

fn frame(value: i16) -> [i16; FRAME_SAMPLES] {
    [value; FRAME_SAMPLES]
}

/// Players by UID, client id, event, country and type.
fn routing(players: &[(&str, u16, &str, i32, &str)]) -> RoutingSnapshot {
    let mut service = PlayerPositionService::new();
    let mut ids: FxHashMap<String, u16> = FxHashMap::default();
    for (uid, id, event, country, kind) in players {
        ids.insert(uid.to_string(), *id);
        service.handle_session(PlayerSession {
            event: event.to_string(),
            id: 1,
            gamer_name: uid.to_string(),
            country: *country,
            team_speak_id: Some(uid.to_string()),
            x: None,
            y: None,
            z: None,
            aircraft_type: Some(kind.to_string()),
            name: None,
            pid: None,
        });
    }
    RoutingSnapshot {
        uid_to_client_id: ids,
        positions: service.snapshot(),
        max_distance: 100.0f64.to_bits(),
        coalition_check: true,
        radio_effects_enabled: true,
        output_gain: 3.0f32.to_bits(),
        force_whisper_client_id: None,
    }
}

/// Three players in the lobby of the Allies: a, b and c, with the clients 1, 2 and 3.
fn lobby() -> RoutingSnapshot {
    routing(&[
        ("a", 1, "join", 101, ""),
        ("b", 2, "join", 101, ""),
        ("c", 3, "join", 101, ""),
    ])
}

fn speaking(mixer: &mut MixerState, id: u16, value: i16, now: u64) {
    match mixer.receive(id) {
        Reception::NewSpeaker => mixer.add_speaker(id, now),
        Reception::Ready => {}
        Reception::Unresolved => panic!("unresolved"),
    }
    mixer.enqueue(id, &frame(value), now);
}

/// One tick. `near` holds the UIDs near each speaker, by UID.
fn tick(mixer: &mut MixerState, noise: &RadioNoise, near: &[(&str, &[&str])]) -> Deliveries {
    let output = mixer.begin_output(noise);
    let lists: Vec<Vec<String>> = output
        .voices
        .speakers
        .iter()
        .map(|(_, uid)| {
            near.iter()
                .filter(|n| n.0 == uid)
                .flat_map(|n| n.1.iter().map(|s| s.to_string()))
                .collect()
        })
        .collect();
    mixer.finish_output(output, &lists)
}

fn sent_to(mixes: &[GroupMix], id: u16) -> Vec<[i16; FRAME_SAMPLES]> {
    mixes
        .iter()
        .filter(|m| m.recipients.contains(&id))
        .map(|m| m.samples)
        .collect()
}

fn set(ids: &[u16]) -> HashSet<u16> {
    ids.iter().copied().collect()
}

fn all_recipients(mixes: &[GroupMix]) -> HashSet<u16> {
    mixes.iter().flat_map(|m| m.recipients.iter().copied()).collect()
}

#[test]
fn packets_of_unresolved_clients_are_dropped() {
    let mut mixer = MixerState::new();
    assert_eq!(mixer.receive(1), Reception::Unresolved);
    mixer.update_routing(lobby());
    assert_eq!(mixer.receive(1), Reception::NewSpeaker);
    assert_eq!(mixer.receive(9), Reception::Unresolved);
    mixer.add_speaker(9, 0);
    mixer.enqueue(9, &frame(5), 0);
    assert_eq!(mixer.receive(9), Reception::Unresolved);
    assert!(tick(&mut mixer, &RadioNoise::new(), &[]).mixes.is_empty());
    mixer.add_speaker(1, 0);
    assert_eq!(mixer.receive(1), Reception::Ready);
}

#[test]
fn speaker_who_is_no_longer_resolved_is_not_let_wait() {
    let mut mixer = MixerState::new();
    mixer.update_routing(lobby());
    speaking(&mut mixer, 1, 5, 0);
    tick(&mut mixer, &RadioNoise::new(), &[]);
    mixer.update_routing(routing(&[("b", 2, "join", 101, "")]));
    assert_eq!(mixer.receive(1), Reception::Unresolved);
    mixer.enqueue(1, &frame(5), 0);
    assert!(mixer.begin_output(&RadioNoise::new()).voices.speakers.is_empty());
}

#[test]
fn nothing_is_sent_before_the_first_routing_data() {
    let mut mixer = MixerState::new();
    let mut noise = RadioNoise::new();
    noise.force_tail();
    for id in 0..50 {
        assert_eq!(mixer.receive(id), Reception::Unresolved);
        mixer.add_speaker(id, 0);
        mixer.enqueue(id, &frame(7), 0);
        let deliveries = tick(&mut mixer, &noise, &[]);
        assert!(deliveries.mixes.is_empty());
        assert!(deliveries.switch.started.is_empty());
        assert!(deliveries.switch.stopped.is_empty());
        assert!(deliveries.sounds.is_empty());
    }
}

#[test]
fn lone_speaker_is_relayed_unchanged() {
    let mut mixer = MixerState::new();
    mixer.update_routing(lobby());
    speaking(&mut mixer, 1, 1234, 0);
    let deliveries = tick(&mut mixer, &RadioNoise::new(), &[]);
    assert_eq!(deliveries.mixes.len(), 1);
    assert_eq!(deliveries.mixes[0].samples, frame(1234));
    assert_eq!(deliveries.mixes[0].speakers, vec![1]);
    assert_eq!(all_recipients(&deliveries.mixes), set(&[2, 3]));
    assert!(tick(&mut mixer, &RadioNoise::new(), &[]).mixes.is_empty());
}

#[test]
fn voices_of_one_room_are_summed_and_saturate() {
    let mut mixer = MixerState::new();
    mixer.update_routing(lobby());
    for (a, b) in [(1000, -300), (30000, 30000)] {
        speaking(&mut mixer, 1, a, 0);
        speaking(&mut mixer, 2, b, 0);
    }
    let noise = RadioNoise::new();
    assert_eq!(sent_to(&tick(&mut mixer, &noise, &[]).mixes, 3), vec![frame(700)]);
    assert_eq!(sent_to(&tick(&mut mixer, &noise, &[]).mixes, 3), vec![frame(32767)]);
}

#[test]
fn coalitions_that_speak_at_once_are_kept_apart() {
    let mut mixer = MixerState::new();
    mixer.update_routing(routing(&[
        ("a", 1, "join", 101, ""),
        ("b", 2, "join", 201, ""),
        ("c", 3, "join", 101, ""),
        ("d", 4, "join", 201, ""),
    ]));
    speaking(&mut mixer, 1, 100, 0);
    speaking(&mut mixer, 2, 7, 0);
    let mixes = tick(&mut mixer, &RadioNoise::new(), &[]).mixes;
    assert_eq!(sent_to(&mixes, 3), vec![frame(100)]);
    assert_eq!(sent_to(&mixes, 4), vec![frame(7)]);
    assert_eq!(all_recipients(&mixes), set(&[3, 4]));
}

#[test]
fn lobby_and_game_that_speak_at_once_are_kept_apart() {
    let mut mixer = MixerState::new();
    mixer.update_routing(routing(&[
        ("a", 1, "join", 101, ""),
        ("b", 2, "join", 101, ""),
        ("p", 3, "spawn", 101, "aircraft"),
        ("q", 4, "spawn", 101, "aircraft"),
        ("s", 5, "spawn", 101, "Spectator"),
    ]));
    speaking(&mut mixer, 1, 100, 0);
    speaking(&mut mixer, 3, 7, 0);
    let mixes = tick(&mut mixer, &RadioNoise::new(), &[("p", &["q", "s"])]).mixes;
    assert_eq!(sent_to(&mixes, 2), vec![frame(100)]);
    assert_eq!(sent_to(&mixes, 5), vec![frame(100)]);
    assert_eq!(sent_to(&mixes, 4), vec![frame(7)]);
    assert_eq!(all_recipients(&mixes), set(&[2, 4, 5]));
}

#[test]
fn listeners_hear_those_in_range_alone() {
    let mut mixer = MixerState::new();
    mixer.update_routing(routing(&[
        ("p", 1, "spawn", 101, "aircraft"),
        ("q", 2, "spawn", 101, "aircraft"),
        ("x", 3, "spawn", 101, "aircraft"),
        ("y", 4, "spawn", 101, "aircraft"),
        ("z", 5, "spawn", 101, "aircraft"),
        ("w", 6, "spawn", 101, "aircraft"),
    ]));
    speaking(&mut mixer, 1, 100, 0);
    speaking(&mut mixer, 2, 7, 0);
    let near: [(&str, &[&str]); 2] = [("p", &["x", "y", "w", "q"]), ("q", &["y", "z", "w", "p"])];
    let mixes = tick(&mut mixer, &RadioNoise::new(), &near).mixes;
    assert_eq!(sent_to(&mixes, 3), vec![frame(100)]);
    assert_eq!(sent_to(&mixes, 4), vec![frame(107)]);
    assert_eq!(sent_to(&mixes, 6), vec![frame(107)]);
    assert_eq!(sent_to(&mixes, 5), vec![frame(7)]);
    assert_eq!(all_recipients(&mixes), set(&[3, 4, 5, 6]));
    assert_eq!(mixes.len(), 3);
}

#[test]
fn frames_wait_for_their_tick() {
    let mut mixer = MixerState::new();
    mixer.update_routing(lobby());
    for value in 1..=10 {
        speaking(&mut mixer, 1, value, 0);
    }
    let noise = RadioNoise::new();
    for value in 3..=10 {
        assert_eq!(sent_to(&tick(&mut mixer, &noise, &[]).mixes, 2), vec![frame(value)]);
    }
    assert!(mixer.begin_output(&noise).voices.speakers.is_empty());
}

#[test]
fn uid_of_a_speaker_is_refreshed() {
    let mut mixer = MixerState::new();
    mixer.update_routing(lobby());
    speaking(&mut mixer, 1, 1, 0);
    tick(&mut mixer, &RadioNoise::new(), &[]);
    mixer.update_routing(routing(&[("z", 1, "join", 101, "")]));
    speaking(&mut mixer, 1, 1, 0);
    let output = mixer.begin_output(&RadioNoise::new());
    assert_eq!(output.voices.speakers, vec![(1, "z".to_string())]);
    assert_eq!(output.voices.frames, vec![frame(1)]);
    assert_eq!(output.voices.active_set, set(&[1]));
}

#[test]
fn only_speakers_of_the_game_are_measured() {
    let mut mixer = MixerState::new();
    mixer.update_routing(routing(&[
        ("a", 1, "join", 101, ""),
        ("p", 2, "spawn", 101, "aircraft"),
    ]));
    speaking(&mut mixer, 1, 1, 0);
    speaking(&mut mixer, 2, 1, 0);
    let output = mixer.begin_output(&RadioNoise::new());
    assert_eq!(output.spheres.len(), 2);
    for (speaker, sphere) in output.voices.speakers.iter().zip(output.spheres.iter()) {
        if speaker.0 == 1 {
            assert_eq!(*sphere, None);
        } else {
            assert_eq!(sphere.unwrap().country, 101);
            assert_eq!(f64::from_bits(sphere.unwrap().radius), 100.0);
        }
    }
}

#[test]
fn silence_is_not_shaped() {
    let mut mixer = MixerState::new();
    mixer.update_routing(lobby());
    let mut noise = RadioNoise::new();
    let output = mixer.begin_output(&noise);
    assert_eq!(output.shaping, None);
    assert!(output.spheres.is_empty());
    noise.force_tail();
    let shaping = mixer.begin_output(&noise).shaping.unwrap();
    assert!(!shaping.had_speakers);
    assert!(shaping.effects);
}

#[test]
fn shape_comes_from_the_routing_data() {
    let mut mixer = MixerState::new();
    assert!(mixer.routing_data().is_none());
    let mut noise = RadioNoise::new();
    noise.force_tail();
    let shaping = mixer.begin_output(&noise).shaping.unwrap();
    assert_eq!(f32::from_bits(shaping.output_gain), 1.0);
    assert!(!shaping.effects);
    mixer.update_routing(lobby());
    assert_eq!(mixer.routing_data().unwrap().uid_to_client_id["a"], 1);
    speaking(&mut mixer, 1, 5, 0);
    let shaping = mixer.begin_output(&RadioNoise::new()).shaping.unwrap();
    assert!(shaping.had_speakers);
    assert_eq!(f32::from_bits(shaping.output_gain), 3.0);
    assert!(shaping.effects);
}

#[test]
fn last_listeners_are_sent_the_squelch_tail() {
    let mut mixer = MixerState::new();
    mixer.update_routing(lobby());
    let mut noise = RadioNoise::new();
    speaking(&mut mixer, 1, 100, 0);
    let mixes = tick(&mut mixer, &noise, &[]).mixes;
    assert_eq!(all_recipients(&mixes), set(&[2, 3]));
    noise.process(true);

    let mixes = tick(&mut mixer, &noise, &[]).mixes;
    assert_eq!(mixes.len(), 1);
    assert_eq!(mixes[0].samples, frame(0));
    assert!(mixes[0].speakers.is_empty());
    assert_eq!(all_recipients(&mixes), set(&[2, 3]));
    noise.process(false);
    noise.end_tail();

    assert!(tick(&mut mixer, &noise, &[]).mixes.is_empty());
}

#[test]
fn tail_needs_effects_and_listeners() {
    let mut noise = RadioNoise::new();
    noise.process(true);

    let mut mixer = MixerState::new();
    let mut plain = lobby();
    plain.radio_effects_enabled = false;
    mixer.update_routing(plain);
    speaking(&mut mixer, 1, 100, 0);
    assert!(!tick(&mut mixer, &noise, &[]).mixes.is_empty());
    assert!(tick(&mut mixer, &noise, &[]).mixes.is_empty());

    let mut mixer = MixerState::new();
    mixer.update_routing(routing(&[("a", 1, "join", 101, "")]));
    speaking(&mut mixer, 1, 100, 0);
    assert!(tick(&mut mixer, &noise, &[]).mixes.is_empty());
    assert!(tick(&mut mixer, &noise, &[]).mixes.is_empty());
}

#[test]
fn forced_client_is_sent_everything() {
    let mut mixer = MixerState::new();
    let mut data = routing(&[("a", 1, "join", 101, ""), ("b", 2, "join", 201, "")]);
    data.force_whisper_client_id = Some(9);
    mixer.update_routing(data);
    speaking(&mut mixer, 1, 5, 0);
    speaking(&mut mixer, 2, 6, 0);
    let mut noise = RadioNoise::new();
    let mixes = tick(&mut mixer, &noise, &[]).mixes;
    assert_eq!(mixes.len(), 1);
    assert_eq!(mixes[0].samples, frame(11));
    assert_eq!(mixes[0].recipients, vec![9]);
    assert_eq!(mixes[0].speakers.iter().copied().collect::<HashSet<u16>>(), set(&[1, 2]));
    noise.process(true);
    let mixes = tick(&mut mixer, &noise, &[]).mixes;
    assert_eq!(mixes.len(), 1);
    assert_eq!(mixes[0].samples, frame(0));
    assert_eq!(mixes[0].recipients, vec![9]);
}

#[test]
fn mixes_are_made_for_groups_of_listeners() {
    let data = routing(&[
        ("a", 1, "join", 101, ""),
        ("b", 2, "join", 101, ""),
        ("c", 3, "join", 201, ""),
        ("d", 4, "join", 201, ""),
    ]);
    let speakers = vec![(1u16, "a".to_string()), (3, "c".to_string())];
    let frames = vec![frame(1), frame(2)];
    assert_eq!(ids_of(&speakers), vec![1, 3]);
    assert_eq!(mix_all(&frames), frame(3));
    assert_eq!(mix_all(&Vec::new()), frame(0));
    let (mixes, mut listeners) =
        relay_voices(&data, &speakers, &frames, &Vec::new(), &set(&[1, 3]));
    listeners.sort();
    assert_eq!(listeners, vec![2, 4]);
    assert_eq!(mixes.len(), 2);
    assert_eq!(sent_to(&mixes, 2), vec![frame(1)]);
    assert_eq!(sent_to(&mixes, 4), vec![frame(2)]);
}

#[test]
fn begin_and_end_of_speech_are_heard() {
    let mut mixer = MixerState::new();
    mixer.update_routing(lobby());
    let noise = RadioNoise::new();
    speaking(&mut mixer, 1, 1, 0);
    speaking(&mut mixer, 2, 1, 0);
    speaking(&mut mixer, 2, 1, 0);
    let mut deliveries = tick(&mut mixer, &noise, &[]);
    let started: HashSet<u16> = deliveries.switch.started.iter().copied().collect();
    assert_eq!(started, set(&[1, 2]));
    assert!(deliveries.switch.stopped.is_empty());
    deliveries.sounds.sort_by_key(|s| s.0);
    assert_eq!(deliveries.sounds, vec![(1, SidetoneSound::Click), (2, SidetoneSound::Click)]);
    assert_eq!(all_recipients(&deliveries.mixes), set(&[3]));

    // The click of the first client dies away; the second goes on speaking.
    let mut track = mixer.sidetone(1).unwrap();
    track.end_click();
    mixer.set_sidetone(1, track);
    let mut deliveries = tick(&mut mixer, &noise, &[]);
    assert!(deliveries.switch.started.is_empty());
    assert_eq!(deliveries.switch.stopped, vec![(1, Lcg::new(54321).next_u32())]);
    deliveries.sounds.sort_by_key(|s| s.0);
    assert_eq!(deliveries.sounds, vec![(1, SidetoneSound::Tail), (2, SidetoneSound::Click)]);
}

#[test]
fn sidetones_that_died_away_are_dropped() {
    let mut mixer = MixerState::new();
    mixer.update_routing(lobby());
    let noise = RadioNoise::new();
    speaking(&mut mixer, 1, 1, 0);
    speaking(&mut mixer, 1, 1, 0);
    tick(&mut mixer, &noise, &[]);
    let mut track = mixer.sidetone(1).unwrap();
    track.end_click();
    mixer.set_sidetone(1, track);
    assert!(tick(&mut mixer, &noise, &[]).sounds.is_empty());
    assert!(mixer.sidetone(1).is_none());
    mixer.set_sidetone(1, track);
    assert!(mixer.sidetone(1).is_none());
}

#[test]
fn speakers_without_recent_sound_are_dropped() {
    let mut mixer = MixerState::new();
    mixer.update_routing(lobby());
    speaking(&mut mixer, 1, 1, 1000);
    speaking(&mut mixer, 2, 1, 1001);
    let now = 1000 + INACTIVE_TIMEOUT_NS;
    for _ in 1..CLEANUP_INTERVAL_TICKS {
        assert_eq!(mixer.end_tick(now), None);
        assert_eq!(mixer.receive(1), Reception::Ready);
    }
    assert_eq!(mixer.end_tick(now), Some(vec![1]));
    assert_eq!(mixer.receive(1), Reception::NewSpeaker);
    assert_eq!(mixer.receive(2), Reception::Ready);
    for _ in 1..CLEANUP_INTERVAL_TICKS {
        assert_eq!(mixer.end_tick(now + 1), None);
    }
    assert_eq!(mixer.end_tick(now + 1), Some(vec![2]));
}

#[test]
fn clock_before_the_last_sound_drops_nobody() {
    let mut mixer = MixerState::new();
    mixer.update_routing(lobby());
    speaking(&mut mixer, 1, 1, 5_000);
    for _ in 1..CLEANUP_INTERVAL_TICKS {
        assert_eq!(mixer.end_tick(0), None);
    }
    assert_eq!(mixer.end_tick(0), Some(vec![]));
    assert_eq!(mixer.receive(1), Reception::Ready);
}

#[test]
fn rest_of_a_tick_is_planned() {
    let quick = pace(1_000_000);
    assert_eq!(quick, Pace { sleep_ns: 18_000_000, spin: true, overrun: false });
    assert_eq!(pace(15_000_000), Pace { sleep_ns: 4_000_000, spin: true, overrun: false });
    assert_eq!(pace(15_000_001).overrun, true);
    assert_eq!(pace(18_000_000), Pace { sleep_ns: 0, spin: true, overrun: true });
    assert_eq!(pace(17_999_999).sleep_ns, 1_000_001);
    assert_eq!(pace(20_000_000), Pace { sleep_ns: 0, spin: false, overrun: true });
    assert_eq!(pace(u64::MAX), Pace { sleep_ns: 0, spin: false, overrun: true });
}
