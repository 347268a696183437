use tsproto_packets::packets::{AudioData, CodecType, Direction, InPacket};

use aviabot::config::{AudioConfig, RelayConfig, Ts3Config};
use aviabot::position::{PlayerPositionService, PlayerSession};
use aviabot::ts3_client::{
    identity_from, incoming, IdentityError, RelayAction, RelayEvent, Ts3Client, Whisper,
    ROUTING_INTERVAL_MS,
};
use aviabot::ts3_client_list::{Ts3ClientInfo, Ts3ClientList};

const KEY: &str =
    "MG8DAgeAAgEgAiEA6rtKxDn/o/Bo50rNtAE5Ph3h2RKLHQ0gbFkvm2yA79kCIQCrfzAZts/\
     vHP+3MOetKLjNnpZXt4c6U3UB4gWLKR4H9AIgYTyJofmztcTBjq3KZcDdxu+G4RPVwE5vg8VaN2jbQao=";

fn client(identity_key: Option<&str>) -> Ts3Client {
    Ts3Client::new(
        Ts3Config {
            address: "127.0.0.1:9987".to_string(),
            name: "Dispatcher".to_string(),
            channel: "Test".to_string(),
            channel_password: None,
            server_password: None,
            identity_key: identity_key.map(|s| s.to_string()),
        },
        RelayConfig {
            max_distance: 42000.0f64.to_bits(),
            coalition_check: true,
            radio_effects_enabled: false,
            force_whisper_client_id: Some(4),
        },
        AudioConfig {
            output_gain: 2.0f32.to_bits(),
            frame_ms: 20,
            sample_rate: 48000,
            synthetic_speakers: 0,
        },
    )
}

fn join(service: &mut PlayerPositionService, uid: &str) {
    service.handle_session(PlayerSession {
        event: "join".to_string(),
        id: 1,
        gamer_name: uid.to_string(),
        country: 101,
        team_speak_id: Some(uid.to_string()),
        x: None,
        y: None,
        z: None,
        aircraft_type: None,
        name: None,
        pid: None,
    });
}

#[test]
fn configured_key_gives_its_identity() {
    let identity = client(Some(KEY)).identity().unwrap();
    assert_eq!(identity.key().to_pub().get_uid(), "test/9PZ9vww/Bpf5vJxtJhpz80=");
    let with_counter = format!("2792354V{}", KEY);
    let identity = client(Some(&with_counter)).identity().unwrap();
    assert_eq!(identity.counter(), 2792354);
    assert_eq!(identity.level(), 21);
}

#[test]
fn invalid_key_is_an_error() {
    for key in ["", "your-ts3-identity-key-here", "12V", "AAAA"] {
        match client(Some(key)).identity() {
            Err(IdentityError::InvalidKey { cause }) => {
                assert_eq!(cause, "Any known methods to decode the key failed");
            }
            Ok(_) => panic!("{} is no key", key),
        }
    }
    match identity_from(Err("bad".to_string())) {
        Err(IdentityError::InvalidKey { cause }) => assert_eq!(cause, "bad"),
        Ok(_) => panic!("an error is no identity"),
    }
}

#[test]
fn new_identity_is_made_without_a_key() {
    let first = client(None).identity().unwrap();
    let second = client(None).identity().unwrap();
    assert!(first.level() >= 8);
    assert_ne!(first.key().to_pub().get_uid(), second.key().to_pub().get_uid());
    assert!(identity_from(Ok(first)).is_ok());
}

#[test]
fn packets_with_voice_are_passed_on() {
    assert_eq!(incoming(7, &[1, 2, 3]), Some((7, vec![1, 2, 3])));
    assert_eq!(incoming(7, &[]), None);
}

#[test]
fn mixer_is_told_of_players_who_are_online() {
    let mut service = PlayerPositionService::new();
    join(&mut service, "a");
    join(&mut service, "b");
    let mut list = Ts3ClientList::new();
    for (client_id, uid) in [(1u16, "a"), (3, "c")] {
        list.insert_or_update(Ts3ClientInfo { client_id, uid: Some(uid.to_string()) });
    }
    let snapshot = client(None).routing_snapshot(service.snapshot(), &list);
    assert_eq!(snapshot.uid_to_client_id.len(), 1);
    assert_eq!(snapshot.uid_to_client_id["a"], 1);
    assert!(snapshot.positions.get_by_uid("b").is_some());
    assert_eq!(f64::from_bits(snapshot.max_distance), 42000.0);
    assert!(snapshot.coalition_check);
    assert!(!snapshot.radio_effects_enabled);
    assert_eq!(f32::from_bits(snapshot.output_gain), 2.0);
    assert_eq!(snapshot.force_whisper_client_id, Some(4));
}

#[test]
fn sound_is_whispered_to_its_recipients() {
    let mut whisper = Whisper::new();
    whisper.next_id = 0x1234;
    let action = whisper.step(RelayEvent::Sound((vec![9, 8, 7], vec![7, 0x0102])));
    let bytes = match action {
        RelayAction::Send(bytes) => bytes,
        other => panic!("{:?}", other),
    };
    assert_eq!(
        bytes,
        vec![0, 0, 0, 0, 0, 0, 0, 0, 0, 0, 0, 0, 1, 0x12, 0x34, 4, 0, 2, 0, 7, 1, 2, 9, 8, 7]
    );
    let packet = InPacket::try_new(Direction::C2S, &bytes).unwrap();
    let audio = packet.into_audio().unwrap();
    assert_eq!(
        audio.data(),
        &AudioData::C2SWhisper {
            id: 0x1234,
            codec: CodecType::OpusVoice,
            channels: vec![],
            clients: vec![7, 0x0102],
            data: &[9, 8, 7],
        }
    );
}

#[test]
fn packets_are_numbered_in_a_circle() {
    let mut whisper = Whisper::new();
    for n in 0..3u8 {
        match whisper.step(RelayEvent::Sound((vec![1], vec![2]))) {
            RelayAction::Send(bytes) => assert_eq!(bytes[13..15], [0, n]),
            other => panic!("{:?}", other),
        }
    }
    whisper.next_id = 65535;
    match whisper.step(RelayEvent::Sound((vec![1], vec![2]))) {
        RelayAction::Send(bytes) => assert_eq!(bytes[13..15], [255, 255]),
        other => panic!("{:?}", other),
    }
    assert_eq!(whisper.next_id, 0);
}

#[test]
fn packets_for_nobody_take_no_number() {
    let mut whisper = Whisper::new();
    let mut sent = 0u16;
    for n in 0..100u16 {
        let recipients = if n % 3 == 0 { vec![] } else { vec![n] };
        match whisper.step(RelayEvent::Sound((vec![1], recipients))) {
            RelayAction::Send(bytes) => {
                assert_eq!(bytes[13..15], sent.to_be_bytes());
                sent += 1;
            }
            RelayAction::Wait => assert_eq!(n % 3, 0),
            RelayAction::Stop => panic!("stopped"),
        }
        assert_eq!(whisper.next_id, sent);
    }
    assert_eq!(sent, 66);
}

#[test]
fn mixer_is_told_of_players_once_a_second() {
    assert_eq!(ROUTING_INTERVAL_MS, 1000);
}

#[test]
fn number_of_recipients_is_written_modulo_a_byte() {
    let mut whisper = Whisper::new();
    match whisper.step(RelayEvent::Sound((vec![1], vec![5; 258]))) {
        RelayAction::Send(bytes) => {
            assert_eq!(bytes[17], 2);
            assert_eq!(bytes.len(), 18 + 2 * 258 + 1);
        }
        other => panic!("{:?}", other),
    }
}

#[test]
fn sound_for_nobody_is_not_sent() {
    let mut whisper = Whisper::new();
    assert!(matches!(
        whisper.step(RelayEvent::Sound((vec![1], vec![]))),
        RelayAction::Wait
    ));
    assert_eq!(whisper.next_id, 0);
}

#[test]
fn bot_stops_when_asked_or_when_a_task_ends() {
    let mut whisper = Whisper::new();
    for event in [
        RelayEvent::Shutdown,
        RelayEvent::EventTaskEnded,
        RelayEvent::RoutingTaskEnded,
    ] {
        assert!(matches!(whisper.step(event), RelayAction::Stop));
    }
}
