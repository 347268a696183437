//! The bot on the TeamSpeak server: who it is there, what it passes on to the mixer, what it
//! tells the mixer about the players, and what it whispers.
use rustc_hash::FxHashMap;
use tsclientlib::Identity;
use tsproto_packets::packets::{AudioData, CodecType, OutAudio};
use vstd::prelude::*;

use crate::audio::mixer::{MixerInput, MixerOutput};
use crate::audio::routing::RoutingSnapshot;
use crate::audio::routing_laws;
use crate::config::{AudioConfig, RelayConfig, Ts3Config};
use crate::fx_map;
use crate::position;
use crate::position::{PositionSnapshot, Roster};
use crate::ts3_client_list;
use crate::ts3_client_list::Ts3ClientList;

verus! {

/// An identity on TeamSpeak servers.
#[verifier::external_type_specification]
#[verifier::external_body]
pub struct ExIdentity(Identity);

/// The identity that a key stands for, or what is wrong with the key.
pub uninterp spec fn identity_of_key(key: Seq<char>) -> Result<Identity, Seq<char>>;

/// `tsclientlib::Identity::new_from_str`: the identity that a key stands for, or the text of the
/// error that it reports.
#[verifier::external_body]
fn import_identity(key: &str) -> (identity: Result<Identity, String>)
    ensures
        match identity {
            Ok(id) => identity_of_key(key@) matches Ok(named) && named == id,
            Err(cause) => identity_of_key(key@) matches Err(named) && named == cause@,
        },
{
    match Identity::new_from_str(key) {
        Ok(id) => Ok(id),
        Err(e) => Err(e.to_string()),
    }
}

/// `tsclientlib::Identity::create`: a new identity. Nothing is claimed of it: it is made of random
/// numbers.
#[verifier::external_body]
fn create_identity() -> (identity: Identity) {
    Identity::create()
}

/// A number in two bytes, the high one first.
pub open spec fn two_bytes(n: u16) -> Seq<u8> {
    seq![(n / 256) as u8, (n % 256) as u8]
}

/// Client ids, each in two bytes.
pub open spec fn client_bytes(clients: Seq<u16>) -> Seq<u8>
    decreases clients.len(),
{
    if clients.len() == 0 {
        Seq::empty()
    } else {
        client_bytes(clients.drop_last()) + two_bytes(clients.last())
    }
}

/// The header of a packet of whispered voice on its way to the server: zeros, to be filled in when
/// the packet is sent, and the packet type.
pub open spec fn whisper_header() -> Seq<u8> {
    Seq::new(12, |i: int| 0u8).push(1)
}

/// A packet of whispered voice: the header, the number of the packet, the codec (Opus voice), the
/// number of channels (none) and of clients, the clients, and the sound. The number of clients is
/// written modulo 256.
pub open spec fn whisper_bytes(id: u16, clients: Seq<u16>, data: Seq<u8>) -> Seq<u8> {
    whisper_header() + two_bytes(id) + seq![4u8, 0u8, (clients.len() % 256) as u8] + client_bytes(
        clients,
    ) + data
}

/// `tsproto_packets::packets::OutAudio::new` for Opus voice that is whispered to clients, as bytes
/// by `OutPacket::into_vec`: the bytes of the packet.
#[verifier::external_body]
fn opus_whisper(id: u16, clients: Vec<u16>, data: &Vec<u8>) -> (bytes: Vec<u8>)
    ensures
        bytes@ == whisper_bytes(id, clients@, data@),
{
    let codec = CodecType::OpusVoice;
    let audio = AudioData::C2SWhisper { id, codec, channels: vec![], clients, data };
    OutAudio::new(&audio).into_vec()
}

/// Why the bot has no identity.
#[derive(Debug)]
pub enum IdentityError {
    /// The configured key stands for none.
    InvalidKey { cause: String },
}

/// What comes of reading a configured key.
pub fn identity_from(imported: Result<Identity, String>) -> (identity: Result<
    Identity,
    IdentityError,
>)
    ensures
        match imported {
            Ok(id) => identity matches Ok(own) && own == id,
            Err(text) => identity matches Err(IdentityError::InvalidKey { cause }) && cause == text,
        },
{
    match imported {
        Ok(id) => Ok(id),
        Err(cause) => Err(IdentityError::InvalidKey { cause }),
    }
}

/// The packet that is passed on to the mixer. An empty one is not.
pub fn incoming(from: u16, data: &[u8]) -> (input: Option<MixerInput>)
    ensures
        match input {
            Some(packet) => data@.len() > 0 && packet.0 == from && packet.1@ == data@,
            None => data@.len() == 0,
        },
{
    if data.len() == 0 {
        None
    } else {
        Some((from, vstd::slice::slice_to_vec(data)))
    }
}

/// `ids` holds the players that are online, each with the id of a client that has their UID.
pub open spec fn resolves_players(
    ids: Map<Seq<char>, u16>,
    clients: Map<u16, Option<Seq<char>>>,
    roster: Roster,
) -> bool {
    &&& forall|uid: Seq<char>| #[trigger]
        ids.contains_key(uid) <==> ts3_client_list::is_online(clients, uid) && roster.find(
            uid,
        ) is Some
    &&& forall|uid: Seq<char>| #[trigger]
        ids.contains_key(uid) ==> ts3_client_list::has_uid(clients, ids[uid], uid)
}

/// The client ids of those UIDs that belong to players.
fn retain_players(
    all: &FxHashMap<String, u16>,
    positions: &PositionSnapshot,
) -> (ids: FxHashMap<String, u16>)
    ensures
        fx_map::keyed(ids) == fx_map::keyed(*all).restrict(positions@.merged().dom()),
{
    let required = positions.to_uid_map();
    let entries = fx_map::entries(all);
    let mut ids: FxHashMap<String, u16> = FxHashMap::default();
    proof {
        fx_map::lemma_empty(ids);
    }
    let ghost wanted = positions@.merged().dom();
    let mut i: usize = 0;
    while i < entries.len()
        invariant
            i <= entries@.len(),
            fx_map::enumerates(entries@, fx_map::keyed(*all)),
            position::players(required).dom() == wanted,
            forall|uid: Seq<char>| #[trigger]
                fx_map::keyed(ids).contains_key(uid) <==> wanted.contains(uid) && exists|j: int|
                    0 <= j < i && (#[trigger] entries@[j]).0@ == uid,
            forall|uid: Seq<char>| #[trigger]
                fx_map::keyed(ids).contains_key(uid) ==> fx_map::keyed(ids)[uid] == fx_map::keyed(
                    *all,
                )[uid],
        decreases entries.len() - i,
    {
        let ghost before = fx_map::keyed(ids);
        let (uid, id) = entries[i];
        let found = fx_map::get(&required, uid);
        assert(found is Some <==> wanted.contains(uid@)) by {
            assert(position::players(required).contains_key(uid@) <==> fx_map::keyed(
                required,
            ).contains_key(uid@));
        }
        if found.is_some() {
            fx_map::insert(&mut ids, uid.clone(), *id);
        }
        assert forall|u: Seq<char>| #[trigger] fx_map::keyed(ids).contains_key(u) <==> wanted.contains(u)
            && exists|j: int| 0 <= j < i + 1 && (#[trigger] entries@[j]).0@ == u by {
            assert(before.contains_key(u) <==> wanted.contains(u) && exists|j: int|
                0 <= j < i && (#[trigger] entries@[j]).0@ == u);
            if u == uid@ {
                assert(entries@[i as int].0@ == u);
            }
        }
        i += 1;
    }
    assert(fx_map::keyed(ids) =~= fx_map::keyed(*all).restrict(wanted));
    ids
}

/// The bot on the TeamSpeak server.
#[derive(Debug)]
pub struct Ts3Client {
    pub config: Ts3Config,
    pub relay: RelayConfig,
    pub audio: AudioConfig,
}

impl Ts3Client {
    /// A bot that is configured like this.
    pub fn new(config: Ts3Config, relay: RelayConfig, audio: AudioConfig) -> (client: Self)
        ensures
            client == (Ts3Client { config, relay, audio }),
    {
        Ts3Client { config, relay, audio }
    }

    /// The identity of the bot: that of the configured key, or a new one where none is
    /// configured.
    pub fn identity(&self) -> (identity: Result<Identity, IdentityError>)
        ensures
            match self.config.identity_key {
                Some(key) => match identity_of_key(key@) {
                    Ok(id) => identity matches Ok(own) && own == id,
                    Err(text) => identity matches Err(IdentityError::InvalidKey { cause })
                        && cause@ == text,
                },
                None => identity is Ok,
            },
    {
        match &self.config.identity_key {
            Some(key) => identity_from(import_identity(key.as_str())),
            None => Ok(create_identity()),
        }
    }

    /// What the mixer is told of the players, and of the clients that they speak and listen with.
    pub fn routing_snapshot(
        &self,
        positions: PositionSnapshot,
        clients: &Ts3ClientList,
    ) -> (snapshot: RoutingSnapshot)
        ensures
            resolves_players(snapshot@.ids, clients@, positions@),
            snapshot@.roster == positions@,
            snapshot.max_distance == self.relay.max_distance,
            snapshot.coalition_check == self.relay.coalition_check,
            snapshot.radio_effects_enabled == self.relay.radio_effects_enabled,
            snapshot.output_gain == self.audio.output_gain,
            snapshot.force_whisper_client_id == self.relay.force_whisper_client_id,
    {
        let all = clients.uid_to_client_id();
        let uid_to_client_id = retain_players(&all, &positions);
        proof {
            assert forall|uid: Seq<char>| positions@.merged().contains_key(uid) <==> #[trigger] positions@.find(
                uid,
            ) is Some by {
                crate::roster_laws::law_find_agrees_with_merged(positions@, uid);
            }
        }
        RoutingSnapshot {
            uid_to_client_id,
            positions,
            max_distance: self.relay.max_distance,
            coalition_check: self.relay.coalition_check,
            radio_effects_enabled: self.relay.radio_effects_enabled,
            output_gain: self.audio.output_gain,
            force_whisper_client_id: self.relay.force_whisper_client_id,
        }
    }
}

/// Something that happens while the bot is connected.
#[derive(Debug)]
pub enum RelayEvent {
    /// The bot is asked to stop.
    Shutdown,
    /// The connection no longer reports events.
    EventTaskEnded,
    /// The mixer is no longer told of the players.
    RoutingTaskEnded,
    /// The mixer has sound for clients.
    Sound(MixerOutput),
}

/// What the bot does about it.
#[derive(Debug)]
pub enum RelayAction {
    /// Disconnect.
    Stop,
    /// Send a packet.
    Send(Vec<u8>),
    /// Go on.
    Wait,
}

/// How often the mixer is told of the players, in milliseconds: once a second.
pub const ROUTING_INTERVAL_MS: u64 = 1000;

impl RelayEvent {
    /// Sound that is sent: there are clients that it is for.
    pub open spec fn is_sent(self) -> bool {
        self matches RelayEvent::Sound((data, recipients)) && recipients@.len() > 0
    }
}

/// The number of the next packet after an event.
pub open spec fn id_after(id: u16, event: RelayEvent) -> u16 {
    if event.is_sent() {
        ((id + 1) % 0x1_0000) as u16
    } else {
        id
    }
}

/// The number of the next packet after several events, from the start.
pub open spec fn id_after_all(events: Seq<RelayEvent>) -> u16
    decreases events.len(),
{
    if events.len() == 0 {
        0
    } else {
        id_after(id_after_all(events.drop_last()), events.last())
    }
}

/// How many of several events were sent.
pub open spec fn count_sent(events: Seq<RelayEvent>) -> nat
    decreases events.len(),
{
    if events.len() == 0 {
        0
    } else {
        count_sent(events.drop_last()) + if events.last().is_sent() {
            1nat
        } else {
            0nat
        }
    }
}

/// Packets are numbered in the order in which they are sent, from zero, modulo the range of the
/// numbers: the number of the next is how many were sent before.
pub proof fn law_packets_numbered(events: Seq<RelayEvent>)
    ensures
        id_after_all(events) == count_sent(events) % 0x1_0000,
    decreases events.len(),
{
    if events.len() > 0 {
        law_packets_numbered(events.drop_last());
    }
}

/// Numbers the packets that the bot whispers.
#[derive(Debug)]
pub struct Whisper {
    pub next_id: u16,
}

impl Whisper {
    /// Starts at zero.
    pub fn new() -> (whisper: Self)
        ensures
            whisper.next_id == 0,
    {
        Whisper { next_id: 0 }
    }

    /// Decides what to do about an event. Sound for nobody is not sent and takes no number.
    pub fn step(&mut self, event: RelayEvent) -> (action: RelayAction)
        ensures
            final(self).next_id == id_after(old(self).next_id, event),
            match event {
                RelayEvent::Sound((data, recipients)) => if recipients@.len() == 0 {
                    action is Wait
                } else {
                    action matches RelayAction::Send(bytes) && bytes@ == whisper_bytes(
                        old(self).next_id,
                        recipients@,
                        data@,
                    )
                },
                _ => action is Stop,
            },
    {
        match event {
            RelayEvent::Sound((data, recipients)) => {
                if recipients.len() == 0 {
                    return RelayAction::Wait;
                }
                let id: u16 = self.next_id;
                self.next_id = id.wrapping_add(1);
                RelayAction::Send(opus_whisper(id, recipients, &data))
            },
            _ => RelayAction::Stop,
        }
    }
}

/// The length of a packet of whispered voice.
pub proof fn law_packet_length(id: u16, clients: Seq<u16>, data: Seq<u8>)
    ensures
        whisper_bytes(id, clients, data).len() == 18 + 2 * clients.len() + data.len(),
{
    lemma_client_bytes_length(clients);
}

proof fn lemma_client_bytes_length(clients: Seq<u16>)
    ensures
        client_bytes(clients).len() == 2 * clients.len(),
    decreases clients.len(),
{
    if clients.len() > 0 {
        lemma_client_bytes_length(clients.drop_last());
    }
}

/// Client ids can be read back out of their bytes.
pub proof fn law_clients_readable(clients: Seq<u16>, i: int)
    requires
        0 <= i < clients.len(),
    ensures
        clients[i] == 256 * client_bytes(clients)[2 * i] + client_bytes(clients)[2 * i + 1],
    decreases clients.len(),
{
    lemma_client_bytes_length(clients.drop_last());
    if i < clients.len() - 1 {
        law_clients_readable(clients.drop_last(), i);
    }
}

/// The players that the mixer is told of never share a client.
pub proof fn law_one_player_per_client(
    ids: Map<Seq<char>, u16>,
    clients: Map<u16, Option<Seq<char>>>,
    roster: Roster,
)
    requires
        resolves_players(ids, clients, roster),
    ensures
        routing_laws::one_uid_per_client(ids),
{
}

/// The mixer is told of no client that is not that of a player.
pub proof fn law_only_players_resolved(
    ids: Map<Seq<char>, u16>,
    clients: Map<u16, Option<Seq<char>>>,
    roster: Roster,
    uid: Seq<char>,
)
    requires
        resolves_players(ids, clients, roster),
        roster.find(uid) is None,
    ensures
        !ids.contains_key(uid),
{
}

/// What stands where in a packet of whispered voice: twelve zeros and a one, the number of the
/// packet, the codec, no channels, the number of clients, the clients, and the sound.
pub proof fn law_packet_layout(id: u16, clients: Seq<u16>, data: Seq<u8>, i: int)
    ensures
        ({
            let packet = whisper_bytes(id, clients, data);
            let sound = 18 + 2 * clients.len();
            &&& 0 <= i < 12 ==> packet[i] == 0
            &&& packet[12] == 1
            &&& 256 * packet[13] + packet[14] == id
            &&& packet[15] == 4
            &&& packet[16] == 0
            &&& (clients.len() - packet[17]) % 256 == 0
            &&& 0 <= i < clients.len() ==> 256 * packet[18 + 2 * i] + packet[18 + 2 * i + 1]
                == clients[i]
            &&& packet.len() == sound + data.len()
            &&& packet.subrange(sound as int, packet.len() as int) == data
        }),
{
    lemma_client_bytes_length(clients);
    let packet = whisper_bytes(id, clients, data);
    let sound = 18 + 2 * clients.len();
    assert(packet.subrange(sound as int, packet.len() as int) =~= data);
    if 0 <= i < clients.len() {
        law_clients_readable(clients, i);
        assert(packet[18 + 2 * i] == client_bytes(clients)[2 * i]);
        assert(packet[18 + 2 * i + 1] == client_bytes(clients)[2 * i + 1]);
    }
}

/// A packet counts exactly if it is sound with somebody to whisper it to: then the number goes up by
/// one, and after the last begins anew; otherwise it stays.
pub proof fn law_next_number(id: u16, event: RelayEvent)
    ensures
        event matches RelayEvent::Sound((data, recipients)) ==> (if recipients@.len() > 0 {
            id_after(id, event) == (if id == 65535 {
                0
            } else {
                id + 1
            })
        } else {
            id_after(id, event) == id
        }),
        !(event is Sound) ==> id_after(id, event) == id,
{
}

/// A resolution of players holds exactly the UIDs that a client in the list has and that are on the
/// roster; the client that it gives has the UID.
pub proof fn law_players_resolved(
    ids: Map<Seq<char>, u16>,
    clients: Map<u16, Option<Seq<char>>>,
    roster: Roster,
    uid: Seq<char>,
    id: u16,
)
    requires
        resolves_players(ids, clients, roster),
    ensures
        clients.contains_key(id) && clients[id] == Some(uid) && roster.find(uid) is Some
            ==> ids.contains_key(uid),
        ids.contains_key(uid) ==> {
            &&& roster.find(uid) is Some
            &&& clients.contains_key(ids[uid])
            &&& clients[ids[uid]] == Some(uid)
        },
{
    if clients.contains_key(id) && clients[id] == Some(uid) {
        assert(ts3_client_list::has_uid(clients, id, uid));
        assert(ts3_client_list::is_online(clients, uid));
    }
}

} // verus!
