//! Who hears whom.
use rustc_hash::FxHashMap;
use std::collections::HashSet;
use vstd::prelude::*;

use crate::fx_map;
use crate::lists;
use crate::number::{Double, Single};
use crate::position;
use crate::position::{PlayerPosition, PlayerView, PositionSnapshot, Roster};
use crate::text;

verus! {

/// Routing data, refreshed from time to time.
#[derive(Debug)]
pub struct RoutingSnapshot {
    pub uid_to_client_id: FxHashMap<String, u16>,
    pub positions: PositionSnapshot,
    pub max_distance: Double,
    pub coalition_check: bool,
    pub radio_effects_enabled: bool,
    pub output_gain: Single,
    /// If set, bypass all routing logic and whisper the mix to this client id.
    pub force_whisper_client_id: Option<u16>,
}

/// Routing data as a mathematical value.
pub struct RoutingView {
    pub ids: Map<Seq<char>, u16>,
    pub roster: Roster,
    pub max_distance: Double,
    pub coalition_check: bool,
    pub radio_effects_enabled: bool,
    pub output_gain: Single,
    pub force_whisper_client_id: Option<u16>,
}

impl View for RoutingSnapshot {
    type V = RoutingView;

    open spec fn view(&self) -> RoutingView {
        RoutingView {
            ids: fx_map::keyed(self.uid_to_client_id),
            roster: self.positions@,
            max_distance: self.max_distance,
            coalition_check: self.coalition_check,
            radio_effects_enabled: self.radio_effects_enabled,
            output_gain: self.output_gain,
            force_whisper_client_id: self.force_whisper_client_id,
        }
    }
}

/// The ball that the radio of an active speaker reaches.
#[derive(Debug, Clone, Copy, PartialEq, Eq, Structural)]
pub struct Sphere {
    pub country: i32,
    pub x: Double,
    pub y: Double,
    pub z: Double,
    pub radius: Double,
}

/// The texts of a list, as a set.
pub open spec fn text_set(list: Seq<String>) -> Set<Seq<char>> {
    Set::new(|s: Seq<char>| exists|j: int| 0 <= j < list.len() && (#[trigger] list[j])@ == s)
}

/// The UIDs that were measured to lie inside the sphere of the speaker with index `i`.
pub open spec fn near_of(near: Seq<Vec<String>>, i: int) -> Set<Seq<char>> {
    if 0 <= i < near.len() {
        text_set(near[i]@)
    } else {
        Set::empty()
    }
}

impl RoutingView {
    /// The speaker with this UID, if the roster knows the UID and the speaker's country is a
    /// coalition.
    pub open spec fn speaker(self, uid: Seq<char>) -> Option<PlayerView> {
        match self.roster.find(uid) {
            Some(p) => if position::is_coalition(p.country) {
                Some(p)
            } else {
                None
            },
            None => None,
        }
    }

    /// The sphere to be measured for a speaker: only a speaker who is active, and no spectator,
    /// has one.
    pub open spec fn sphere(self, uid: Seq<char>) -> Option<Sphere> {
        match self.speaker(uid) {
            Some(p) => if p.lobby_routing() {
                None
            } else {
                Some(
                    Sphere { country: p.country, x: p.x, y: p.y, z: p.z, radius: self.max_distance },
                )
            },
            None => None,
        }
    }

    /// The players that a speaker is relayed to, before they are resolved to clients: from the
    /// lobby, or by a spectator, the whole lobby and the spectators of the coalition; in the game
    /// the active players of the coalition that lie near and are no spectators.
    pub open spec fn audience(self, uid: Seq<char>, near: Set<Seq<char>>) -> Set<PlayerView> {
        match self.speaker(uid) {
            Some(p) => if p.lobby_routing() {
                Set::new(
                    |player: PlayerView|
                        self.roster.lobby(p.country).contains_value(player)
                            || self.roster.spectators(p.country).contains_value(player),
                )
            } else {
                Set::new(
                    |player: PlayerView|
                        self.roster.pilots(p.country).restrict(near).contains_value(player),
                )
            },
            None => Set::empty(),
        }
    }

    /// The client of a listener, unless the listener is the speaker, or of another coalition
    /// where that is checked, or not online.
    pub open spec fn client_of(
        self,
        listener: PlayerView,
        speaker_uid: Seq<char>,
        country: i32,
    ) -> Option<u16> {
        match listener.team_speak_id {
            Some(uid) => if uid != speaker_uid && (self.coalition_check ==> listener.country
                == country) && self.ids.contains_key(uid) {
                Some(self.ids[uid])
            } else {
                None
            },
            None => None,
        }
    }

    /// A client hears a speaker, if it does not speak itself.
    pub open spec fn hears(self, uid: Seq<char>, near: Set<Seq<char>>, client_id: u16) -> bool {
        exists|listener: PlayerView| #[trigger]
            self.audience(uid, near).contains(listener) && self.client_of(
                listener,
                uid,
                self.speaker(uid).unwrap().country,
            ) == Some(client_id)
    }

    /// A client hears one of the first `n` speakers, and does not speak.
    pub open spec fn receives(
        self,
        speakers: Seq<(u16, String)>,
        near: Seq<Vec<String>>,
        speaking: Set<u16>,
        n: int,
        client_id: u16,
    ) -> bool {
        &&& !speaking.contains(client_id)
        &&& exists|i: int|
            0 <= i < n && self.hears((#[trigger] speakers[i]).1@, near_of(near, i), client_id)
    }
}

impl RoutingSnapshot {
    /// The sphere to be measured for a speaker, if there is one.
    pub fn sphere_of(&self, uid: &str) -> (sphere: Option<Sphere>)
        ensures
            sphere == self@.sphere(uid@),
    {
        match self.positions.get_by_uid(uid) {
            Some(p) => {
                if (p.country != position::ALLIES && p.country != position::AXIS)
                    || p.is_lobby_routing() {
                    None
                } else {
                    Some(
                        Sphere {
                            country: p.country,
                            x: p.x,
                            y: p.y,
                            z: p.z,
                            radius: self.max_distance,
                        },
                    )
                }
            },
            None => None,
        }
    }

    fn client_of(&self, listener: &PlayerPosition, speaker_uid: &str, country: i32) -> (client:
        Option<u16>)
        ensures
            client == self@.client_of(listener@, speaker_uid@, country),
    {
        match &listener.team_speak_id {
            Some(uid) => {
                // Nobody is sent their own voice.
                if text::same(uid.as_str(), speaker_uid) {
                    return None;
                }
                if self.coalition_check && listener.country != country {
                    return None;
                }
                match fx_map::get(&self.uid_to_client_id, uid.as_str()) {
                    Some(id) => Some(*id),
                    None => None,
                }
            },
            None => None,
        }
    }
}

/// The players of a list are the players of an audience.
pub open spec fn covers(list: Seq<PlayerView>, audience: Set<PlayerView>) -> bool {
    forall|player: PlayerView| #[trigger] list.contains(player) <==> audience.contains(player)
}

/// The players of a listing are the values of the dictionary.
proof fn lemma_listed(list: Seq<PlayerView>, dict: Map<Seq<char>, PlayerView>)
    requires
        position::lists(list, dict),
    ensures
        forall|player: PlayerView| #[trigger]
            list.contains(player) <==> dict.contains_value(player),
{
    let uids = choose|uids: Seq<Seq<char>>| position::lists_under(list, uids, dict);
    assert forall|player: PlayerView| #[trigger] list.contains(player) <==> dict.contains_value(
        player,
    ) by {
        if list.contains(player) {
            let j = choose|j: int| 0 <= j < list.len() && list[j] == player;
            assert(uids.contains(uids[j]));
            assert(dict.contains_key(uids[j]) && dict[uids[j]] == player);
        }
        if dict.contains_value(player) {
            let uid = choose|uid: Seq<char>| #[trigger] dict.contains_key(uid) && dict[uid] == player;
            assert(uids.contains(uid));
            let j = choose|j: int| 0 <= j < uids.len() && uids[j] == uid;
            assert(list[j] == player);
        }
    }
}

/// The players of a selection are the values of the dictionary under the selected UIDs.
proof fn lemma_selected(uids: Seq<String>, dict: Map<Seq<char>, PlayerView>)
    ensures
        forall|player: PlayerView| #[trigger]
            position::selected(uids, dict).contains(player) <==> dict.restrict(
                text_set(uids),
            ).contains_value(player),
    decreases uids.len(),
{
    let list = position::selected(uids, dict);
    let picked = dict.restrict(text_set(uids));
    if uids.len() == 0 {
        assert(picked =~= Map::empty());
    } else {
        let rest = position::selected(uids.drop_last(), dict);
        let before = dict.restrict(text_set(uids.drop_last()));
        lemma_selected(uids.drop_last(), dict);
        let last = uids.last()@;
        assert(uids[uids.len() - 1]@ == last);
        assert(text_set(uids).contains(last));
        assert forall|uid: Seq<char>| #[trigger] picked.contains_key(uid) <==> before.contains_key(uid)
            || (uid == last && dict.contains_key(last)) by {
            if before.contains_key(uid) {
                let j = choose|j: int|
                    0 <= j < uids.drop_last().len() && (#[trigger] uids.drop_last()[j])@ == uid;
                assert(uids[j]@ == uid);
            }
            if picked.contains_key(uid) && uid != last {
                let j = choose|j: int| 0 <= j < uids.len() && (#[trigger] uids[j])@ == uid;
                assert(uids.drop_last()[j]@ == uid);
            }
        }
        assert forall|player: PlayerView| #[trigger] list.contains(player) <==> picked.contains_value(
            player,
        ) by {
            assert(rest.contains(player) <==> before.contains_value(player));
            if list.contains(player) {
                let j = choose|j: int| 0 <= j < list.len() && list[j] == player;
                if j < rest.len() {
                    assert(rest[j] == player);
                    let uid = choose|uid: Seq<char>| #[trigger]
                        before.contains_key(uid) && before[uid] == player;
                    assert(picked.contains_key(uid) && picked[uid] == player);
                } else {
                    assert(picked.contains_key(last) && picked[last] == player);
                }
            }
            if picked.contains_value(player) {
                let uid = choose|uid: Seq<char>| #[trigger]
                    picked.contains_key(uid) && picked[uid] == player;
                if before.contains_key(uid) {
                    assert(before[uid] == player);
                    let j = choose|j: int| 0 <= j < rest.len() && rest[j] == player;
                    assert(list[j] == player);
                } else {
                    assert(list[list.len() - 1] == player);
                }
            }
        }
    }
}

/// Adds a client to a list, unless it has been added before.
fn add_once(list: &mut Vec<u16>, seen: &mut HashSet<u16>, client_id: u16)
    requires
        old(list)@.no_duplicates(),
        forall|c: u16| #[trigger] old(list)@.contains(c) <==> old(seen)@.contains(c),
    ensures
        final(list)@.no_duplicates(),
        forall|c: u16| #[trigger] final(list)@.contains(c) <==> final(seen)@.contains(c),
        final(seen)@ == old(seen)@.insert(client_id),
{
    if seen.insert(client_id) {
        proof {
            lists::lemma_push(list@, client_id);
        }
        list.push(client_id);
    }
    assert(seen@ =~= old(seen)@.insert(client_id));
}

impl RoutingSnapshot {
    /// The players whom a speaker of the lobby is relayed to.
    fn lobby_audience(&self, country: i32) -> (found: Vec<&PlayerPosition>)
        ensures
            forall|player: PlayerView| #[trigger]
                position::views(found@).contains(player) <==> self@.roster.lobby(
                    country,
                ).contains_value(player) || self@.roster.spectators(country).contains_value(player),
    {
        let lobby = self.positions.lobby_recipients(country);
        let spectators = self.positions.spectators(country);
        let mut found: Vec<&PlayerPosition> = Vec::new();
        let mut i: usize = 0;
        while i < lobby.len()
            invariant
                i <= lobby@.len(),
                found@ == lobby@.take(i as int),
            decreases lobby.len() - i,
        {
            found.push(lobby[i]);
            assert(found@ =~= lobby@.take(i + 1));
            i += 1;
        }
        let mut j: usize = 0;
        while j < spectators.len()
            invariant
                j <= spectators@.len(),
                found@ == lobby@ + spectators@.take(j as int),
            decreases spectators.len() - j,
        {
            found.push(spectators[j]);
            assert(found@ =~= lobby@ + spectators@.take(j + 1));
            j += 1;
        }
        proof {
            let a = position::views(lobby@);
            let b = position::views(spectators@);
            let all = position::views(found@);
            assert(all =~= a + b);
            lemma_listed(a, self@.roster.lobby(country));
            lemma_listed(b, self@.roster.spectators(country));
            assert forall|player: PlayerView| #[trigger] all.contains(player) <==> a.contains(player)
                || b.contains(player) by {
                if a.contains(player) {
                    let k = choose|k: int| 0 <= k < a.len() && a[k] == player;
                    assert(all[k] == player);
                }
                if b.contains(player) {
                    let k = choose|k: int| 0 <= k < b.len() && b[k] == player;
                    assert(all[a.len() + k] == player);
                }
            }
        }
        found
    }

    /// The players whom a speaker of the game is relayed to.
    fn game_audience(&self, country: i32, inside: &Vec<String>) -> (found: Vec<&PlayerPosition>)
        ensures
            forall|player: PlayerView| #[trigger]
                position::views(found@).contains(player) <==> self@.roster.pilots(country).restrict(
                    text_set(inside@),
                ).contains_value(player),
    {
        let candidates = self.positions.in_sphere(country, inside);
        let mut found: Vec<&PlayerPosition> = Vec::new();
        let ghost all = position::views(candidates@);
        let mut i: usize = 0;
        while i < candidates.len()
            invariant
                i <= candidates@.len(),
                all == position::views(candidates@),
                forall|player: PlayerView| #[trigger]
                    position::views(found@).contains(player) <==> !player.lobby_routing()
                        && exists|k: int| 0 <= k < i && #[trigger] all[k] == player,
            decreases candidates.len() - i,
        {
            let player = candidates[i];
            let ghost before = position::views(found@);
            assert(all[i as int] == player@);
            if !player.is_lobby_routing() {
                found.push(player);
                assert(position::views(found@) =~= before.push(player@));
            }
            proof {
                let now = position::views(found@);
                assert forall|p: PlayerView| #[trigger] now.contains(p) <==> !p.lobby_routing()
                    && exists|k: int| 0 <= k < i + 1 && #[trigger] all[k] == p by {
                    assert(before.contains(p) <==> !p.lobby_routing() && exists|k: int|
                        0 <= k < i && #[trigger] all[k] == p);
                    if before.contains(p) {
                        let k = choose|k: int| 0 <= k < before.len() && before[k] == p;
                        assert(now[k] == p);
                    }
                    if p == player@ && !p.lobby_routing() {
                        assert(now[before.len() as int] == p);
                    }
                    if now.contains(p) && !before.contains(p) {
                        let k = choose|k: int| 0 <= k < now.len() && now[k] == p;
                        assert(k == before.len());
                        assert(all[i as int] == p);
                    }
                }
            }
            i += 1;
        }
        proof {
            lemma_selected(inside@, self@.roster.active(country));
            let active = self@.roster.active(country).restrict(text_set(inside@));
            let pilots = self@.roster.pilots(country).restrict(text_set(inside@));
            assert forall|player: PlayerView| #[trigger]
                position::views(found@).contains(player) <==> pilots.contains_value(player) by {
                assert(all.contains(player) <==> active.contains_value(player));
                if position::views(found@).contains(player) {
                    let k = choose|k: int| 0 <= k < all.len() && #[trigger] all[k] == player;
                    assert(all.contains(player));
                    let uid = choose|uid: Seq<char>| #[trigger]
                        active.contains_key(uid) && active[uid] == player;
                    assert(pilots.contains_key(uid) && pilots[uid] == player);
                }
                if pilots.contains_value(player) {
                    let uid = choose|uid: Seq<char>| #[trigger]
                        pilots.contains_key(uid) && pilots[uid] == player;
                    assert(active.contains_key(uid) && active[uid] == player);
                    let k = choose|k: int| 0 <= k < all.len() && all[k] == player;
                    assert(all[k] == player);
                }
            }
        }
        found
    }

    /// The clients that hear a speaker, each once. `inside` holds the UIDs inside the sphere of
    /// the speaker, where it has one.
    pub fn listeners(&self, speaker_uid: &str, inside: &Vec<String>) -> (clients: Vec<u16>)
        ensures
            clients@.no_duplicates(),
            forall|c: u16| #[trigger]
                clients@.contains(c) <==> self@.hears(speaker_uid@, text_set(inside@), c),
    {
        let mut clients: Vec<u16> = Vec::new();
        let speaker = match self.positions.get_by_uid(speaker_uid) {
            Some(speaker) => speaker,
            None => {
                return clients;
            },
        };
        let country: i32 = speaker.country;
        if country != position::ALLIES && country != position::AXIS {
            return clients;
        }
        let candidates: Vec<&PlayerPosition> = if speaker.is_lobby_routing() {
            self.lobby_audience(country)
        } else {
            self.game_audience(country, inside)
        };
        let ghost list = position::views(candidates@);
        let ghost audience = self@.audience(speaker_uid@, text_set(inside@));
        assert(covers(list, audience));
        let mut seen: HashSet<u16> = HashSet::new();
        let mut j: usize = 0;
        while j < candidates.len()
            invariant
                j <= candidates@.len(),
                list == position::views(candidates@),
                clients@.no_duplicates(),
                forall|c: u16| #[trigger] clients@.contains(c) <==> seen@.contains(c),
                forall|c: u16| #[trigger]
                    seen@.contains(c) <==> exists|k: int|
                        0 <= k < j && self@.client_of(#[trigger] list[k], speaker_uid@, country)
                            == Some(c),
            decreases candidates.len() - j,
        {
            let ghost before = seen@;
            assert(list[j as int] == candidates@[j as int]@);
            if let Some(client_id) = self.client_of(candidates[j], speaker_uid, country) {
                add_once(&mut clients, &mut seen, client_id);
            }
            assert forall|c: u16| #[trigger] seen@.contains(c) <==> exists|k: int|
                0 <= k < j + 1 && self@.client_of(#[trigger] list[k], speaker_uid@, country) == Some(
                    c,
                ) by {
                if before.contains(c) {
                    let k = choose|k: int|
                        0 <= k < j && self@.client_of(#[trigger] list[k], speaker_uid@, country)
                            == Some(c);
                    assert(0 <= k < j + 1);
                }
            }
            j += 1;
        }
        assert forall|c: u16| #[trigger] clients@.contains(c) <==> self@.hears(
            speaker_uid@,
            text_set(inside@),
            c,
        ) by {
            if clients@.contains(c) {
                let k = choose|k: int|
                    0 <= k < list.len() && self@.client_of(#[trigger] list[k], speaker_uid@, country)
                        == Some(c);
                assert(list.contains(list[k]));
                assert(audience.contains(list[k]));
            }
            if self@.hears(speaker_uid@, text_set(inside@), c) {
                let listener = choose|listener: PlayerView| #[trigger]
                    audience.contains(listener) && self@.client_of(listener, speaker_uid@, country)
                        == Some(c);
                assert(list.contains(listener));
                let k = choose|k: int| 0 <= k < list.len() && list[k] == listener;
                assert(self@.client_of(list[k], speaker_uid@, country) == Some(c));
            }
        }
        clients
    }

    /// The clients that hear each of several speakers, in the order of the speakers.
    pub fn listener_lists(
        &self,
        speakers: &Vec<(u16, String)>,
        near: &Vec<Vec<String>>,
    ) -> (lists: Vec<Vec<u16>>)
        ensures
            lists@.len() == speakers@.len(),
            forall|i: int, c: u16|
                0 <= i < speakers@.len() ==> (#[trigger] lists@[i]@.contains(c) <==> self@.hears(
                    speakers@[i].1@,
                    near_of(near@, i),
                    c,
                )),
    {
        let mut lists: Vec<Vec<u16>> = Vec::new();
        let nobody: Vec<String> = Vec::new();
        let mut i: usize = 0;
        while i < speakers.len()
            invariant
                i <= speakers@.len(),
                nobody@.len() == 0,
                lists@.len() == i,
                forall|j: int, c: u16|
                    0 <= j < i ==> (#[trigger] lists@[j]@.contains(c) <==> self@.hears(
                        speakers@[j].1@,
                        near_of(near@, j),
                        c,
                    )),
            decreases speakers.len() - i,
        {
            let inside: &Vec<String> = if i < near.len() {
                &near[i]
            } else {
                &nobody
            };
            assert(text_set(inside@) =~= near_of(near@, i as int));
            lists.push(self.listeners(speakers[i].1.as_str(), inside));
            i += 1;
        }
        lists
    }
}

/// Computes the clients that are whispered to, each once.
///
/// `active_speaker_uids` holds client id and UID of each speaker with sound in this tick, and
/// `near` the UIDs inside the sphere of the speaker with the same index, where it has one (see
/// [`RoutingSnapshot::sphere_of`]). Clients in `active_speaker_ids` hear their own sidetone
/// instead.
pub fn compute_recipients(
    active_speaker_uids: &Vec<(u16, String)>,
    active_speaker_ids: &HashSet<u16>,
    routing: &RoutingSnapshot,
    near: &Vec<Vec<String>>,
) -> (recipients: Vec<u16>)
    ensures
        recipients@.no_duplicates(),
        match routing.force_whisper_client_id {
            Some(client_id) => recipients@ == seq![client_id],
            None => forall|client_id: u16| #[trigger]
                recipients@.contains(client_id) <==> routing@.receives(
                    active_speaker_uids@,
                    near@,
                    active_speaker_ids@,
                    active_speaker_uids@.len() as int,
                    client_id,
                ),
        },
{
    // Test mode: everything goes to one client, wherever the players are.
    if let Some(client_id) = routing.force_whisper_client_id {
        let mut recipients: Vec<u16> = Vec::new();
        recipients.push(client_id);
        assert(recipients@ =~= seq![client_id]);
        return recipients;
    }
    let lists = routing.listener_lists(active_speaker_uids, near);
    let mut recipients: Vec<u16> = Vec::new();
    let mut seen: HashSet<u16> = HashSet::new();
    let mut i: usize = 0;
    while i < lists.len()
        invariant
            i <= lists@.len(),
            lists@.len() == active_speaker_uids@.len(),
            forall|j: int, c: u16|
                0 <= j < lists@.len() ==> (#[trigger] lists@[j]@.contains(c) <==> routing@.hears(
                    active_speaker_uids@[j].1@,
                    near_of(near@, j),
                    c,
                )),
            recipients@.no_duplicates(),
            forall|c: u16| #[trigger] recipients@.contains(c) <==> seen@.contains(c),
            forall|c: u16| #[trigger]
                seen@.contains(c) <==> routing@.receives(
                    active_speaker_uids@,
                    near@,
                    active_speaker_ids@,
                    i as int,
                    c,
                ),
        decreases lists.len() - i,
    {
        let ghost before = seen@;
        let clients: &Vec<u16> = &lists[i];
        let mut j: usize = 0;
        while j < clients.len()
            invariant
                j <= clients@.len(),
                recipients@.no_duplicates(),
                forall|c: u16| #[trigger] recipients@.contains(c) <==> seen@.contains(c),
                forall|c: u16| #[trigger]
                    seen@.contains(c) <==> before.contains(c) || (!active_speaker_ids@.contains(c)
                        && exists|k: int| 0 <= k < j && #[trigger] clients@[k] == c),
            decreases clients.len() - j,
        {
            let client_id: u16 = clients[j];
            let ghost earlier = seen@;
            // A client that speaks hears its sidetone instead.
            if !active_speaker_ids.contains(&client_id) {
                add_once(&mut recipients, &mut seen, client_id);
            }
            assert forall|c: u16| #[trigger] seen@.contains(c) <==> before.contains(c) || (
            !active_speaker_ids@.contains(c) && exists|k: int|
                0 <= k < j + 1 && #[trigger] clients@[k] == c) by {
                if earlier.contains(c) && !before.contains(c) {
                    let k = choose|k: int| 0 <= k < j && #[trigger] clients@[k] == c;
                    assert(0 <= k < j + 1);
                }
                assert(clients@[j as int] == client_id);
            }
            j += 1;
        }
        assert forall|c: u16| #[trigger] seen@.contains(c) <==> routing@.receives(
            active_speaker_uids@,
            near@,
            active_speaker_ids@,
            i + 1,
            c,
        ) by {
            assert(lists@[i as int]@.contains(c) <==> routing@.hears(
                active_speaker_uids@[i as int].1@,
                near_of(near@, i as int),
                c,
            ));
            if before.contains(c) {
                let k = choose|k: int|
                    0 <= k < i && routing@.hears(
                        (#[trigger] active_speaker_uids@[k]).1@,
                        near_of(near@, k),
                        c,
                    );
                assert(0 <= k < i + 1);
            }
            if clients@.contains(c) {
                let k = choose|k: int| 0 <= k < clients@.len() && clients@[k] == c;
                assert(clients@[k] == c);
            }
        }
        i += 1;
    }
    recipients
}

} // verus!
