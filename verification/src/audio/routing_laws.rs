//! What holds of the routing of voices, in general.
use vstd::prelude::*;

use crate::audio::mix;
use crate::audio::relay;
use crate::audio::routing;
use crate::audio::routing::{RoutingSnapshot, RoutingView};
use crate::audio::FRAME_SAMPLES;
use crate::fx_map;
use crate::position::{CategoryObject, PlayerState, PlayerView};

verus! {

/// Two UIDs never resolve to one client, as in the map that the client list makes.
pub open spec fn one_uid_per_client(ids: Map<Seq<char>, u16>) -> bool {
    forall|a: Seq<char>, b: Seq<char>| #[trigger]
        ids.contains_key(a) && #[trigger] ids.contains_key(b) && ids[a] == ids[b] ==> a == b
}

/// A client that speaks receives no mix.
pub proof fn law_speakers_receive_no_mix(
    routing: RoutingView,
    speakers: Seq<(u16, String)>,
    near: Seq<Vec<String>>,
    speaking: Set<u16>,
    client_id: u16,
)
    requires
        speaking.contains(client_id),
    ensures
        !routing.receives(speakers, near, speaking, speakers.len() as int, client_id),
{
}

/// A speaker whom the roster does not know, or whose country is no coalition, is heard by nobody.
pub proof fn law_unknown_speaker_unheard(
    routing: RoutingView,
    uid: Seq<char>,
    near: Set<Seq<char>>,
    client_id: u16,
)
    requires
        routing.speaker(uid) is None,
    ensures
        !routing.hears(uid, near, client_id),
{
}

/// The UIDs that share a room with a speaker: lobby and spectators of the coalition, or its
/// active players who are no spectators.
pub open spec fn room(routing: RoutingView, speaker: PlayerView) -> Set<Seq<char>> {
    let roster = routing.roster;
    if speaker.lobby_routing() {
        roster.lobby(speaker.country).dom().union(roster.spectators(speaker.country).dom())
    } else {
        roster.pilots(speaker.country).dom()
    }
}

/// A speaker is heard by exactly the others in the same room who are online and, in the game, lie
/// near.
proof fn lemma_heard_in_room(
    routing: RoutingView,
    uid: Seq<char>,
    speaker: PlayerView,
    near: Set<Seq<char>>,
    client_id: u16,
)
    requires
        routing.roster.wf(),
        routing.speaker(uid) == Some(speaker),
    ensures
        routing.hears(uid, near, client_id) <==> exists|u: Seq<char>|
            {
                &&& #[trigger] room(routing, speaker).contains(u)
                &&& !speaker.lobby_routing() ==> near.contains(u)
                &&& u != uid
                &&& routing.ids.contains_key(u)
                &&& routing.ids[u] == client_id
            },
{
    let country = speaker.country;
    let lobby = routing.roster.lobby(country);
    let spectators = routing.roster.spectators(country);
    let pilots = routing.roster.pilots(country);
    let audience = routing.audience(uid, near);
    if routing.hears(uid, near, client_id) {
        let player = choose|player: PlayerView| #[trigger]
            audience.contains(player) && routing.client_of(player, uid, country) == Some(client_id);
        let u = player.team_speak_id->0;
        if speaker.lobby_routing() {
            if lobby.contains_value(player) {
                let key = choose|key: Seq<char>| #[trigger]
                    lobby.contains_key(key) && lobby[key] == player;
                assert(key == u);
            } else {
                let key = choose|key: Seq<char>| #[trigger]
                    spectators.contains_key(key) && spectators[key] == player;
                assert(routing.roster.active(country).contains_key(key));
                assert(key == u);
            }
        } else {
            let reached = pilots.restrict(near);
            let key = choose|key: Seq<char>| #[trigger]
                reached.contains_key(key) && reached[key] == player;
            assert(routing.roster.active(country).contains_key(key));
            assert(key == u);
        }
        assert(room(routing, speaker).contains(u));
    }
    if exists|u: Seq<char>|
        {
            &&& #[trigger] room(routing, speaker).contains(u)
            &&& !speaker.lobby_routing() ==> near.contains(u)
            &&& u != uid
            &&& routing.ids.contains_key(u)
            &&& routing.ids[u] == client_id
        } {
        let u = choose|u: Seq<char>|
            {
                &&& #[trigger] room(routing, speaker).contains(u)
                &&& !speaker.lobby_routing() ==> near.contains(u)
                &&& u != uid
                &&& routing.ids.contains_key(u)
                &&& routing.ids[u] == client_id
            };
        if speaker.lobby_routing() {
            if lobby.contains_key(u) {
                assert(lobby.contains_value(lobby[u]));
                assert(audience.contains(lobby[u]));
                assert(routing.client_of(lobby[u], uid, country) == Some(client_id));
            } else {
                assert(routing.roster.active(country).contains_key(u));
                assert(spectators.contains_value(spectators[u]));
                assert(audience.contains(spectators[u]));
                assert(routing.client_of(spectators[u], uid, country) == Some(client_id));
            }
        } else {
            let reached = pilots.restrict(near);
            assert(routing.roster.active(country).contains_key(u));
            assert(reached.contains_key(u));
            assert(reached.contains_value(reached[u]));
            assert(audience.contains(reached[u]));
            assert(routing.client_of(reached[u], uid, country) == Some(client_id));
        }
    }
}

/// A speaker in the lobby, or a spectator, is heard by exactly the others in the lobby of the
/// same coalition, and its spectators, who are online.
pub proof fn law_lobby_speaker(
    routing: RoutingView,
    uid: Seq<char>,
    speaker: PlayerView,
    near: Set<Seq<char>>,
    client_id: u16,
)
    requires
        routing.roster.wf(),
        routing.speaker(uid) == Some(speaker),
        speaker.lobby_routing(),
    ensures
        routing.hears(uid, near, client_id) <==> exists|u: Seq<char>|
            {
                &&& routing.roster.lobby(speaker.country).contains_key(u)
                    || routing.roster.spectators(speaker.country).contains_key(u)
                &&& u != uid
                &&& #[trigger] routing.ids.contains_key(u)
                &&& routing.ids[u] == client_id
            },
{
    lemma_heard_in_room(routing, uid, speaker, near, client_id);
    if exists|u: Seq<char>|
        {
            &&& routing.roster.lobby(speaker.country).contains_key(u)
                || routing.roster.spectators(speaker.country).contains_key(u)
            &&& u != uid
            &&& #[trigger] routing.ids.contains_key(u)
            &&& routing.ids[u] == client_id
        } {
        let u = choose|u: Seq<char>|
            {
                &&& routing.roster.lobby(speaker.country).contains_key(u)
                    || routing.roster.spectators(speaker.country).contains_key(u)
                &&& u != uid
                &&& #[trigger] routing.ids.contains_key(u)
                &&& routing.ids[u] == client_id
            };
        assert(room(routing, speaker).contains(u));
    }
}

/// A speaker in the game is heard by exactly the other active players of the same coalition who
/// are no spectators, lie near and are online.
pub proof fn law_active_speaker(
    routing: RoutingView,
    uid: Seq<char>,
    speaker: PlayerView,
    near: Set<Seq<char>>,
    client_id: u16,
)
    requires
        routing.roster.wf(),
        routing.speaker(uid) == Some(speaker),
        !speaker.lobby_routing(),
    ensures
        routing.hears(uid, near, client_id) <==> exists|u: Seq<char>|
            {
                &&& #[trigger] routing.roster.pilots(speaker.country).contains_key(u)
                &&& near.contains(u)
                &&& u != uid
                &&& routing.ids.contains_key(u)
                &&& routing.ids[u] == client_id
            },
{
    lemma_heard_in_room(routing, uid, speaker, near, client_id);
    let pilots = routing.roster.pilots(speaker.country);
    assert forall|u: Seq<char>| #[trigger] room(routing, speaker).contains(u) <==> pilots.contains_key(
        u,
    ) by {}
    if exists|u: Seq<char>|
        {
            &&& #[trigger] pilots.contains_key(u)
            &&& near.contains(u)
            &&& u != uid
            &&& routing.ids.contains_key(u)
            &&& routing.ids[u] == client_id
        } {
        let u = choose|u: Seq<char>|
            {
                &&& #[trigger] pilots.contains_key(u)
                &&& near.contains(u)
                &&& u != uid
                &&& routing.ids.contains_key(u)
                &&& routing.ids[u] == client_id
            };
        assert(room(routing, speaker).contains(u));
    }
}

/// Nobody hears their own voice.
pub proof fn law_no_own_voice(routing: RoutingView, uid: Seq<char>, near: Set<Seq<char>>)
    requires
        one_uid_per_client(routing.ids),
        routing.ids.contains_key(uid),
    ensures
        !routing.hears(uid, near, routing.ids[uid]),
{
}

/// A listener who does not share the room of a speaker does not hear the speaker; nor does one of
/// the same room in the game who does not lie near.
proof fn lemma_elsewhere_unheard(
    routing: RoutingView,
    uid: Seq<char>,
    near: Set<Seq<char>>,
    listener: Seq<char>,
)
    requires
        routing.roster.wf(),
        one_uid_per_client(routing.ids),
        routing.ids.contains_key(listener),
        routing.speaker(uid) matches Some(speaker) ==> !room(routing, speaker).contains(listener) || (
        !speaker.lobby_routing() && !near.contains(listener)),
    ensures
        !routing.hears(uid, near, routing.ids[listener]),
{
    match routing.speaker(uid) {
        Some(speaker) => {
            lemma_heard_in_room(routing, uid, speaker, near, routing.ids[listener]);
        },
        None => {},
    }
}

/// What is chosen depends on what is marked alone.
proof fn lemma_chosen_agrees<A>(items: Seq<A>, others: Seq<A>, marks: Seq<bool>)
    requires
        items.len() == others.len(),
        items.len() <= marks.len(),
        forall|i: int| 0 <= i < items.len() && #[trigger] marks[i] ==> items[i] == others[i],
    ensures
        relay::chosen(items, marks) == relay::chosen(others, marks),
    decreases items.len(),
{
    if items.len() > 0 {
        lemma_chosen_agrees(items.drop_last(), others.drop_last(), marks);
        assert(marks[items.len() - 1] ==> items.last() == others.last());
    }
}

/// The frame that a listener is sent depends on the voices that the listener hears alone.
pub proof fn law_only_heard_voices_sent(
    routing: RoutingView,
    speakers: Seq<(u16, String)>,
    frames: Seq<Seq<i16>>,
    others: Seq<Seq<i16>>,
    near: Seq<Vec<String>>,
    client_id: u16,
)
    requires
        frames.len() == speakers.len(),
        others.len() == speakers.len(),
        forall|i: int|
            0 <= i < speakers.len() && routing.hears(
                (#[trigger] speakers[i]).1@,
                routing::near_of(near, i),
                client_id,
            ) ==> frames[i] == others[i],
    ensures
        relay::sent_frame(routing, speakers, frames, near, client_id) == relay::sent_frame(
            routing,
            speakers,
            others,
            near,
            client_id,
        ),
{
    let marks = relay::heard(routing, speakers, near, client_id);
    assert forall|i: int| 0 <= i < frames.len() && #[trigger] marks[i] implies frames[i] == others[i] by {
        assert(routing.hears(speakers[i].1@, routing::near_of(near, i), client_id));
    }
    lemma_chosen_agrees(frames, others, marks);
}

/// The frame that a listener is sent depends on those speakers alone who share the listener's room
/// and, in the game, lie near.
proof fn lemma_elsewhere_not_sent(
    routing: RoutingView,
    speakers: Seq<(u16, String)>,
    frames: Seq<Seq<i16>>,
    others: Seq<Seq<i16>>,
    near: Seq<Vec<String>>,
    listener: Seq<char>,
)
    requires
        routing.roster.wf(),
        one_uid_per_client(routing.ids),
        routing.ids.contains_key(listener),
        frames.len() == speakers.len(),
        others.len() == speakers.len(),
        forall|i: int|
            0 <= i < speakers.len() && (routing.speaker((#[trigger] speakers[i]).1@) matches Some(
                speaker,
            ) && room(routing, speaker).contains(listener) && (speaker.lobby_routing()
                || routing::near_of(near, i).contains(listener))) ==> frames[i] == others[i],
    ensures
        relay::sent_frame(routing, speakers, frames, near, routing.ids[listener])
            == relay::sent_frame(routing, speakers, others, near, routing.ids[listener]),
{
    assert forall|i: int|
        0 <= i < speakers.len() && routing.hears(
            (#[trigger] speakers[i]).1@,
            routing::near_of(near, i),
            routing.ids[listener],
        ) implies frames[i] == others[i] by {
        if frames[i] != others[i] {
            lemma_elsewhere_unheard(
                routing,
                speakers[i].1@,
                routing::near_of(near, i),
                listener,
            );
        }
    }
    law_only_heard_voices_sent(routing, speakers, frames, others, near, routing.ids[listener]);
}

/// Voices stay inside a coalition: nothing of a speaker for whose coalition the roster does not
/// hold the listener is in the frame that the listener is sent. Whatever such a speaker says, the
/// frame is the same.
pub proof fn law_coalitions_apart(
    routing: RoutingView,
    speakers: Seq<(u16, String)>,
    frames: Seq<Seq<i16>>,
    others: Seq<Seq<i16>>,
    near: Seq<Vec<String>>,
    listener: Seq<char>,
)
    requires
        routing.roster.wf(),
        one_uid_per_client(routing.ids),
        routing.ids.contains_key(listener),
        frames.len() == speakers.len(),
        others.len() == speakers.len(),
        forall|i: int|
            0 <= i < speakers.len() && (routing.speaker((#[trigger] speakers[i]).1@) matches Some(
                speaker,
            ) && (routing.roster.lobby(speaker.country).contains_key(listener)
                || routing.roster.active(speaker.country).contains_key(listener))) ==> frames[i]
                == others[i],
    ensures
        relay::sent_frame(routing, speakers, frames, near, routing.ids[listener])
            == relay::sent_frame(routing, speakers, others, near, routing.ids[listener]),
{
    lemma_elsewhere_not_sent(routing, speakers, frames, others, near, listener);
}

/// Lobby and game stay apart: nothing of a speaker who does not share the room of the listener is
/// in the frame that the listener is sent. Lobby and spectators of a coalition are one room, its
/// other active players another.
pub proof fn law_lobby_and_game_apart(
    routing: RoutingView,
    speakers: Seq<(u16, String)>,
    frames: Seq<Seq<i16>>,
    others: Seq<Seq<i16>>,
    near: Seq<Vec<String>>,
    listener: Seq<char>,
)
    requires
        routing.roster.wf(),
        one_uid_per_client(routing.ids),
        routing.ids.contains_key(listener),
        frames.len() == speakers.len(),
        others.len() == speakers.len(),
        forall|i: int|
            0 <= i < speakers.len() && (routing.speaker((#[trigger] speakers[i]).1@) matches Some(
                speaker,
            ) && room(routing, speaker).contains(listener)) ==> frames[i] == others[i],
    ensures
        relay::sent_frame(routing, speakers, frames, near, routing.ids[listener])
            == relay::sent_frame(routing, speakers, others, near, routing.ids[listener]),
{
    lemma_elsewhere_not_sent(routing, speakers, frames, others, near, listener);
}

/// Nothing of a speaker in the game whom the listener does not lie near is in the frame that the
/// listener is sent.
pub proof fn law_out_of_range_unheard(
    routing: RoutingView,
    speakers: Seq<(u16, String)>,
    frames: Seq<Seq<i16>>,
    others: Seq<Seq<i16>>,
    near: Seq<Vec<String>>,
    listener: Seq<char>,
)
    requires
        routing.roster.wf(),
        one_uid_per_client(routing.ids),
        routing.ids.contains_key(listener),
        frames.len() == speakers.len(),
        others.len() == speakers.len(),
        forall|i: int|
            0 <= i < speakers.len() && (routing.speaker((#[trigger] speakers[i]).1@) matches Some(
                speaker,
            ) && (speaker.lobby_routing() || routing::near_of(near, i).contains(listener)))
                ==> frames[i] == others[i],
    ensures
        relay::sent_frame(routing, speakers, frames, near, routing.ids[listener])
            == relay::sent_frame(routing, speakers, others, near, routing.ids[listener]),
{
    lemma_elsewhere_not_sent(routing, speakers, frames, others, near, listener);
}

/// A listener who hears one speaker alone is sent that speaker's voice, sample by sample, whoever
/// else speaks at the same time.
pub proof fn law_one_voice_heard(
    routing: RoutingView,
    speakers: Seq<(u16, String)>,
    frames: Seq<Seq<i16>>,
    near: Seq<Vec<String>>,
    client_id: u16,
    lone: int,
)
    requires
        frames.len() == speakers.len(),
        0 <= lone < speakers.len(),
        frames[lone].len() == FRAME_SAMPLES,
        forall|i: int|
            0 <= i < speakers.len() ==> (routing.hears(
                (#[trigger] speakers[i]).1@,
                routing::near_of(near, i),
                client_id,
            ) <==> i == lone),
    ensures
        relay::sent_frame(routing, speakers, frames, near, client_id) == frames[lone],
{
    let marks = relay::heard(routing, speakers, near, client_id);
    assert forall|i: int| 0 <= i < frames.len() implies (#[trigger] marks[i] <==> i == lone) by {
        assert(routing.hears(speakers[i].1@, routing::near_of(near, i), client_id) <==> i == lone);
    }
    lemma_chosen_single(frames, marks, lone);
    mix::law_single_speaker_unchanged(frames[lone]);
}

proof fn lemma_chosen_none<A>(items: Seq<A>, marks: Seq<bool>)
    requires
        forall|i: int| 0 <= i < items.len() ==> !(#[trigger] marks[i]),
    ensures
        relay::chosen(items, marks) == Seq::<A>::empty(),
    decreases items.len(),
{
    if items.len() > 0 {
        lemma_chosen_none(items.drop_last(), marks);
        assert(!marks[items.len() - 1]);
    }
}

proof fn lemma_chosen_single<A>(items: Seq<A>, marks: Seq<bool>, lone: int)
    requires
        0 <= lone < items.len(),
        forall|i: int| 0 <= i < items.len() ==> (#[trigger] marks[i] <==> i == lone),
    ensures
        relay::chosen(items, marks) == seq![items[lone]],
    decreases items.len(),
{
    let rest = items.drop_last();
    if lone == items.len() - 1 {
        lemma_chosen_none(rest, marks);
        assert(marks[lone]);
        assert(relay::chosen(items, marks) =~= seq![items[lone]]);
    } else {
        lemma_chosen_single(rest, marks, lone);
        assert(!marks[items.len() - 1]);
    }
}

/// More range loses no listener.
pub proof fn law_range_monotone(
    routing: RoutingView,
    uid: Seq<char>,
    near: Set<Seq<char>>,
    wider: Set<Seq<char>>,
    client_id: u16,
)
    requires
        near.subset_of(wider),
        routing.hears(uid, near, client_id),
    ensures
        routing.hears(uid, wider, client_id),
{
    let player = choose|player: PlayerView| #[trigger]
        routing.audience(uid, near).contains(player) && routing.client_of(
            player,
            uid,
            routing.speaker(uid).unwrap().country,
        ) == Some(client_id);
    let speaker = routing.speaker(uid)->0;
    if !speaker.lobby_routing() {
        let pilots = routing.roster.pilots(speaker.country);
        let u = choose|u: Seq<char>| #[trigger]
            pilots.restrict(near).contains_key(u) && pilots.restrict(near)[u] == player;
        assert(pilots.restrict(wider).contains_key(u) && pilots.restrict(wider)[u] == player);
    }
    assert(routing.audience(uid, wider).contains(player));
}

/// Every recipient is the client of somebody online.
pub proof fn law_recipients_online(
    routing: RoutingView,
    uid: Seq<char>,
    near: Set<Seq<char>>,
    client_id: u16,
)
    requires
        routing.hears(uid, near, client_id),
    ensures
        routing.ids.contains_value(client_id),
{
}

/// On a roster that messages have made, the coalition check changes nothing: the dictionaries
/// already keep the coalitions apart.
pub proof fn law_coalition_check_redundant(
    routing: RoutingView,
    unchecked: RoutingView,
    uid: Seq<char>,
    near: Set<Seq<char>>,
    client_id: u16,
)
    requires
        routing.roster.wf(),
        unchecked == (RoutingView { coalition_check: false, ..routing }),
    ensures
        routing.hears(uid, near, client_id) == unchecked.hears(uid, near, client_id),
{
    assert(routing.speaker(uid) == unchecked.speaker(uid));
    assert(routing.roster == unchecked.roster && routing.ids == unchecked.ids);
    match routing.speaker(uid) {
        Some(speaker) => {
            if speaker.lobby_routing() {
                law_lobby_speaker(routing, uid, speaker, near, client_id);
                law_lobby_speaker(unchecked, uid, speaker, near, client_id);
            } else {
                law_active_speaker(routing, uid, speaker, near, client_id);
                law_active_speaker(unchecked, uid, speaker, near, client_id);
            }
        },
        None => {
            law_unknown_speaker_unheard(routing, uid, near, client_id);
            law_unknown_speaker_unheard(unchecked, uid, near, client_id);
        },
    }
}

/// A player is online as a client, and is sent the voice of the speaker `uid`: not the speaker, and
/// of the speaker's country where that is checked.
pub open spec fn is_client(
    routing: RoutingView,
    player: PlayerView,
    uid: Seq<char>,
    country: i32,
    client_id: u16,
) -> bool {
    &&& player.team_speak_id matches Some(own) && own != uid && routing.ids.contains_key(own)
        && routing.ids[own] == client_id
    &&& routing.coalition_check ==> player.country == country
}

/// The player filed under `key` is sent the voice of a speaker. One who speaks from the lobby, or
/// as a spectator, reaches the lobby and the spectators of the coalition; one who speaks in the
/// game reaches the other active players of the coalition near by.
pub open spec fn reached(
    routing: RoutingView,
    speaker: PlayerView,
    uid: Seq<char>,
    near: Set<Seq<char>>,
    key: Seq<char>,
    client_id: u16,
) -> bool {
    let (lobby, active) = if speaker.country == 101 {
        (routing.roster.lobby_allies, routing.roster.active_allies)
    } else {
        (routing.roster.lobby_axis, routing.roster.active_axis)
    };
    let spectates = active[key].state == PlayerState::Lobby || active[key].category
        == CategoryObject::Spectator;
    if speaker.state == PlayerState::Lobby || speaker.category == CategoryObject::Spectator {
        ||| lobby.contains_key(key) && is_client(
            routing,
            lobby[key],
            uid,
            speaker.country,
            client_id,
        )
        ||| active.contains_key(key) && spectates && is_client(
            routing,
            active[key],
            uid,
            speaker.country,
            client_id,
        )
    } else {
        active.contains_key(key) && !spectates && near.contains(key) && is_client(
            routing,
            active[key],
            uid,
            speaker.country,
            client_id,
        )
    }
}

/// A speaker of a coalition is heard by exactly the clients of the players whom the voice reaches,
/// whatever the roster holds; a speaker of another country, or one unknown, by nobody.
pub proof fn law_who_hears(
    routing: RoutingView,
    uid: Seq<char>,
    near: Set<Seq<char>>,
    client_id: u16,
)
    ensures
        match routing.roster.find(uid) {
            Some(speaker) => if speaker.country == 101 || speaker.country == 201 {
                routing.hears(uid, near, client_id) <==> exists|key: Seq<char>| #[trigger]
                    reached(routing, speaker, uid, near, key, client_id)
            } else {
                !routing.hears(uid, near, client_id)
            },
            None => !routing.hears(uid, near, client_id),
        },
{
    if routing.speaker(uid) is Some {
        let speaker = routing.speaker(uid)->0;
        let country = speaker.country;
        let lobby = routing.roster.lobby(country);
        let spectators = routing.roster.spectators(country);
        let pilots = routing.roster.pilots(country).restrict(near);
        let audience = routing.audience(uid, near);
        if routing.hears(uid, near, client_id) {
            let player = choose|player: PlayerView| #[trigger]
                audience.contains(player) && routing.client_of(player, uid, country) == Some(
                    client_id,
                );
            assert(is_client(routing, player, uid, country, client_id));
            if speaker.lobby_routing() {
                if lobby.contains_value(player) {
                    let key = choose|key: Seq<char>| #[trigger]
                        lobby.contains_key(key) && lobby[key] == player;
                    assert(reached(routing, speaker, uid, near, key, client_id));
                } else {
                    let key = choose|key: Seq<char>| #[trigger]
                        spectators.contains_key(key) && spectators[key] == player;
                    assert(reached(routing, speaker, uid, near, key, client_id));
                }
            } else {
                let key = choose|key: Seq<char>| #[trigger]
                    pilots.contains_key(key) && pilots[key] == player;
                assert(reached(routing, speaker, uid, near, key, client_id));
            }
        }
        if exists|key: Seq<char>| #[trigger] reached(routing, speaker, uid, near, key, client_id) {
            let key = choose|key: Seq<char>| #[trigger]
                reached(routing, speaker, uid, near, key, client_id);
            if speaker.lobby_routing() {
                if lobby.contains_key(key) && is_client(
                    routing,
                    lobby[key],
                    uid,
                    country,
                    client_id,
                ) {
                    assert(lobby.contains_value(lobby[key]));
                    assert(audience.contains(lobby[key]));
                } else {
                    assert(spectators.contains_key(key));
                    assert(spectators.contains_value(spectators[key]));
                    assert(audience.contains(spectators[key]));
                }
            } else {
                assert(pilots.contains_key(key));
                assert(pilots.contains_value(pilots[key]));
                assert(audience.contains(pilots[key]));
            }
        }
    }
}

/// A speaker has a sphere exactly if known, of a coalition, active and no spectator: round the
/// speaker's place, with the range of the radio.
pub proof fn law_sphere(routing: RoutingView, uid: Seq<char>)
    ensures
        match routing.roster.find(uid) {
            Some(p) => if (p.country == 101 || p.country == 201) && p.state == PlayerState::Active
                && p.category != CategoryObject::Spectator {
                &&& routing.sphere(uid) is Some
                &&& routing.sphere(uid)->0.country == p.country
                &&& routing.sphere(uid)->0.x == p.x
                &&& routing.sphere(uid)->0.y == p.y
                &&& routing.sphere(uid)->0.z == p.z
                &&& routing.sphere(uid)->0.radius == routing.max_distance
            } else {
                routing.sphere(uid) is None
            },
            None => routing.sphere(uid) is None,
        },
{
}

/// The UIDs near a speaker are those of the list that was measured for the speaker.
pub proof fn law_near(near: Seq<Vec<String>>, i: int, uid: Seq<char>)
    ensures
        routing::near_of(near, i).contains(uid) <==> 0 <= i < near.len() && exists|j: int|
            0 <= j < near[i]@.len() && (#[trigger] near[i]@[j])@ == uid,
{
}

/// Routing data says of each field what its view says.
pub proof fn law_routing_view(routing: RoutingSnapshot)
    ensures
        routing@.ids == fx_map::keyed(routing.uid_to_client_id),
        routing@.roster == routing.positions@,
        routing@.max_distance == routing.max_distance,
        routing@.coalition_check == routing.coalition_check,
        routing@.radio_effects_enabled == routing.radio_effects_enabled,
        routing@.output_gain == routing.output_gain,
        routing@.force_whisper_client_id == routing.force_whisper_client_id,
{
}

/// How many of the first `n` speakers a client hears.
pub open spec fn voices_heard(
    routing: RoutingView,
    speakers: Seq<(u16, String)>,
    near: Seq<Vec<String>>,
    client_id: u16,
    n: int,
) -> int
    decreases n,
{
    if n <= 0 {
        0
    } else {
        voices_heard(routing, speakers, near, client_id, n - 1) + if routing.hears(
            speakers[n - 1].1@,
            routing::near_of(near, n - 1),
            client_id,
        ) {
            1int
        } else {
            0
        }
    }
}

/// The sum of one sample over all of the first `n` speakers whom a client hears.
pub open spec fn sum_heard(
    routing: RoutingView,
    speakers: Seq<(u16, String)>,
    frames: Seq<Seq<i16>>,
    near: Seq<Vec<String>>,
    client_id: u16,
    sample: int,
    n: int,
) -> int
    decreases n,
{
    if n <= 0 {
        0
    } else {
        sum_heard(routing, speakers, frames, near, client_id, sample, n - 1) + if routing.hears(
            speakers[n - 1].1@,
            routing::near_of(near, n - 1),
            client_id,
        ) {
            frames[n - 1][sample] as int
        } else {
            0
        }
    }
}

/// The sum of the magnitudes of one sample over all of the first `n` speakers whom a client hears.
pub open spec fn magnitude_heard(
    routing: RoutingView,
    speakers: Seq<(u16, String)>,
    frames: Seq<Seq<i16>>,
    near: Seq<Vec<String>>,
    client_id: u16,
    sample: int,
    n: int,
) -> int
    decreases n,
{
    if n <= 0 {
        0
    } else {
        let value = frames[n - 1][sample] as int;
        magnitude_heard(routing, speakers, frames, near, client_id, sample, n - 1)
            + if routing.hears(
            speakers[n - 1].1@,
            routing::near_of(near, n - 1),
            client_id,
        ) {
            if value < 0 {
                -value
            } else {
                value
            }
        } else {
            0
        }
    }
}

proof fn lemma_heard_so_far(
    routing: RoutingView,
    speakers: Seq<(u16, String)>,
    frames: Seq<Seq<i16>>,
    near: Seq<Vec<String>>,
    client_id: u16,
    sample: int,
    n: int,
)
    requires
        frames.len() == speakers.len(),
        0 <= n <= speakers.len(),
    ensures
        ({
            let part = relay::chosen(
                frames.take(n),
                relay::heard(routing, speakers, near, client_id),
            );
            &&& part.len() == voices_heard(routing, speakers, near, client_id, n)
            &&& mix::sum_at(part, sample) == sum_heard(
                routing,
                speakers,
                frames,
                near,
                client_id,
                sample,
                n,
            )
            &&& mix::magnitude_at(part, sample) == magnitude_heard(
                routing,
                speakers,
                frames,
                near,
                client_id,
                sample,
                n,
            )
        }),
    decreases n,
{
    let marks = relay::heard(routing, speakers, near, client_id);
    if n > 0 {
        lemma_heard_so_far(routing, speakers, frames, near, client_id, sample, n - 1);
        let before = relay::chosen(frames.take(n - 1), marks);
        assert(frames.take(n).drop_last() =~= frames.take(n - 1));
        assert(frames.take(n).last() == frames[n - 1]);
        assert(before.push(frames[n - 1]).drop_last() =~= before);
    }
}

/// Every voice that a listener hears is in the frame that the listener is sent, however many there
/// are: as many frames are added as speakers are heard, and where the magnitudes fit into a sample,
/// each sample is the sum over all of them.
pub proof fn law_every_voice_heard_is_sent(
    routing: RoutingView,
    speakers: Seq<(u16, String)>,
    frames: Seq<Seq<i16>>,
    near: Seq<Vec<String>>,
    client_id: u16,
    sample: int,
)
    requires
        frames.len() == speakers.len(),
        0 <= sample < 960,
    ensures
        relay::sent_frame(routing, speakers, frames, near, client_id).len() == 960,
        magnitude_heard(
            routing,
            speakers,
            frames,
            near,
            client_id,
            sample,
            speakers.len() as int,
        ) <= 32767 ==> relay::sent_frame(routing, speakers, frames, near, client_id)[sample]
            == sum_heard(
            routing,
            speakers,
            frames,
            near,
            client_id,
            sample,
            speakers.len() as int,
        ),
{
    lemma_heard_so_far(
        routing,
        speakers,
        frames,
        near,
        client_id,
        sample,
        speakers.len() as int,
    );
    assert(frames.take(speakers.len() as int) =~= frames);
    let part = relay::chosen(frames, relay::heard(routing, speakers, near, client_id));
    mix::law_mix_length(part);
    if mix::magnitude_at(part, sample) <= i16::MAX {
        mix::law_quiet_mix_is_sum(part, sample);
    }
}

/// What is chosen of a list is what is marked: each marked item, as many as there are marks, and
/// nothing else.
proof fn lemma_chosen_complete<A>(items: Seq<A>, marks: Seq<bool>)
    ensures
        forall|i: int|
            0 <= i < items.len() && #[trigger] marks[i] ==> relay::chosen(items, marks).contains(
                items[i],
            ),
        forall|a: A| #[trigger]
            relay::chosen(items, marks).contains(a) ==> exists|i: int|
                0 <= i < items.len() && #[trigger] marks[i] && items[i] == a,
    decreases items.len(),
{
    if items.len() > 0 {
        let n = items.len() - 1;
        let rest = relay::chosen(items.drop_last(), marks);
        let all = relay::chosen(items, marks);
        lemma_chosen_complete(items.drop_last(), marks);
        assert forall|i: int| 0 <= i < items.len() && #[trigger] marks[i] implies all.contains(
            items[i],
        ) by {
            if i < n {
                assert(rest.contains(items.drop_last()[i]));
                let j = choose|j: int| 0 <= j < rest.len() && rest[j] == items[i];
                assert(all[j] == items[i]);
            } else {
                assert(all[all.len() - 1] == items[i]);
            }
        }
        assert forall|a: A| #[trigger] all.contains(a) implies exists|i: int|
            0 <= i < items.len() && #[trigger] marks[i] && items[i] == a by {
            if marks[n] && a == items.last() {
                assert(marks[n] && items[n] == a);
            } else {
                let j = choose|j: int| 0 <= j < all.len() && all[j] == a;
                assert(rest[j] == a);
                assert(rest.contains(a));
                let i = choose|i: int|
                    0 <= i < n && #[trigger] marks[i] && items.drop_last()[i] == a;
                assert(marks[i] && items[i] == a);
            }
        }
    }
}

/// The speakers of a mix are exactly those whom its recipients hear: for each of them the mix names
/// the client and holds the frame, and as many are named as are heard.
pub proof fn law_speakers_named(
    routing: RoutingView,
    speakers: Seq<(u16, String)>,
    frames: Seq<Seq<i16>>,
    near: Seq<Vec<String>>,
    client_id: u16,
)
    requires
        frames.len() == speakers.len(),
    ensures
        ({
            let marks = relay::heard(routing, speakers, near, client_id);
            let named = relay::chosen(relay::speaker_ids(speakers), marks);
            let added = relay::chosen(frames, marks);
            &&& named.len() == voices_heard(
                routing,
                speakers,
                near,
                client_id,
                speakers.len() as int,
            )
            &&& added.len() == named.len()
            &&& forall|i: int|
                0 <= i < speakers.len() && routing.hears(
                    (#[trigger] speakers[i]).1@,
                    routing::near_of(near, i),
                    client_id,
                ) ==> named.contains(speakers[i].0) && added.contains(frames[i])
            &&& forall|id: u16| #[trigger]
                named.contains(id) ==> exists|i: int|
                    0 <= i < speakers.len() && (#[trigger] speakers[i]).0 == id && routing.hears(
                        speakers[i].1@,
                        routing::near_of(near, i),
                        client_id,
                    )
        }),
{
    let marks = relay::heard(routing, speakers, near, client_id);
    let ids = relay::speaker_ids(speakers);
    lemma_heard_so_far(routing, speakers, frames, near, client_id, 0, speakers.len() as int);
    assert(frames.take(speakers.len() as int) =~= frames);
    lemma_chosen_length(ids, frames, marks);
    lemma_chosen_complete(ids, marks);
    lemma_chosen_complete(frames, marks);
    assert forall|i: int|
        0 <= i < speakers.len() && routing.hears(
            (#[trigger] speakers[i]).1@,
            routing::near_of(near, i),
            client_id,
        ) implies relay::chosen(ids, marks).contains(speakers[i].0) && relay::chosen(
        frames,
        marks,
    ).contains(frames[i]) by {
        assert(marks[i]);
        assert(ids[i] == speakers[i].0);
    }
    assert forall|id: u16| #[trigger] relay::chosen(ids, marks).contains(id) implies exists|i: int|
        0 <= i < speakers.len() && (#[trigger] speakers[i]).0 == id && routing.hears(
            speakers[i].1@,
            routing::near_of(near, i),
            client_id,
        ) by {
        let i = choose|i: int| 0 <= i < ids.len() && #[trigger] marks[i] && ids[i] == id;
        assert(speakers[i].0 == id);
    }
}

proof fn lemma_chosen_length<A, B>(items: Seq<A>, others: Seq<B>, marks: Seq<bool>)
    requires
        items.len() == others.len(),
    ensures
        relay::chosen(items, marks).len() == relay::chosen(others, marks).len(),
    decreases items.len(),
{
    if items.len() > 0 {
        lemma_chosen_length(items.drop_last(), others.drop_last(), marks);
    }
}

/// One more speaker changes the frame of exactly those who hear the speaker: each sample by the
/// speaker's, up to the limits of a sample.
pub proof fn law_one_more_speaker(
    routing: RoutingView,
    speakers: Seq<(u16, String)>,
    frames: Seq<Seq<i16>>,
    speaker: (u16, String),
    frame: Seq<i16>,
    near: Seq<Vec<String>>,
    client_id: u16,
    sample: int,
)
    requires
        frames.len() == speakers.len(),
        0 <= sample < 960,
    ensures
        ({
            let before = relay::sent_frame(routing, speakers, frames, near, client_id);
            let after = relay::sent_frame(
                routing,
                speakers.push(speaker),
                frames.push(frame),
                near,
                client_id,
            );
            let sum = before[sample] + frame[sample];
            if routing.hears(
                speaker.1@,
                routing::near_of(near, speakers.len() as int),
                client_id,
            ) {
                &&& -32768 <= sum <= 32767 ==> after[sample] == sum
                &&& sum > 32767 ==> after[sample] == 32767
                &&& sum < -32768 ==> after[sample] == -32768
            } else {
                after == before
            }
        }),
{
    let marks = relay::heard(routing, speakers, near, client_id);
    let more = relay::heard(routing, speakers.push(speaker), near, client_id);
    assert forall|i: int| 0 <= i < speakers.len() implies marks[i] == #[trigger] more[i] by {
        assert(speakers.push(speaker)[i] == speakers[i]);
    }
    assert(frames.push(frame).drop_last() =~= frames);
    lemma_chosen_marks_agree(frames, marks, more);
    mix::law_one_more_voice(relay::chosen(frames, marks), frame, sample);
}

proof fn lemma_chosen_marks_agree<A>(items: Seq<A>, marks: Seq<bool>, more: Seq<bool>)
    requires
        forall|i: int| 0 <= i < items.len() ==> marks[i] == #[trigger] more[i],
    ensures
        relay::chosen(items, marks) == relay::chosen(items, more),
    decreases items.len(),
{
    if items.len() > 0 {
        lemma_chosen_marks_agree(items.drop_last(), marks, more);
        assert(marks[items.len() - 1] == more[items.len() - 1]);
    }
}

} // verus!
