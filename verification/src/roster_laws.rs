//! What the messages of the game server do to the roster of players, in general.
use vstd::prelude::*;

use crate::position;
use crate::position::{PlayerState, PlayerView, Roster, SessionView};

verus! {

/// The seven events are told apart by their names.
proof fn lemma_events_distinct()
    ensures
        "join"@ != "spawn"@,
        "join"@ != "leave"@,
        "join"@ != "clear"@,
        "join"@ != "despawn"@,
        "join"@ != "detach"@,
        "join"@ != "position"@,
        "spawn"@ != "leave"@,
        "spawn"@ != "clear"@,
        "spawn"@ != "despawn"@,
        "spawn"@ != "detach"@,
        "spawn"@ != "position"@,
        "leave"@ != "clear"@,
        "leave"@ != "despawn"@,
        "leave"@ != "detach"@,
        "leave"@ != "position"@,
        "clear"@ != "despawn"@,
        "clear"@ != "detach"@,
        "clear"@ != "position"@,
        "despawn"@ != "detach"@,
        "despawn"@ != "position"@,
        "detach"@ != "position"@,
{
    reveal_strlit("join");
    reveal_strlit("spawn");
    reveal_strlit("leave");
    reveal_strlit("clear");
    reveal_strlit("despawn");
    reveal_strlit("detach");
    reveal_strlit("position");
    assert("join"@.len() == 4 && "spawn"@.len() == 5 && "leave"@.len() == 5 && "clear"@.len() == 5);
    assert("despawn"@.len() == 7 && "detach"@.len() == 6 && "position"@.len() == 8);
    assert("spawn"@[0] == 's' && "leave"@[0] == 'l' && "clear"@[0] == 'c');
}

/// Every message keeps each player filed where state and coalition say, and nobody both in the
/// lobby and active for one coalition.
pub proof fn law_wf_preserved(roster: Roster, session: SessionView)
    requires
        roster.wf(),
    ensures
        roster.after(session).wf(),
{
}

/// Before any message there are no players, filed correctly.
pub proof fn law_empty_wf()
    ensures
        Roster::empty().wf(),
{
}

/// The roster after several messages, from none.
pub open spec fn after_all(sessions: Seq<SessionView>) -> Roster
    decreases sessions.len(),
{
    if sessions.len() == 0 {
        Roster::empty()
    } else {
        after_all(sessions.drop_last()).after(sessions.last())
    }
}

/// Whatever messages come, each player is filed where state and coalition say, and nobody both in
/// the lobby and active for one coalition.
pub proof fn law_always_wf(sessions: Seq<SessionView>)
    ensures
        after_all(sessions).wf(),
    decreases sessions.len(),
{
    if sessions.len() == 0 {
        law_empty_wf();
    } else {
        law_always_wf(sessions.drop_last());
        law_wf_preserved(after_all(sessions.drop_last()), sessions.last());
    }
}

/// A message without a UID, or with a blank one, changes nothing.
pub proof fn law_unroutable_ignored(roster: Roster, session: SessionView)
    requires
        session.radio_uid() is None,
    ensures
        roster.after(session) == roster,
{
}

/// A message for a country that is no coalition changes nothing, unless it removes players.
pub proof fn law_foreign_ignored(roster: Roster, session: SessionView)
    requires
        !position::is_coalition(session.country),
        session.event != "leave"@,
        session.event != "clear"@,
    ensures
        roster.after(session) == roster,
{
}

/// A message with an unknown event changes nothing.
pub proof fn law_unknown_event_ignored(roster: Roster, session: SessionView)
    requires
        session.event != "join"@,
        session.event != "spawn"@,
        session.event != "position"@,
        session.event != "despawn"@,
        session.event != "detach"@,
        session.event != "leave"@,
        session.event != "clear"@,
    ensures
        roster.after(session) == roster,
{
}

/// A player who joins is in the lobby of the coalition, and in no other dictionary.
pub proof fn law_join(roster: Roster, session: SessionView, uid: Seq<char>)
    requires
        session.event == "join"@,
        session.radio_uid() == Some(uid),
        position::is_coalition(session.country),
    ensures
        ({
            let after = roster.after(session);
            let player = session.player(uid, PlayerState::Lobby);
            &&& after.lobby(session.country).contains_key(uid)
            &&& after.lobby(session.country)[uid] == player
            &&& after.with_lobby(
                session.country,
                after.lobby(session.country).remove(uid),
            ).lacks(uid)
            &&& after.find(uid) == Some(player)
        }),
{
    lemma_events_distinct();
}

/// A player who spawns is active for the coalition, and no longer in its lobby.
pub proof fn law_spawn(roster: Roster, session: SessionView, uid: Seq<char>)
    requires
        session.event == "spawn"@,
        session.radio_uid() == Some(uid),
        position::is_coalition(session.country),
    ensures
        ({
            let after = roster.after(session);
            &&& after.active(session.country).contains_key(uid)
            &&& after.active(session.country)[uid] == session.player(uid, PlayerState::Active)
            &&& !after.lobby(session.country).contains_key(uid)
        }),
{
    lemma_events_distinct();
}

/// A player who spawns is found in the game, unless another coalition still files the player.
pub proof fn law_spawned_is_found(
    roster: Roster,
    session: SessionView,
    uid: Seq<char>,
    other: i32,
)
    requires
        session.event == "spawn"@,
        session.radio_uid() == Some(uid),
        position::is_coalition(session.country),
        position::is_coalition(other),
        other != session.country,
        !roster.lobby(other).contains_key(uid),
        !roster.active(other).contains_key(uid),
    ensures
        roster.after(session).find(uid) == Some(session.player(uid, PlayerState::Active)),
{
    lemma_events_distinct();
}

/// A position report moves an active player and leaves the dictionaries' UIDs as they are.
pub proof fn law_position_moves(roster: Roster, session: SessionView, uid: Seq<char>)
    requires
        session.event == "position"@,
        session.radio_uid() == Some(uid),
        position::is_coalition(session.country),
        roster.active(session.country).contains_key(uid),
    ensures
        ({
            let before = roster.active(session.country)[uid];
            let after = roster.after(session);
            &&& after.active(session.country).dom() == roster.active(session.country).dom()
            &&& after.active(session.country)[uid] == before.moved(session, uid)
            &&& after.with_active(session.country, roster.active(session.country)) == roster
        }),
{
    lemma_events_distinct();
    let after = roster.after(session);
    assert(after.active(session.country).dom() =~= roster.active(session.country).dom());
}

/// For a player who is not active, a position report is a spawn.
pub proof fn law_position_spawns(
    roster: Roster,
    session: SessionView,
    spawn: SessionView,
    uid: Seq<char>,
)
    requires
        session.event == "position"@,
        session.radio_uid() == Some(uid),
        position::is_coalition(session.country),
        !roster.active(session.country).contains_key(uid),
        spawn == (SessionView { event: "spawn"@, ..session }),
    ensures
        roster.after(session) == roster.after(spawn),
{
    lemma_events_distinct();
}

/// An active player who despawns or detaches is back in the lobby of the coalition, without
/// coordinates, and no longer active for it.
pub proof fn law_return(roster: Roster, session: SessionView, uid: Seq<char>)
    requires
        session.event == "despawn"@ || session.event == "detach"@,
        session.radio_uid() == Some(uid),
        position::is_coalition(session.country),
        roster.active(session.country).contains_key(uid),
    ensures
        ({
            let after = roster.after(session);
            &&& after.lobby(session.country).contains_key(uid)
            &&& after.lobby(session.country)[uid] == roster.active(session.country)[uid].grounded()
            &&& !after.active(session.country).contains_key(uid)
        }),
{
    lemma_events_distinct();
}

/// Nobody but an active player is moved by a despawn or a detach.
pub proof fn law_return_of_inactive(roster: Roster, session: SessionView, uid: Seq<char>)
    requires
        session.event == "despawn"@ || session.event == "detach"@,
        session.radio_uid() == Some(uid),
        !roster.active(session.country).contains_key(uid),
    ensures
        roster.after(session) == roster,
{
    lemma_events_distinct();
}

/// Detaching is the same as despawning.
pub proof fn law_detach_is_despawn(roster: Roster, despawn: SessionView, detach: SessionView)
    requires
        despawn.event == "despawn"@,
        detach == (SessionView { event: "detach"@, ..despawn }),
    ensures
        roster.after(despawn) == roster.after(detach),
{
    lemma_events_distinct();
}

/// A player who leaves is in no dictionary, and cannot be found.
pub proof fn law_leave(roster: Roster, session: SessionView, uid: Seq<char>)
    requires
        session.event == "leave"@,
        session.radio_uid() == Some(uid),
    ensures
        roster.after(session).lacks(uid),
        roster.after(session).find(uid) is None,
{
}

/// After a clear there are no players.
pub proof fn law_clear(roster: Roster, session: SessionView)
    requires
        session.event == "clear"@,
        session.radio_uid() is Some,
    ensures
        roster.after(session) == Roster::empty(),
{
    lemma_events_distinct();
}

/// A message about one player does not touch another, unless it clears the roster.
pub proof fn law_others_untouched(roster: Roster, session: SessionView, other: Seq<char>)
    requires
        session.event != "clear"@,
        session.radio_uid() != Some(other),
    ensures
        ({
            let after = roster.after(session);
            &&& after.lobby_allies.contains_key(other) == roster.lobby_allies.contains_key(other)
            &&& after.lobby_allies[other] == roster.lobby_allies[other]
            &&& after.lobby_axis.contains_key(other) == roster.lobby_axis.contains_key(other)
            &&& after.lobby_axis[other] == roster.lobby_axis[other]
            &&& after.active_allies.contains_key(other) == roster.active_allies.contains_key(other)
            &&& after.active_allies[other] == roster.active_allies[other]
            &&& after.active_axis.contains_key(other) == roster.active_axis.contains_key(other)
            &&& after.active_axis[other] == roster.active_axis[other]
            &&& after.find(other) == roster.find(other)
        }),
{
}

/// A spawn followed by a despawn leaves the player in the lobby of the coalition, with what the
/// spawn said of the player and without coordinates.
pub proof fn law_spawn_then_despawn(
    roster: Roster,
    spawn: SessionView,
    despawn: SessionView,
    uid: Seq<char>,
)
    requires
        spawn.event == "spawn"@,
        spawn.radio_uid() == Some(uid),
        position::is_coalition(spawn.country),
        despawn.event == "despawn"@,
        despawn.radio_uid() == Some(uid),
        despawn.country == spawn.country,
    ensures
        ({
            let after = roster.after(spawn).after(despawn);
            &&& after.lobby(spawn.country).contains_key(uid)
            &&& after.lobby(spawn.country)[uid] == spawn.player(uid, PlayerState::Active).grounded()
            &&& !after.active(spawn.country).contains_key(uid)
        }),
{
    lemma_events_distinct();
}

/// A message that comes again says nothing new.
pub proof fn law_repeated(roster: Roster, session: SessionView)
    ensures
        roster.after(session).after(session) == roster.after(session),
{
    assert(roster.after(session).after(session) =~= roster.after(session));
}

/// A UID is found exactly where the map of all players holds it.
pub proof fn law_find_agrees_with_merged(roster: Roster, uid: Seq<char>)
    ensures
        roster.find(uid) is Some <==> roster.merged().contains_key(uid),
{
}

/// In how many dictionaries a UID is.
pub open spec fn times_filed(roster: Roster, uid: Seq<char>) -> int {
    (if roster.lobby_allies.contains_key(uid) {
        1int
    } else {
        0
    }) + (if roster.lobby_axis.contains_key(uid) {
        1int
    } else {
        0
    }) + (if roster.active_allies.contains_key(uid) {
        1int
    } else {
        0
    }) + (if roster.active_axis.contains_key(uid) {
        1int
    } else {
        0
    })
}

/// Where all messages about a player name one country, the player is in at most one dictionary.
pub proof fn law_filed_once(sessions: Seq<SessionView>, uid: Seq<char>, country: i32)
    requires
        forall|i: int|
            0 <= i < sessions.len() && (#[trigger] sessions[i]).radio_uid() == Some(uid)
                ==> sessions[i].country == country,
    ensures
        times_filed(after_all(sessions), uid) <= 1,
{
    law_always_wf(sessions);
    if country != position::ALLIES {
        lemma_not_filed_elsewhere(sessions, uid, country, position::ALLIES);
    }
    if country != position::AXIS {
        lemma_not_filed_elsewhere(sessions, uid, country, position::AXIS);
    }
}

proof fn lemma_not_filed_elsewhere(
    sessions: Seq<SessionView>,
    uid: Seq<char>,
    country: i32,
    other: i32,
)
    requires
        position::is_coalition(other),
        other != country,
        forall|i: int|
            0 <= i < sessions.len() && (#[trigger] sessions[i]).radio_uid() == Some(uid)
                ==> sessions[i].country == country,
    ensures
        !after_all(sessions).lobby(other).contains_key(uid),
        !after_all(sessions).active(other).contains_key(uid),
    decreases sessions.len(),
{
    if sessions.len() > 0 {
        let rest = sessions.drop_last();
        let last = sessions.last();
        assert(sessions[sessions.len() - 1] == last);
        assert forall|i: int|
            0 <= i < rest.len() && (#[trigger] rest[i]).radio_uid() == Some(
                uid,
            ) implies rest[i].country == country by {
            assert(sessions[i] == rest[i]);
        }
        lemma_not_filed_elsewhere(rest, uid, country, other);
        if last.radio_uid() != Some(uid) && last.event != "clear"@ {
            law_others_untouched(after_all(rest), last, uid);
        }
    }
}

/// What is stored of a player who joins: what the message says, field by field. Missing
/// coordinates are zero, missing texts empty.
pub proof fn law_join_fields(roster: Roster, session: SessionView, uid: Seq<char>)
    requires
        session.event == "join"@,
        session.radio_uid() == Some(uid),
        session.country == 101 || session.country == 201,
    ensures
        ({
            let after = roster.after(session);
            let player = if session.country == 101 {
                after.lobby_allies[uid]
            } else {
                after.lobby_axis[uid]
            };
            &&& after.lobby_allies.contains_key(uid) == (session.country == 101)
            &&& after.lobby_axis.contains_key(uid) == (session.country == 201)
            &&& !after.active_allies.contains_key(uid)
            &&& !after.active_axis.contains_key(uid)
            &&& player.state == PlayerState::Lobby
            &&& says(player, session, uid)
        }),
{
    lemma_events_distinct();
}

/// A record says of a player what a message says, field by field. Missing coordinates are zero,
/// missing texts empty.
pub open spec fn says(player: PlayerView, session: SessionView, uid: Seq<char>) -> bool {
    &&& player.id == session.id
    &&& player.gamer_name == session.gamer_name
    &&& player.country == session.country
    &&& player.team_speak_id == Some(uid)
    &&& match session.x {
        Some(x) => player.x == x,
        None => player.x == 0,
    }
    &&& match session.y {
        Some(y) => player.y == y,
        None => player.y == 0,
    }
    &&& match session.z {
        Some(z) => player.z == z,
        None => player.z == 0,
    }
    &&& match session.aircraft_type {
        Some(text) => player.aircraft_type == text,
        None => player.aircraft_type.len() == 0,
    }
    &&& match session.name {
        Some(text) => player.aircraft_name == text,
        None => player.aircraft_name.len() == 0,
    }
    &&& player.category == position::category_of(player.aircraft_type)
}

/// What is stored of a player who spawns, or whose first position is reported: what the message
/// says, field by field.
pub proof fn law_spawn_fields(roster: Roster, session: SessionView, uid: Seq<char>)
    requires
        session.event == "spawn"@ || (session.event == "position"@ && !roster.active(
            session.country,
        ).contains_key(uid)),
        session.radio_uid() == Some(uid),
        session.country == 101 || session.country == 201,
    ensures
        ({
            let after = roster.after(session);
            let player = if session.country == 101 {
                after.active_allies[uid]
            } else {
                after.active_axis[uid]
            };
            &&& session.country == 101 ==> after.active_allies.contains_key(uid)
                && !after.lobby_allies.contains_key(uid)
            &&& session.country == 201 ==> after.active_axis.contains_key(uid)
                && !after.lobby_axis.contains_key(uid)
            &&& player.state == PlayerState::Active
            &&& says(player, session, uid)
        }),
{
    lemma_events_distinct();
}

/// A player who spawns is a spectator exactly if the type is `Spectator`, and a pilot with any
/// other type or none.
pub proof fn law_spawned_as_pilot(roster: Roster, session: SessionView, uid: Seq<char>)
    requires
        session.event == "spawn"@,
        session.radio_uid() == Some(uid),
        session.country == 101 || session.country == 201,
    ensures
        roster.after(session).spectators(session.country).contains_key(uid)
            <==> session.aircraft_type == Some("Spectator"@),
        roster.after(session).pilots(session.country).contains_key(uid) <==> session.aircraft_type
            != Some("Spectator"@),
{
    lemma_events_distinct();
    reveal_strlit("Spectator");
    assert("Spectator"@.len() == 9);
    let player = session.player(uid, PlayerState::Active);
    position::law_category_named(player.aircraft_type);
    assert(position::category_name(position::CategoryObject::Spectator) == "Spectator"@);
}

/// After a position report of an active player each coordinate that the message holds is the
/// player's, and each that it leaves out is as before; name, country, UID, type and its category
/// are the message's, and the player stays active under the same id.
pub proof fn law_position_fields(roster: Roster, session: SessionView, uid: Seq<char>)
    requires
        session.event == "position"@,
        session.radio_uid() == Some(uid),
        session.country == 101 || session.country == 201,
        roster.active(session.country).contains_key(uid),
    ensures
        ({
            let before = if session.country == 101 {
                roster.active_allies[uid]
            } else {
                roster.active_axis[uid]
            };
            let player = if session.country == 101 {
                roster.after(session).active_allies[uid]
            } else {
                roster.after(session).active_axis[uid]
            };
            &&& match session.x {
                Some(x) => player.x == x,
                None => player.x == before.x,
            }
            &&& match session.y {
                Some(y) => player.y == y,
                None => player.y == before.y,
            }
            &&& match session.z {
                Some(z) => player.z == z,
                None => player.z == before.z,
            }
            &&& player.id == before.id
            &&& player.state == before.state
            &&& player.gamer_name == session.gamer_name
            &&& player.country == session.country
            &&& player.team_speak_id == Some(uid)
            &&& match session.aircraft_type {
                Some(text) => player.aircraft_type == text,
                None => player.aircraft_type.len() == 0,
            }
            &&& match session.name {
                Some(text) => player.aircraft_name == text,
                None => player.aircraft_name.len() == 0,
            }
            &&& player.category == position::category_of(player.aircraft_type)
        }),
{
    lemma_events_distinct();
}

/// A player who returns to the lobby is known as before, but for the state, and for the
/// coordinates, which are zero.
pub proof fn law_return_fields(roster: Roster, session: SessionView, uid: Seq<char>)
    requires
        session.event == "despawn"@ || session.event == "detach"@,
        session.radio_uid() == Some(uid),
        session.country == 101 || session.country == 201,
        roster.active(session.country).contains_key(uid),
    ensures
        ({
            let after = roster.after(session);
            let before = if session.country == 101 {
                roster.active_allies[uid]
            } else {
                roster.active_axis[uid]
            };
            let player = if session.country == 101 {
                after.lobby_allies[uid]
            } else {
                after.lobby_axis[uid]
            };
            &&& session.country == 101 ==> after.lobby_allies.contains_key(uid)
                && !after.active_allies.contains_key(uid)
            &&& session.country == 201 ==> after.lobby_axis.contains_key(uid)
                && !after.active_axis.contains_key(uid)
            &&& player.state == PlayerState::Lobby
            &&& player.x == 0
            &&& player.y == 0
            &&& player.z == 0
            &&& player.id == before.id
            &&& player.gamer_name == before.gamer_name
            &&& player.country == before.country
            &&& player.team_speak_id == before.team_speak_id
            &&& player.category == before.category
            &&& player.aircraft_type == before.aircraft_type
            &&& player.aircraft_name == before.aircraft_name
        }),
{
    lemma_events_distinct();
}

/// A message about a player of one coalition leaves the dictionaries of the other as they are,
/// unless the player joins or leaves, or the roster is cleared.
pub proof fn law_other_coalition_untouched(roster: Roster, session: SessionView)
    requires
        session.event != "join"@,
        session.event != "leave"@,
        session.event != "clear"@,
    ensures
        session.country != 101 ==> roster.after(session).lobby_allies == roster.lobby_allies
            && roster.after(session).active_allies == roster.active_allies,
        session.country != 201 ==> roster.after(session).lobby_axis == roster.lobby_axis
            && roster.after(session).active_axis == roster.active_axis,
{
}

/// A player who leaves is in none of the four dictionaries, whatever country the message names;
/// after a clear the four dictionaries are empty.
pub proof fn law_removal(roster: Roster, session: SessionView, uid: Seq<char>, any: Seq<char>)
    requires
        session.radio_uid() == Some(uid),
    ensures
        session.event == "leave"@ ==> {
            let after = roster.after(session);
            &&& !after.lobby_allies.contains_key(uid)
            &&& !after.lobby_axis.contains_key(uid)
            &&& !after.active_allies.contains_key(uid)
            &&& !after.active_axis.contains_key(uid)
        },
        session.event == "clear"@ ==> {
            let after = roster.after(session);
            &&& !after.lobby_allies.contains_key(any)
            &&& !after.lobby_axis.contains_key(any)
            &&& !after.active_allies.contains_key(any)
            &&& !after.active_axis.contains_key(any)
        },
{
    lemma_events_distinct();
}

/// What holds of a roster after any messages, dictionary by dictionary.
pub proof fn law_wf_means(roster: Roster, uid: Seq<char>)
    requires
        roster.wf(),
    ensures
        roster.lobby_allies.contains_key(uid) ==> {
            let player = roster.lobby_allies[uid];
            &&& player.team_speak_id == Some(uid)
            &&& player.country == 101
            &&& player.state == PlayerState::Lobby
            &&& player.category == position::category_of(player.aircraft_type)
            &&& !roster.active_allies.contains_key(uid)
        },
        roster.lobby_axis.contains_key(uid) ==> {
            let player = roster.lobby_axis[uid];
            &&& player.team_speak_id == Some(uid)
            &&& player.country == 201
            &&& player.state == PlayerState::Lobby
            &&& player.category == position::category_of(player.aircraft_type)
            &&& !roster.active_axis.contains_key(uid)
        },
        roster.active_allies.contains_key(uid) ==> {
            let player = roster.active_allies[uid];
            &&& player.team_speak_id == Some(uid)
            &&& player.country == 101
            &&& player.state == PlayerState::Active
            &&& player.category == position::category_of(player.aircraft_type)
        },
        roster.active_axis.contains_key(uid) ==> {
            let player = roster.active_axis[uid];
            &&& player.team_speak_id == Some(uid)
            &&& player.country == 201
            &&& player.state == PlayerState::Active
            &&& player.category == position::category_of(player.aircraft_type)
        },
{
}

} // verus!
