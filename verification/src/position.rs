//! Players: where they are, which coalition they fly for, and whether they are in the lobby.
use rustc_hash::FxHashMap;
use vstd::prelude::*;

use crate::fx_map;
use crate::lists;
use crate::number::{Double, ZERO};
use crate::text;

verus! {

/// The country code of the Allies.
pub const ALLIES: i32 = 101;

/// The country code of the Axis.
pub const AXIS: i32 = 201;

/// Object category, told by the `type` field of a message.
#[derive(Debug, Clone, Copy, PartialEq, Eq, Structural)]
pub enum CategoryObject {
    Unknown,
    Spectator,
    Aircraft,
    BotPilot,
    Engine,
    BotGunner,
    Bomb,
    Rocket,
    AircraftTurret,
    Mab,
    Paratrooper,
    RctContainer,
    Accelerator,
    Vehicle,
    VehicleCrew,
    VehicleTurret,
}

impl Default for CategoryObject {
    fn default() -> (category: Self)
        ensures
            category == CategoryObject::Unknown,
    {
        CategoryObject::Unknown
    }
}

/// The category that a `type` field names; every other text names none.
pub open spec fn category_of(s: Seq<char>) -> CategoryObject {
    if s == "Spectator"@ {
        CategoryObject::Spectator
    } else if s == "aircraft"@ {
        CategoryObject::Aircraft
    } else if s == "BotPilot"@ {
        CategoryObject::BotPilot
    } else if s == "Engine"@ {
        CategoryObject::Engine
    } else if s == "BotGunner"@ {
        CategoryObject::BotGunner
    } else if s == "bomb"@ {
        CategoryObject::Bomb
    } else if s == "rocket"@ {
        CategoryObject::Rocket
    } else if s == "aircraft_turret"@ {
        CategoryObject::AircraftTurret
    } else if s == "MAB"@ {
        CategoryObject::Mab
    } else if s == "paratrooper"@ {
        CategoryObject::Paratrooper
    } else if s == "rct_container"@ {
        CategoryObject::RctContainer
    } else if s == "accelerator"@ {
        CategoryObject::Accelerator
    } else if s == "vehicle"@ {
        CategoryObject::Vehicle
    } else if s == "vehicle_crew"@ {
        CategoryObject::VehicleCrew
    } else if s == "vehicle_turret"@ {
        CategoryObject::VehicleTurret
    } else {
        CategoryObject::Unknown
    }
}

/// The text that names a category in messages; `Unknown` has none.
pub open spec fn category_name(category: CategoryObject) -> Seq<char> {
    match category {
        CategoryObject::Unknown => ""@,
        CategoryObject::Spectator => "Spectator"@,
        CategoryObject::Aircraft => "aircraft"@,
        CategoryObject::BotPilot => "BotPilot"@,
        CategoryObject::Engine => "Engine"@,
        CategoryObject::BotGunner => "BotGunner"@,
        CategoryObject::Bomb => "bomb"@,
        CategoryObject::Rocket => "rocket"@,
        CategoryObject::AircraftTurret => "aircraft_turret"@,
        CategoryObject::Mab => "MAB"@,
        CategoryObject::Paratrooper => "paratrooper"@,
        CategoryObject::RctContainer => "rct_container"@,
        CategoryObject::Accelerator => "accelerator"@,
        CategoryObject::Vehicle => "vehicle"@,
        CategoryObject::VehicleCrew => "vehicle_crew"@,
        CategoryObject::VehicleTurret => "vehicle_turret"@,
    }
}

impl CategoryObject {
    /// The category that the `type` field of a message names.
    pub fn parse(s: &str) -> (category: Self)
        ensures
            category == category_of(s@),
    {
        if text::same(s, "Spectator") {
            CategoryObject::Spectator
        } else if text::same(s, "aircraft") {
            CategoryObject::Aircraft
        } else if text::same(s, "BotPilot") {
            CategoryObject::BotPilot
        } else if text::same(s, "Engine") {
            CategoryObject::Engine
        } else if text::same(s, "BotGunner") {
            CategoryObject::BotGunner
        } else if text::same(s, "bomb") {
            CategoryObject::Bomb
        } else if text::same(s, "rocket") {
            CategoryObject::Rocket
        } else if text::same(s, "aircraft_turret") {
            CategoryObject::AircraftTurret
        } else if text::same(s, "MAB") {
            CategoryObject::Mab
        } else if text::same(s, "paratrooper") {
            CategoryObject::Paratrooper
        } else if text::same(s, "rct_container") {
            CategoryObject::RctContainer
        } else if text::same(s, "accelerator") {
            CategoryObject::Accelerator
        } else if text::same(s, "vehicle") {
            CategoryObject::Vehicle
        } else if text::same(s, "vehicle_crew") {
            CategoryObject::VehicleCrew
        } else if text::same(s, "vehicle_turret") {
            CategoryObject::VehicleTurret
        } else {
            CategoryObject::Unknown
        }
    }
}

/// Every category is told by its name: reading the name gives the category back.
pub proof fn law_category_round_trip(category: CategoryObject)
    ensures
        category_of(category_name(category)) == category,
{
    reveal_strlit("");
    assert(""@.len() == 0);
    reveal_strlit("Spectator");
    assert("Spectator"@.len() == 9);
    reveal_strlit("aircraft");
    assert("aircraft"@.len() == 8);
    reveal_strlit("BotPilot");
    assert("BotPilot"@.len() == 8);
    reveal_strlit("Engine");
    assert("Engine"@.len() == 6);
    reveal_strlit("BotGunner");
    assert("BotGunner"@.len() == 9);
    reveal_strlit("bomb");
    assert("bomb"@.len() == 4);
    reveal_strlit("rocket");
    assert("rocket"@.len() == 6);
    reveal_strlit("aircraft_turret");
    assert("aircraft_turret"@.len() == 15);
    reveal_strlit("MAB");
    assert("MAB"@.len() == 3);
    reveal_strlit("paratrooper");
    assert("paratrooper"@.len() == 11);
    reveal_strlit("rct_container");
    assert("rct_container"@.len() == 13);
    reveal_strlit("accelerator");
    assert("accelerator"@.len() == 11);
    reveal_strlit("vehicle");
    assert("vehicle"@.len() == 7);
    reveal_strlit("vehicle_crew");
    assert("vehicle_crew"@.len() == 12);
    reveal_strlit("vehicle_turret");
    assert("vehicle_turret"@.len() == 14);
    // names of the same length differ in their first character
    assert("Spectator"@[0] != "BotGunner"@[0]);
    assert("aircraft"@[0] != "BotPilot"@[0]);
    assert("Engine"@[0] != "rocket"@[0]);
    assert("paratrooper"@[0] != "accelerator"@[0]);
}

/// Player state in the game.
#[derive(Debug, Clone, Copy, PartialEq, Eq, Structural)]
pub enum PlayerState {
    Lobby,
    Active,
}

impl Default for PlayerState {
    fn default() -> (state: Self)
        ensures
            state == PlayerState::Lobby,
    {
        PlayerState::Lobby
    }
}

/// The view of an optional text.
pub open spec fn optional_text(s: Option<String>) -> Option<Seq<char>> {
    match s {
        Some(s) => Some(s@),
        None => None,
    }
}

/// The text itself, or the empty text where there is none.
pub open spec fn text_or_empty(s: Option<Seq<char>>) -> Seq<char> {
    match s {
        Some(s) => s,
        None => Seq::empty(),
    }
}

/// What is known of one player.
#[derive(Debug)]
pub struct PlayerPosition {
    pub id: i64,
    pub gamer_name: String,
    /// Coalition: 101 (Allies), 201 (Axis).
    pub country: i32,
    pub team_speak_id: Option<String>,
    pub x: Double,
    pub y: Double,
    pub z: Double,
    pub state: PlayerState,
    pub category: CategoryObject,
    pub aircraft_type: String,
    pub aircraft_name: String,
}

/// What is known of one player, as a mathematical value.
pub struct PlayerView {
    pub id: i64,
    pub gamer_name: Seq<char>,
    pub country: i32,
    pub team_speak_id: Option<Seq<char>>,
    pub x: Double,
    pub y: Double,
    pub z: Double,
    pub state: PlayerState,
    pub category: CategoryObject,
    pub aircraft_type: Seq<char>,
    pub aircraft_name: Seq<char>,
}

impl View for PlayerPosition {
    type V = PlayerView;

    open spec fn view(&self) -> PlayerView {
        PlayerView {
            id: self.id,
            gamer_name: self.gamer_name@,
            country: self.country,
            team_speak_id: optional_text(self.team_speak_id),
            x: self.x,
            y: self.y,
            z: self.z,
            state: self.state,
            category: self.category,
            aircraft_type: self.aircraft_type@,
            aircraft_name: self.aircraft_name@,
        }
    }
}

impl PlayerView {
    /// Lobby players and spectators speak to the lobby.
    pub open spec fn lobby_routing(self) -> bool {
        self.state == PlayerState::Lobby || self.category == CategoryObject::Spectator
    }

    /// The player after leaving the game for the lobby: the coordinates are reset.
    pub open spec fn grounded(self) -> PlayerView {
        PlayerView { state: PlayerState::Lobby, x: ZERO, y: ZERO, z: ZERO, ..self }
    }

    /// The active player after a position report; coordinates that the report leaves out stay.
    pub open spec fn moved(self, session: SessionView, uid: Seq<char>) -> PlayerView {
        let aircraft_type = text_or_empty(session.aircraft_type);
        PlayerView {
            gamer_name: session.gamer_name,
            country: session.country,
            team_speak_id: Some(uid),
            x: or_value(session.x, self.x),
            y: or_value(session.y, self.y),
            z: or_value(session.z, self.z),
            category: category_of(aircraft_type),
            aircraft_type,
            aircraft_name: text_or_empty(session.name),
            ..self
        }
    }
}

/// A number, or another one where there is none.
pub open spec fn or_value(a: Option<Double>, b: Double) -> Double {
    match a {
        Some(a) => a,
        None => b,
    }
}

fn number_or(a: Option<Double>, b: Double) -> (r: Double)
    ensures
        r == or_value(a, b),
{
    match a {
        Some(a) => a,
        None => b,
    }
}

pub(crate) fn clone_optional(s: &Option<String>) -> (r: Option<String>)
    ensures
        r == *s,
{
    match s {
        Some(s) => Some(s.clone()),
        None => None,
    }
}

pub(crate) fn clone_or_empty(s: &Option<String>) -> (r: String)
    ensures
        r@ == text_or_empty(optional_text(*s)),
{
    match s {
        Some(s) => s.clone(),
        None => String::new(),
    }
}

impl Default for PlayerPosition {
    fn default() -> (player: Self)
        ensures
            player@ == (PlayerView {
                id: 0,
                gamer_name: Seq::empty(),
                country: 0,
                team_speak_id: None,
                x: ZERO,
                y: ZERO,
                z: ZERO,
                state: PlayerState::Lobby,
                category: CategoryObject::Unknown,
                aircraft_type: Seq::empty(),
                aircraft_name: Seq::empty(),
            }),
    {
        PlayerPosition {
            id: 0,
            gamer_name: String::new(),
            country: 0,
            team_speak_id: None,
            x: ZERO,
            y: ZERO,
            z: ZERO,
            state: PlayerState::Lobby,
            category: CategoryObject::Unknown,
            aircraft_type: String::new(),
            aircraft_name: String::new(),
        }
    }
}

impl Clone for PlayerPosition {
    fn clone(&self) -> (player: Self)
        ensures
            player == *self,
    {
        PlayerPosition {
            id: self.id,
            gamer_name: self.gamer_name.clone(),
            country: self.country,
            team_speak_id: clone_optional(&self.team_speak_id),
            x: self.x,
            y: self.y,
            z: self.z,
            state: self.state,
            category: self.category,
            aircraft_type: self.aircraft_type.clone(),
            aircraft_name: self.aircraft_name.clone(),
        }
    }
}

impl PlayerPosition {
    /// True if the sender should use lobby routing (lobby players and spectators).
    pub fn is_lobby_routing(&self) -> (lobby: bool)
        ensures
            lobby == self@.lobby_routing(),
    {
        self.state == PlayerState::Lobby || self.category == CategoryObject::Spectator
    }
}

/// One message about a player, as the game server sends it.
#[derive(Debug)]
pub struct PlayerSession {
    pub event: String,
    pub id: i64,
    pub gamer_name: String,
    pub country: i32,
    pub team_speak_id: Option<String>,
    pub x: Option<Double>,
    pub y: Option<Double>,
    pub z: Option<Double>,
    pub aircraft_type: Option<String>,
    pub name: Option<String>,
    pub pid: Option<i64>,
}

/// One message about a player, as a mathematical value.
pub struct SessionView {
    pub event: Seq<char>,
    pub id: i64,
    pub gamer_name: Seq<char>,
    pub country: i32,
    pub team_speak_id: Option<Seq<char>>,
    pub x: Option<Double>,
    pub y: Option<Double>,
    pub z: Option<Double>,
    pub aircraft_type: Option<Seq<char>>,
    pub name: Option<Seq<char>>,
    pub pid: Option<i64>,
}

impl View for PlayerSession {
    type V = SessionView;

    open spec fn view(&self) -> SessionView {
        SessionView {
            event: self.event@,
            id: self.id,
            gamer_name: self.gamer_name@,
            country: self.country,
            team_speak_id: optional_text(self.team_speak_id),
            x: self.x,
            y: self.y,
            z: self.z,
            aircraft_type: optional_text(self.aircraft_type),
            name: optional_text(self.name),
            pid: self.pid,
        }
    }
}

impl SessionView {
    /// The UID under which the player takes part in radio routing: none where the message has
    /// no UID, or a blank one.
    pub open spec fn radio_uid(self) -> Option<Seq<char>> {
        match self.team_speak_id {
            Some(uid) => if text::blank(uid) {
                None
            } else {
                Some(uid)
            },
            None => None,
        }
    }

    /// The player that the message describes, when it is entered into a dictionary.
    pub open spec fn player(self, uid: Seq<char>, state: PlayerState) -> PlayerView {
        let aircraft_type = text_or_empty(self.aircraft_type);
        PlayerView {
            id: self.id,
            gamer_name: self.gamer_name,
            country: self.country,
            team_speak_id: Some(uid),
            x: or_value(self.x, ZERO),
            y: or_value(self.y, ZERO),
            z: or_value(self.z, ZERO),
            state,
            category: category_of(aircraft_type),
            aircraft_type,
            aircraft_name: text_or_empty(self.name),
        }
    }
}

/// The four dictionaries of players, keyed by TeamSpeak UID.
#[verifier::ext_equal]
pub struct Roster {
    pub lobby_allies: Map<Seq<char>, PlayerView>,
    pub lobby_axis: Map<Seq<char>, PlayerView>,
    pub active_allies: Map<Seq<char>, PlayerView>,
    pub active_axis: Map<Seq<char>, PlayerView>,
}

/// A country code that stands for a coalition.
pub open spec fn is_coalition(country: i32) -> bool {
    country == ALLIES || country == AXIS
}

/// The players of a dictionary that holds one state of one coalition: each is stored under its
/// own UID, which is not blank, and under the category that its type names.
pub open spec fn dict_wf(
    dict: Map<Seq<char>, PlayerView>,
    country: i32,
    state: PlayerState,
) -> bool {
    forall|uid: Seq<char>| #[trigger]
        dict.contains_key(uid) ==> {
            &&& !text::blank(uid)
            &&& dict[uid].team_speak_id == Some(uid)
            &&& dict[uid].country == country
            &&& dict[uid].state == state
            &&& dict[uid].category == category_of(dict[uid].aircraft_type)
        }
}

impl Roster {
    /// What holds of the dictionaries after any messages: each player is filed where state and
    /// coalition say, and nobody is both in the lobby and active for one coalition.
    pub open spec fn wf(self) -> bool {
        &&& dict_wf(self.lobby_allies, ALLIES, PlayerState::Lobby)
        &&& dict_wf(self.lobby_axis, AXIS, PlayerState::Lobby)
        &&& dict_wf(self.active_allies, ALLIES, PlayerState::Active)
        &&& dict_wf(self.active_axis, AXIS, PlayerState::Active)
        &&& self.lobby_allies.dom().disjoint(self.active_allies.dom())
        &&& self.lobby_axis.dom().disjoint(self.active_axis.dom())
    }

    /// The roster knows nothing of a UID.
    pub open spec fn lacks(self, uid: Seq<char>) -> bool {
        &&& !self.lobby_allies.contains_key(uid)
        &&& !self.lobby_axis.contains_key(uid)
        &&& !self.active_allies.contains_key(uid)
        &&& !self.active_axis.contains_key(uid)
    }

    /// No players at all.
    pub open spec fn empty() -> Roster {
        Roster {
            lobby_allies: Map::empty(),
            lobby_axis: Map::empty(),
            active_allies: Map::empty(),
            active_axis: Map::empty(),
        }
    }

    /// The lobby of a coalition.
    pub open spec fn lobby(self, country: i32) -> Map<Seq<char>, PlayerView> {
        if country == ALLIES {
            self.lobby_allies
        } else {
            self.lobby_axis
        }
    }

    /// The active players of a coalition.
    pub open spec fn active(self, country: i32) -> Map<Seq<char>, PlayerView> {
        if country == ALLIES {
            self.active_allies
        } else {
            self.active_axis
        }
    }

    /// The spectators among the active players of a coalition: for radio they count as lobby.
    pub open spec fn spectators(self, country: i32) -> Map<Seq<char>, PlayerView> {
        let active = self.active(country);
        active.restrict(
            Set::new(|uid: Seq<char>| active.contains_key(uid) && active[uid].lobby_routing()),
        )
    }

    /// The active players of a coalition who are no spectators.
    pub open spec fn pilots(self, country: i32) -> Map<Seq<char>, PlayerView> {
        let active = self.active(country);
        active.restrict(
            Set::new(|uid: Seq<char>| active.contains_key(uid) && !active[uid].lobby_routing()),
        )
    }

    /// The roster with another lobby for a coalition.
    pub open spec fn with_lobby(self, country: i32, lobby: Map<Seq<char>, PlayerView>) -> Roster {
        if country == ALLIES {
            Roster { lobby_allies: lobby, ..self }
        } else {
            Roster { lobby_axis: lobby, ..self }
        }
    }

    /// The roster with other active players for a coalition.
    pub open spec fn with_active(self, country: i32, active: Map<Seq<char>, PlayerView>) -> Roster {
        if country == ALLIES {
            Roster { active_allies: active, ..self }
        } else {
            Roster { active_axis: active, ..self }
        }
    }

    /// The roster without a player.
    pub open spec fn without(self, uid: Seq<char>) -> Roster {
        Roster {
            lobby_allies: self.lobby_allies.remove(uid),
            lobby_axis: self.lobby_axis.remove(uid),
            active_allies: self.active_allies.remove(uid),
            active_axis: self.active_axis.remove(uid),
        }
    }

    /// What is known of a UID: the lobbies are asked before the active players, the Allies
    /// before the Axis.
    pub open spec fn find(self, uid: Seq<char>) -> Option<PlayerView> {
        if self.lobby_allies.contains_key(uid) {
            Some(self.lobby_allies[uid])
        } else if self.lobby_axis.contains_key(uid) {
            Some(self.lobby_axis[uid])
        } else if self.active_allies.contains_key(uid) {
            Some(self.active_allies[uid])
        } else if self.active_axis.contains_key(uid) {
            Some(self.active_axis[uid])
        } else {
            None
        }
    }

    /// All players by UID; where a UID is in several dictionaries, an active player hides one in
    /// a lobby, and the Axis the Allies.
    pub open spec fn merged(self) -> Map<Seq<char>, PlayerView> {
        self.lobby_allies.union_prefer_right(self.lobby_axis).union_prefer_right(
            self.active_allies,
        ).union_prefer_right(self.active_axis)
    }

    /// A player enters the lobby of a coalition and leaves every other dictionary.
    pub open spec fn joined(self, uid: Seq<char>, session: SessionView) -> Roster {
        let rest = self.without(uid);
        rest.with_lobby(
            session.country,
            rest.lobby(session.country).insert(uid, session.player(uid, PlayerState::Lobby)),
        )
    }

    /// A player moves from the lobby of a coalition to its active players.
    pub open spec fn spawned(self, uid: Seq<char>, session: SessionView) -> Roster {
        let country = session.country;
        self.with_lobby(country, self.lobby(country).remove(uid)).with_active(
            country,
            self.active(country).insert(uid, session.player(uid, PlayerState::Active)),
        )
    }

    /// An active player of a coalition goes back to its lobby; nobody else does.
    pub open spec fn returned(self, uid: Seq<char>, country: i32) -> Roster {
        if self.active(country).contains_key(uid) {
            self.with_active(country, self.active(country).remove(uid)).with_lobby(
                country,
                self.lobby(country).insert(uid, self.active(country)[uid].grounded()),
            )
        } else {
            self
        }
    }

    /// An active player of a coalition moves; for anybody else the report is a spawn.
    pub open spec fn reported(self, uid: Seq<char>, session: SessionView) -> Roster {
        let active = self.active(session.country);
        if active.contains_key(uid) {
            self.with_active(session.country, active.insert(uid, active[uid].moved(session, uid)))
        } else {
            self.spawned(uid, session)
        }
    }

    /// The roster after a message.
    pub open spec fn after(self, session: SessionView) -> Roster {
        match session.radio_uid() {
            None => self,
            Some(uid) => if session.event == "leave"@ {
                self.without(uid)
            } else if session.event == "clear"@ {
                Roster::empty()
            } else if !is_coalition(session.country) {
                self
            } else if session.event == "join"@ {
                self.joined(uid, session)
            } else if session.event == "spawn"@ {
                self.spawned(uid, session)
            } else if session.event == "despawn"@ || session.event == "detach"@ {
                self.returned(uid, session.country)
            } else if session.event == "position"@ {
                self.reported(uid, session)
            } else {
                self
            },
        }
    }
}

/// The contents of a dictionary of players.
pub open spec fn players(m: FxHashMap<String, PlayerPosition>) -> Map<Seq<char>, PlayerView> {
    fx_map::keyed(m).map_values(|p: PlayerPosition| p@)
}

/// Snapshot of all position dictionaries, suitable for routing decisions.
/// Keys are TeamSpeak UIDs.
#[derive(Debug)]
pub struct PositionSnapshot {
    pub lobby_allies: FxHashMap<String, PlayerPosition>,
    pub lobby_axis: FxHashMap<String, PlayerPosition>,
    pub active_allies: FxHashMap<String, PlayerPosition>,
    pub active_axis: FxHashMap<String, PlayerPosition>,
}

impl View for PositionSnapshot {
    type V = Roster;

    open spec fn view(&self) -> Roster {
        Roster {
            lobby_allies: players(self.lobby_allies),
            lobby_axis: players(self.lobby_axis),
            active_allies: players(self.active_allies),
            active_axis: players(self.active_axis),
        }
    }
}

impl Default for PositionSnapshot {
    fn default() -> (snapshot: Self)
        ensures
            snapshot@ == Roster::empty(),
    {
        let snapshot = PositionSnapshot {
            lobby_allies: FxHashMap::default(),
            lobby_axis: FxHashMap::default(),
            active_allies: FxHashMap::default(),
            active_axis: FxHashMap::default(),
        };
        proof {
            fx_map::lemma_empty(snapshot.lobby_allies);
            fx_map::lemma_empty(snapshot.lobby_axis);
            fx_map::lemma_empty(snapshot.active_allies);
            fx_map::lemma_empty(snapshot.active_axis);
            assert(snapshot@ =~= Roster::empty());
        }
        snapshot
    }
}

impl Clone for PositionSnapshot {
    fn clone(&self) -> (snapshot: Self)
        ensures
            snapshot@ == self@,
    {
        PositionSnapshot {
            lobby_allies: self.lobby_allies.clone(),
            lobby_axis: self.lobby_axis.clone(),
            active_allies: self.active_allies.clone(),
            active_axis: self.active_axis.clone(),
        }
    }
}

fn insert_player(m: &mut FxHashMap<String, PlayerPosition>, uid: String, player: PlayerPosition)
    ensures
        players(*final(m)) == players(*old(m)).insert(uid@, player@),
{
    fx_map::insert(m, uid, player);
    assert(players(*m) =~= players(*old(m)).insert(uid@, player@));
}

fn remove_player(m: &mut FxHashMap<String, PlayerPosition>, uid: &str) -> (removed: Option<
    PlayerPosition,
>)
    ensures
        players(*final(m)) == players(*old(m)).remove(uid@),
        match removed {
            Some(player) => players(*old(m)).contains_key(uid@) && player@ == players(
                *old(m),
            )[uid@],
            None => !players(*old(m)).contains_key(uid@),
        },
{
    let removed = fx_map::remove(m, uid);
    assert(players(*m) =~= players(*old(m)).remove(uid@));
    removed
}

impl PositionSnapshot {
    fn get_lobby_dict(&self, country: i32) -> (dict: &FxHashMap<String, PlayerPosition>)
        ensures
            players(*dict) == self@.lobby(country),
    {
        if country == ALLIES {
            &self.lobby_allies
        } else {
            &self.lobby_axis
        }
    }

    fn get_active_dict(&self, country: i32) -> (dict: &FxHashMap<String, PlayerPosition>)
        ensures
            players(*dict) == self@.active(country),
    {
        if country == ALLIES {
            &self.active_allies
        } else {
            &self.active_axis
        }
    }

    fn lobby_dict(&mut self, country: i32) -> (dict: &mut FxHashMap<String, PlayerPosition>)
        ensures
            players(*dict) == old(self)@.lobby(country),
            final(self)@ == old(self)@.with_lobby(country, players(*final(dict))),
    {
        if country == ALLIES {
            &mut self.lobby_allies
        } else {
            &mut self.lobby_axis
        }
    }

    fn active_dict(&mut self, country: i32) -> (dict: &mut FxHashMap<String, PlayerPosition>)
        ensures
            players(*dict) == old(self)@.active(country),
            final(self)@ == old(self)@.with_active(country, players(*final(dict))),
    {
        if country == ALLIES {
            &mut self.active_allies
        } else {
            &mut self.active_axis
        }
    }
}

/// `values` are the players of a dictionary under the UIDs `uids`, each once.
pub open spec fn lists_under(
    values: Seq<PlayerView>,
    uids: Seq<Seq<char>>,
    dict: Map<Seq<char>, PlayerView>,
) -> bool {
    &&& uids.len() == values.len()
    &&& uids.no_duplicates()
    &&& forall|uid: Seq<char>| #[trigger] uids.contains(uid) <==> dict.contains_key(uid)
    &&& forall|i: int| 0 <= i < values.len() ==> #[trigger] values[i] == dict[uids[i]]
}

/// `values` are the players of a dictionary, each once, in some order.
pub open spec fn lists(values: Seq<PlayerView>, dict: Map<Seq<char>, PlayerView>) -> bool {
    exists|uids: Seq<Seq<char>>| lists_under(values, uids, dict)
}

/// The players of a dictionary under the given UIDs, in their order; UIDs that the dictionary
/// does not hold are passed over.
pub open spec fn selected(uids: Seq<String>, dict: Map<Seq<char>, PlayerView>) -> Seq<PlayerView>
    decreases uids.len(),
{
    if uids.len() == 0 {
        Seq::empty()
    } else {
        let rest = selected(uids.drop_last(), dict);
        if dict.contains_key(uids.last()@) {
            rest.push(dict[uids.last()@])
        } else {
            rest
        }
    }
}

/// What is known of each of several players.
pub open spec fn views(all: Seq<&PlayerPosition>) -> Seq<PlayerView> {
    Seq::new(all.len(), |i: int| all[i]@)
}

/// The UIDs of a listing.
pub open spec fn entry_uids(all: Seq<(&String, &PlayerPosition)>) -> Seq<Seq<char>> {
    Seq::new(all.len(), |i: int| all[i].0@)
}

/// The players of a listing.
pub open spec fn entry_players(all: Seq<(&String, &PlayerPosition)>) -> Seq<PlayerView> {
    Seq::new(all.len(), |i: int| all[i].1@)
}

proof fn lemma_entries(
    all: Seq<(&String, &PlayerPosition)>,
    dict: FxHashMap<String, PlayerPosition>,
)
    requires
        fx_map::enumerates(all, fx_map::keyed(dict)),
    ensures
        lists_under(entry_players(all), entry_uids(all), players(dict)),
{
    let uids = entry_uids(all);
    assert(uids.no_duplicates()) by {
        assert forall|i: int, j: int| 0 <= i < uids.len() && 0 <= j < uids.len() && i != j implies uids[i]
            != uids[j] by {
            if i < j {
                assert(all[i].0@ != all[j].0@);
            } else {
                assert(all[j].0@ != all[i].0@);
            }
        }
    }
    assert forall|uid: Seq<char>| #[trigger] uids.contains(uid) <==> players(dict).contains_key(uid) by {
        if uids.contains(uid) {
            let i = choose|i: int| 0 <= i < uids.len() && uids[i] == uid;
            assert(fx_map::keyed(dict).contains_key(all[i].0@));
        }
        if players(dict).contains_key(uid) {
            assert(fx_map::keyed(dict).contains_key(uid));
            let i = choose|i: int| 0 <= i < all.len() && (#[trigger] all[i]).0@ == uid;
            assert(uids[i] == uid);
        }
    }
}

impl PositionSnapshot {
    /// All lobby recipients for the given coalition (broadcast), in no particular order.
    pub fn lobby_recipients(&self, country: i32) -> (recipients: Vec<&PlayerPosition>)
        ensures
            lists(views(recipients@), self@.lobby(country)),
    {
        let dict = self.get_lobby_dict(country);
        let all = fx_map::entries(dict);
        let mut recipients: Vec<&PlayerPosition> = Vec::new();
        let mut i: usize = 0;
        while i < all.len()
            invariant
                i <= all@.len(),
                views(recipients@) == entry_players(all@).take(i as int),
            decreases all.len() - i,
        {
            let ghost before = recipients@;
            recipients.push(all[i].1);
            assert(views(recipients@) =~= views(before).push(all@[i as int].1@));
            assert(views(recipients@) =~= entry_players(all@).take(i + 1));
            i += 1;
        }
        proof {
            lemma_entries(all@, *dict);
            assert(views(recipients@) =~= entry_players(all@));
            assert(lists_under(views(recipients@), entry_uids(all@), self@.lobby(country)));
        }
        recipients
    }

    /// The spectators among the active players of the given coalition, in no particular order.
    pub fn spectators(&self, country: i32) -> (found: Vec<&PlayerPosition>)
        ensures
            lists(views(found@), self@.spectators(country)),
    {
        let entries = self.active_entries(country);
        let mut found: Vec<&PlayerPosition> = Vec::new();
        let ghost all = entry_uids(entries@);
        let ghost mut uids: Seq<Seq<char>> = Seq::empty();
        let mut i: usize = 0;
        while i < entries.len()
            invariant
                i <= entries@.len(),
                all == entry_uids(entries@),
                lists_under(entry_players(entries@), all, self@.active(country)),
                uids.len() == found@.len(),
                uids.no_duplicates(),
                forall|uid: Seq<char>| #[trigger]
                    uids.contains(uid) <==> self@.spectators(country).contains_key(uid)
                        && all.take(i as int).contains(uid),
                forall|j: int|
                    0 <= j < found@.len() ==> (#[trigger] found@[j])@ == self@.active(
                        country,
                    )[uids[j]],
            decreases entries.len() - i,
        {
            let player = entries[i].1;
            let ghost uid = all[i as int];
            let ghost before = uids;
            proof {
                lists::lemma_take(all, i as int);
                assert(entry_players(entries@)[i as int] == self@.active(country)[uid]);
                assert(all.contains(uid));
            }
            if player.is_lobby_routing() {
                found.push(player);
                proof {
                    uids = uids.push(uid);
                    lists::lemma_push(before, uid);
                }
            }
            i += 1;
        }
        proof {
            assert(all.take(i as int) =~= all);
            assert forall|j: int| 0 <= j < found@.len() implies views(found@)[j]
                == self@.spectators(country)[uids[j]] by {
                assert(uids.contains(uids[j]));
                assert(found@[j]@ == self@.active(country)[uids[j]]);
            }
            assert(lists_under(views(found@), uids, self@.spectators(country)));
        }
        found
    }

    /// All active players of the given coalition with their UIDs, in no particular order: the
    /// candidates that the range of a radio is measured against.
    pub fn active_entries(&self, country: i32) -> (entries: Vec<(&String, &PlayerPosition)>)
        ensures
            lists_under(entry_players(entries@), entry_uids(entries@), self@.active(country)),
    {
        let dict = self.get_active_dict(country);
        let entries = fx_map::entries(dict);
        proof {
            lemma_entries(entries@, *dict);
        }
        entries
    }

    /// The active players of the given coalition inside a sphere. Which UIDs lie inside is
    /// measured by the caller, in floating point; their order is kept.
    pub fn in_sphere(&self, country: i32, inside: &Vec<String>) -> (found: Vec<&PlayerPosition>)
        ensures
            views(found@) == selected(inside@, self@.active(country)),
    {
        let dict = self.get_active_dict(country);
        let mut found: Vec<&PlayerPosition> = Vec::new();
        assert(views(found@) =~= selected(inside@.take(0), self@.active(country)));
        let mut i: usize = 0;
        while i < inside.len()
            invariant
                i <= inside@.len(),
                players(*dict) == self@.active(country),
                views(found@) == selected(inside@.take(i as int), self@.active(country)),
            decreases inside.len() - i,
        {
            let ghost before = found@;
            assert(inside@.take(i + 1).drop_last() =~= inside@.take(i as int));
            if let Some(player) = fx_map::get(dict, inside[i].as_str()) {
                found.push(player);
                assert(views(found@) =~= views(before).push(player@));
            }
            i += 1;
        }
        assert(inside@.take(inside@.len() as int) =~= inside@);
        found
    }

    /// Finds a player by TeamSpeak UID across all dictionaries.
    pub fn get_by_uid(&self, uid: &str) -> (found: Option<&PlayerPosition>)
        ensures
            match found {
                Some(player) => self@.find(uid@) == Some(player@),
                None => self@.find(uid@) is None,
            },
    {
        if let Some(player) = fx_map::get(&self.lobby_allies, uid) {
            Some(player)
        } else if let Some(player) = fx_map::get(&self.lobby_axis, uid) {
            Some(player)
        } else if let Some(player) = fx_map::get(&self.active_allies, uid) {
            Some(player)
        } else if let Some(player) = fx_map::get(&self.active_axis, uid) {
            Some(player)
        } else {
            None
        }
    }

    /// Collects all players by UID (for resolving client ids).
    pub fn to_uid_map(&self) -> (all: FxHashMap<String, PlayerPosition>)
        ensures
            players(all) == self@.merged(),
    {
        let mut out: FxHashMap<String, PlayerPosition> = FxHashMap::default();
        proof {
            fx_map::lemma_empty(out);
        }
        merge(&mut out, &self.lobby_allies);
        assert(players(out) =~= self@.lobby_allies);
        merge(&mut out, &self.lobby_axis);
        merge(&mut out, &self.active_allies);
        merge(&mut out, &self.active_axis);
        out
    }
}

/// Copies every player of a dictionary into another one.
fn merge(out: &mut FxHashMap<String, PlayerPosition>, dict: &FxHashMap<String, PlayerPosition>)
    ensures
        players(*final(out)) == players(*old(out)).union_prefer_right(players(*dict)),
{
    let all = fx_map::entries(dict);
    let ghost uids = entry_uids(all@);
    proof {
        lemma_entries(all@, *dict);
    }
    let mut i: usize = 0;
    while i < all.len()
        invariant
            i <= all@.len(),
            uids == entry_uids(all@),
            lists_under(entry_players(all@), uids, players(*dict)),
            forall|uid: Seq<char>| #[trigger]
                players(*out).contains_key(uid) <==> players(*old(out)).contains_key(uid)
                    || uids.take(i as int).contains(uid),
            forall|uid: Seq<char>| #[trigger]
                players(*out).contains_key(uid) ==> players(*out)[uid] == (if uids.take(
                    i as int,
                ).contains(uid) {
                    players(*dict)[uid]
                } else {
                    players(*old(out))[uid]
                }),
        decreases all.len() - i,
    {
        let ghost before = players(*out);
        insert_player(out, all[i].0.clone(), all[i].1.clone());
        proof {
            assert(entry_players(all@)[i as int] == all@[i as int].1@);
            assert(uids.take(i + 1) =~= uids.take(i as int).push(uids[i as int]));
            assert forall|uid: Seq<char>| #[trigger]
                uids.take(i + 1).contains(uid) <==> uids.take(i as int).contains(uid) || uid
                    == uids[i as int] by {
                if uids.take(i as int).contains(uid) {
                    let j = choose|j: int|
                        0 <= j < i && uids.take(i as int)[j] == uid;
                    assert(uids.take(i + 1)[j] == uid);
                }
                assert(uids.take(i + 1)[i as int] == uids[i as int]);
            }
            assert forall|uid: Seq<char>| #[trigger]
                players(*out).contains_key(uid) implies players(*out)[uid] == (if uids.take(
                i + 1,
            ).contains(uid) {
                players(*dict)[uid]
            } else {
                players(*old(out))[uid]
            }) by {
                assert(before.contains_key(uid) || uid == uids[i as int]);
            }
        }
        i += 1;
    }
    proof {
        assert(uids.take(i as int) =~= uids);
        assert(players(*out) =~= players(*old(out)).union_prefer_right(players(*dict)));
    }
}

/// Storage for player positions, split by coalition and lobby/active state.
/// Keys inside each dictionary are TeamSpeak UIDs.
#[derive(Debug)]
pub struct PlayerPositionService {
    inner: PositionSnapshot,
}

impl View for PlayerPositionService {
    type V = Roster;

    closed spec fn view(&self) -> Roster {
        self.inner@
    }
}

impl PlayerPositionService {
    /// Starts without players.
    pub fn new() -> (service: Self)
        ensures
            service@ == Roster::empty(),
            service@.wf(),
    {
        PlayerPositionService { inner: PositionSnapshot::default() }
    }

    /// Takes one message of the game server into account.
    pub fn handle_session(&mut self, session: PlayerSession)
        ensures
            final(self)@ == old(self)@.after(session@),
            old(self)@.wf() ==> final(self)@.wf(),
    {
        proof {
            if self@.wf() {
                crate::roster_laws::law_wf_preserved(self@, session@);
            }
        }
        // Players without a UID cannot take part in radio routing.
        let uid: String = match &session.team_speak_id {
            Some(uid) => {
                if text::is_blank(uid.as_str()) {
                    return;
                }
                uid.clone()
            },
            None => {
                return;
            },
        };
        let event: String = session.event.clone();
        if text::same(event.as_str(), "leave") {
            self.handle_leave(uid.as_str());
        } else if text::same(event.as_str(), "clear") {
            self.handle_clear();
        } else if is_valid_coalition(session.country) {
            if text::same(event.as_str(), "join") {
                self.handle_join(uid, &session);
            } else if text::same(event.as_str(), "spawn") {
                self.handle_spawn(uid, &session);
            } else if text::same(event.as_str(), "despawn") || text::same(
                event.as_str(),
                "detach",
            ) {
                self.move_to_lobby(uid, session.country);
            } else if text::same(event.as_str(), "position") {
                self.handle_position(uid, &session);
            }
        }
    }

    /// A copy of all dictionaries.
    pub fn snapshot(&self) -> (snapshot: PositionSnapshot)
        ensures
            snapshot@ == self@,
    {
        self.inner.clone()
    }

    /// Finds a player by TeamSpeak UID across all dictionaries.
    pub fn get_by_uid(&self, uid: &str) -> (found: Option<PlayerPosition>)
        ensures
            match found {
                Some(player) => self@.find(uid@) == Some(player@),
                None => self@.find(uid@) is None,
            },
    {
        match self.inner.get_by_uid(uid) {
            Some(player) => Some(player.clone()),
            None => None,
        }
    }

    fn remove_from_all(&mut self, uid: &str)
        ensures
            final(self)@ == old(self)@.without(uid@),
    {
        remove_player(&mut self.inner.lobby_allies, uid);
        remove_player(&mut self.inner.lobby_axis, uid);
        remove_player(&mut self.inner.active_allies, uid);
        remove_player(&mut self.inner.active_axis, uid);
    }

    fn handle_join(&mut self, uid: String, session: &PlayerSession)
        ensures
            final(self)@ == old(self)@.joined(uid@, session@),
    {
        self.remove_from_all(uid.as_str());
        let player = create_position(session, uid.clone(), PlayerState::Lobby);
        insert_player(self.inner.lobby_dict(session.country), uid, player);
    }

    fn handle_spawn(&mut self, uid: String, session: &PlayerSession)
        ensures
            final(self)@ == old(self)@.spawned(uid@, session@),
    {
        remove_player(self.inner.lobby_dict(session.country), uid.as_str());
        let player = create_position(session, uid.clone(), PlayerState::Active);
        insert_player(self.inner.active_dict(session.country), uid, player);
    }

    fn move_to_lobby(&mut self, uid: String, country: i32)
        ensures
            final(self)@ == old(self)@.returned(uid@, country),
    {
        let removed = remove_player(self.inner.active_dict(country), uid.as_str());
        match removed {
            Some(mut player) => {
                player.state = PlayerState::Lobby;
                player.x = ZERO;
                player.y = ZERO;
                player.z = ZERO;
                insert_player(self.inner.lobby_dict(country), uid, player);
            },
            None => {
                assert(old(self)@.active(country).remove(uid@) =~= old(self)@.active(country));
            },
        }
    }

    fn handle_position(&mut self, uid: String, session: &PlayerSession)
        ensures
            final(self)@ == old(self)@.reported(uid@, session@),
    {
        let moved: bool = move_player(self.inner.active_dict(session.country), &uid, session);
        if !moved {
            // A player who is not yet active spawns at the reported place.
            self.handle_spawn(uid, session);
        }
    }

    fn handle_leave(&mut self, uid: &str)
        ensures
            final(self)@ == old(self)@.without(uid@),
    {
        self.remove_from_all(uid);
    }

    fn handle_clear(&mut self)
        ensures
            final(self)@ == Roster::empty(),
    {
        self.inner.lobby_allies.clear();
        self.inner.lobby_axis.clear();
        self.inner.active_allies.clear();
        self.inner.active_axis.clear();
        proof {
            fx_map::lemma_empty(self.inner.lobby_allies);
            fx_map::lemma_empty(self.inner.lobby_axis);
            fx_map::lemma_empty(self.inner.active_allies);
            fx_map::lemma_empty(self.inner.active_axis);
            assert(self.inner@ =~= Roster::empty());
        }
    }
}

fn is_valid_coalition(country: i32) -> (valid: bool)
    ensures
        valid == is_coalition(country),
{
    country == ALLIES || country == AXIS
}

fn create_position(session: &PlayerSession, uid: String, state: PlayerState) -> (player:
    PlayerPosition)
    ensures
        player@ == session@.player(uid@, state),
{
    let aircraft_type: String = clone_or_empty(&session.aircraft_type);
    let category = CategoryObject::parse(aircraft_type.as_str());
    PlayerPosition {
        id: session.id,
        gamer_name: session.gamer_name.clone(),
        country: session.country,
        team_speak_id: Some(uid),
        x: number_or(session.x, ZERO),
        y: number_or(session.y, ZERO),
        z: number_or(session.z, ZERO),
        state,
        category,
        aircraft_type,
        aircraft_name: clone_or_empty(&session.name),
    }
}

/// Updates a player in place, if the dictionary holds the UID.
fn move_player(
    m: &mut FxHashMap<String, PlayerPosition>,
    uid: &String,
    session: &PlayerSession,
) -> (moved: bool)
    ensures
        moved == players(*old(m)).contains_key(uid@),
        players(*final(m)) == (if moved {
            players(*old(m)).insert(uid@, players(*old(m))[uid@].moved(session@, uid@))
        } else {
            players(*old(m))
        }),
{
    let moved = match fx_map::get_mut(m, uid.as_str()) {
        Some(existing) => {
            existing.x = number_or(session.x, existing.x);
            existing.y = number_or(session.y, existing.y);
            existing.z = number_or(session.z, existing.z);
            existing.team_speak_id = Some(uid.clone());
            existing.country = session.country;
            existing.gamer_name = session.gamer_name.clone();
            existing.aircraft_type = clone_or_empty(&session.aircraft_type);
            existing.aircraft_name = clone_or_empty(&session.name);
            existing.category = CategoryObject::parse(existing.aircraft_type.as_str());
            true
        },
        None => false,
    };
    proof {
        if moved {
            assert(players(*m) =~= players(*old(m)).insert(
                uid@,
                players(*old(m))[uid@].moved(session@, uid@),
            ));
        }
    }
    moved
}

/// A player's record says of each field what the player's view says.
pub proof fn law_player_view(player: PlayerPosition)
    ensures
        player@.id == player.id,
        player@.gamer_name == player.gamer_name@,
        player@.country == player.country,
        player.team_speak_id matches Some(uid) ==> player@.team_speak_id == Some(uid@),
        player.team_speak_id is None ==> player@.team_speak_id is None,
        player@.x == player.x,
        player@.y == player.y,
        player@.z == player.z,
        player@.state == player.state,
        player@.category == player.category,
        player@.aircraft_type == player.aircraft_type@,
        player@.aircraft_name == player.aircraft_name@,
{
}

/// A message says of each field what the message's view says.
pub proof fn law_session_view(session: PlayerSession)
    ensures
        session@.event == session.event@,
        session@.id == session.id,
        session@.gamer_name == session.gamer_name@,
        session@.country == session.country,
        session.team_speak_id matches Some(uid) ==> session@.team_speak_id == Some(uid@),
        session.team_speak_id is None ==> session@.team_speak_id is None,
        session@.x == session.x,
        session@.y == session.y,
        session@.z == session.z,
        session.aircraft_type matches Some(text) ==> session@.aircraft_type == Some(text@),
        session.aircraft_type is None ==> session@.aircraft_type is None,
        session.name matches Some(text) ==> session@.name == Some(text@),
        session.name is None ==> session@.name is None,
        session@.pid == session.pid,
{
}

/// A snapshot holds a player under a UID exactly where its view does, with the same record.
pub proof fn law_snapshot_view(snapshot: PositionSnapshot, uid: Seq<char>)
    ensures
        snapshot@.lobby_allies.contains_key(uid) == fx_map::keyed(
            snapshot.lobby_allies,
        ).contains_key(uid),
        snapshot@.lobby_axis.contains_key(uid) == fx_map::keyed(snapshot.lobby_axis).contains_key(
            uid,
        ),
        snapshot@.active_allies.contains_key(uid) == fx_map::keyed(
            snapshot.active_allies,
        ).contains_key(uid),
        snapshot@.active_axis.contains_key(uid) == fx_map::keyed(snapshot.active_axis).contains_key(
            uid,
        ),
        snapshot@.lobby_allies.contains_key(uid) ==> snapshot@.lobby_allies[uid] == fx_map::keyed(
            snapshot.lobby_allies,
        )[uid]@,
        snapshot@.lobby_axis.contains_key(uid) ==> snapshot@.lobby_axis[uid] == fx_map::keyed(
            snapshot.lobby_axis,
        )[uid]@,
        snapshot@.active_allies.contains_key(uid) ==> snapshot@.active_allies[uid] == fx_map::keyed(
            snapshot.active_allies,
        )[uid]@,
        snapshot@.active_axis.contains_key(uid) ==> snapshot@.active_axis[uid] == fx_map::keyed(
            snapshot.active_axis,
        )[uid]@,
{
}

/// A text that names a category is the name of that category: no other text does.
pub proof fn law_category_named(s: Seq<char>)
    ensures
        category_of(s) != CategoryObject::Unknown ==> s == category_name(category_of(s)),
{
}

/// A player uses lobby routing exactly if the player is in the lobby or a spectator.
pub proof fn law_lobby_routing(player: PlayerView)
    ensures
        player.lobby_routing() <==> player.state == PlayerState::Lobby || player.category
            == CategoryObject::Spectator,
{
}

/// Every active player of a coalition is a spectator or a pilot, never both: a spectator exactly
/// if the category or the state says so. The record is that of the dictionary.
pub proof fn law_spectator_or_pilot(roster: Roster, country: i32, uid: Seq<char>)
    ensures
        roster.spectators(country).contains_key(uid) <==> roster.active(country).contains_key(uid)
            && (roster.active(country)[uid].category == CategoryObject::Spectator || roster.active(
            country,
        )[uid].state == PlayerState::Lobby),
        roster.pilots(country).contains_key(uid) <==> roster.active(country).contains_key(uid)
            && roster.active(country)[uid].category != CategoryObject::Spectator && roster.active(
            country,
        )[uid].state == PlayerState::Active,
        roster.spectators(country).contains_key(uid) ==> roster.spectators(country)[uid]
            == roster.active(country)[uid],
        roster.pilots(country).contains_key(uid) ==> roster.pilots(country)[uid] == roster.active(
            country,
        )[uid],
{
}

/// The coalitions are the countries 101 and 201. The dictionaries of the Allies are those of country
/// 101; any other country is given those of the Axis.
pub proof fn law_coalitions(roster: Roster, country: i32)
    ensures
        is_coalition(country) <==> country == 101 || country == 201,
        roster.lobby(country) == (if country == 101 {
            roster.lobby_allies
        } else {
            roster.lobby_axis
        }),
        roster.active(country) == (if country == 101 {
            roster.active_allies
        } else {
            roster.active_axis
        }),
{
}

/// Where a UID is in several dictionaries, the record of the lobby of the Allies is found before
/// that of the lobby of the Axis, then that of the active Allies, then that of the active Axis.
pub proof fn law_find_order(roster: Roster, uid: Seq<char>)
    ensures
        roster.lobby_allies.contains_key(uid) ==> roster.find(uid) == Some(
            roster.lobby_allies[uid],
        ),
        !roster.lobby_allies.contains_key(uid) && roster.lobby_axis.contains_key(uid)
            ==> roster.find(uid) == Some(roster.lobby_axis[uid]),
        !roster.lobby_allies.contains_key(uid) && !roster.lobby_axis.contains_key(uid)
            && roster.active_allies.contains_key(uid) ==> roster.find(uid) == Some(
            roster.active_allies[uid],
        ),
        !roster.lobby_allies.contains_key(uid) && !roster.lobby_axis.contains_key(uid)
            && !roster.active_allies.contains_key(uid) && roster.active_axis.contains_key(uid)
            ==> roster.find(uid) == Some(roster.active_axis[uid]),
        roster.find(uid) is None <==> !roster.lobby_allies.contains_key(uid)
            && !roster.lobby_axis.contains_key(uid) && !roster.active_allies.contains_key(uid)
            && !roster.active_axis.contains_key(uid),
{
}

/// In the map of all players an active record hides one of a lobby, and one of the Axis one of the
/// Allies; every UID of any dictionary is in it, and no other.
pub proof fn law_merged_order(roster: Roster, uid: Seq<char>)
    ensures
        roster.merged().contains_key(uid) <==> roster.lobby_allies.contains_key(uid)
            || roster.lobby_axis.contains_key(uid) || roster.active_allies.contains_key(uid)
            || roster.active_axis.contains_key(uid),
        roster.active_axis.contains_key(uid) ==> roster.merged()[uid] == roster.active_axis[uid],
        !roster.active_axis.contains_key(uid) && roster.active_allies.contains_key(uid)
            ==> roster.merged()[uid] == roster.active_allies[uid],
        !roster.active_axis.contains_key(uid) && !roster.active_allies.contains_key(uid)
            && roster.lobby_axis.contains_key(uid) ==> roster.merged()[uid]
            == roster.lobby_axis[uid],
        !roster.active_axis.contains_key(uid) && !roster.active_allies.contains_key(uid)
            && !roster.lobby_axis.contains_key(uid) && roster.lobby_allies.contains_key(uid)
            ==> roster.merged()[uid] == roster.lobby_allies[uid],
{
}

/// A message is about the UID that it holds, as it stands; about none exactly if it holds none, or
/// white space alone.
pub proof fn law_radio_uid(session: SessionView, uid: Seq<char>)
    ensures
        session.radio_uid() == Some(uid) <==> session.team_speak_id == Some(uid) && exists|i: int|
            0 <= i < uid.len() && !text::is_white_space(#[trigger] uid[i]),
        session.team_speak_id is None ==> session.radio_uid() is None,
{
    if session.team_speak_id == Some(uid) && !text::blank(uid) {
        let i = choose|i: int| 0 <= i < uid.len() && !text::is_white_space(#[trigger] uid[i]);
        assert(!text::is_white_space(uid[i]));
    }
}

/// A listing of a dictionary holds each of its players, as often as the dictionary does, and no
/// others.
pub proof fn law_listing_complete(values: Seq<PlayerView>, dict: Map<Seq<char>, PlayerView>)
    requires
        lists(values, dict),
    ensures
        forall|uid: Seq<char>| #[trigger] dict.contains_key(uid) ==> values.contains(dict[uid]),
        forall|i: int| 0 <= i < values.len() ==> dict.contains_value(#[trigger] values[i]),
        dict.dom().finite(),
        values.len() == dict.dom().len(),
{
    let uids = choose|uids: Seq<Seq<char>>| lists_under(values, uids, dict);
    assert forall|uid: Seq<char>| #[trigger] dict.contains_key(uid) implies values.contains(
        dict[uid],
    ) by {
        assert(uids.contains(uid));
        let i = choose|i: int| 0 <= i < uids.len() && uids[i] == uid;
        assert(values[i] == dict[uid]);
    }
    assert forall|i: int| 0 <= i < values.len() implies dict.contains_value(
        #[trigger] values[i],
    ) by {
        assert(uids.contains(uids[i]));
        assert(dict.contains_key(uids[i]) && dict[uids[i]] == values[i]);
    }
    assert(uids.to_set() =~= dict.dom());
    uids.unique_seq_to_set();
}

/// What is selected under one list of UIDs and then another is what is selected under both in a
/// row.
pub proof fn law_selected_in_order(
    first: Seq<String>,
    second: Seq<String>,
    dict: Map<Seq<char>, PlayerView>,
)
    ensures
        selected(first + second, dict) == selected(first, dict) + selected(second, dict),
    decreases second.len(),
{
    if second.len() == 0 {
        assert(first + second =~= first);
        assert(selected(first, dict) + selected(second, dict) =~= selected(first, dict));
    } else {
        law_selected_in_order(first, second.drop_last(), dict);
        assert((first + second).drop_last() =~= first + second.drop_last());
        assert((first + second).last() == second.last());
        assert(selected(first + second, dict) =~= selected(first, dict) + selected(second, dict));
    }
}

/// Of UIDs that a dictionary holds, the players are selected one by one; of a UID that it does not
/// hold nobody is.
pub proof fn law_selected(uids: Seq<String>, dict: Map<Seq<char>, PlayerView>)
    ensures
        (forall|i: int| 0 <= i < uids.len() ==> dict.contains_key((#[trigger] uids[i])@)) ==> {
            &&& selected(uids, dict).len() == uids.len()
            &&& forall|i: int|
                0 <= i < uids.len() ==> #[trigger] selected(uids, dict)[i] == dict[uids[i]@]
        },
        (forall|i: int| 0 <= i < uids.len() ==> !dict.contains_key((#[trigger] uids[i])@))
            ==> selected(uids, dict).len() == 0,
    decreases uids.len(),
{
    if uids.len() > 0 {
        law_selected(uids.drop_last(), dict);
        assert(uids[uids.len() - 1] == uids.last());
        assert forall|i: int| 0 <= i < uids.len() - 1 implies uids.drop_last()[i] == uids[i] by {}
    }
}

/// Each category has its text, and no other text names it.
pub proof fn law_category_texts(s: Seq<char>)
    ensures
        category_of(s) == CategoryObject::Spectator <==> s == "Spectator"@,
        category_of(s) == CategoryObject::Aircraft <==> s == "aircraft"@,
        category_of(s) == CategoryObject::BotPilot <==> s == "BotPilot"@,
        category_of(s) == CategoryObject::Engine <==> s == "Engine"@,
        category_of(s) == CategoryObject::BotGunner <==> s == "BotGunner"@,
        category_of(s) == CategoryObject::Bomb <==> s == "bomb"@,
        category_of(s) == CategoryObject::Rocket <==> s == "rocket"@,
        category_of(s) == CategoryObject::AircraftTurret <==> s == "aircraft_turret"@,
        category_of(s) == CategoryObject::Mab <==> s == "MAB"@,
        category_of(s) == CategoryObject::Paratrooper <==> s == "paratrooper"@,
        category_of(s) == CategoryObject::RctContainer <==> s == "rct_container"@,
        category_of(s) == CategoryObject::Accelerator <==> s == "accelerator"@,
        category_of(s) == CategoryObject::Vehicle <==> s == "vehicle"@,
        category_of(s) == CategoryObject::VehicleCrew <==> s == "vehicle_crew"@,
        category_of(s) == CategoryObject::VehicleTurret <==> s == "vehicle_turret"@,
{
    law_category_named(s);
    law_category_round_trip(CategoryObject::Spectator);
    law_category_round_trip(CategoryObject::Aircraft);
    law_category_round_trip(CategoryObject::BotPilot);
    law_category_round_trip(CategoryObject::Engine);
    law_category_round_trip(CategoryObject::BotGunner);
    law_category_round_trip(CategoryObject::Bomb);
    law_category_round_trip(CategoryObject::Rocket);
    law_category_round_trip(CategoryObject::AircraftTurret);
    law_category_round_trip(CategoryObject::Mab);
    law_category_round_trip(CategoryObject::Paratrooper);
    law_category_round_trip(CategoryObject::RctContainer);
    law_category_round_trip(CategoryObject::Accelerator);
    law_category_round_trip(CategoryObject::Vehicle);
    law_category_round_trip(CategoryObject::VehicleCrew);
    law_category_round_trip(CategoryObject::VehicleTurret);
}

/// The listings of players hold each player, and each UID, in its place.
pub proof fn law_listing_views(
    all: Seq<&PlayerPosition>,
    entries: Seq<(&String, &PlayerPosition)>,
    i: int,
)
    ensures
        views(all).len() == all.len(),
        0 <= i < all.len() ==> views(all)[i] == all[i]@,
        entry_uids(entries).len() == entries.len(),
        entry_players(entries).len() == entries.len(),
        0 <= i < entries.len() ==> entry_uids(entries)[i] == entries[i].0@
            && entry_players(entries)[i] == entries[i].1@,
{
}

} // verus!
