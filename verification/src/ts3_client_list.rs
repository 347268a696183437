//! The TeamSpeak clients that are online, with the UIDs that are known of them.
use rustc_hash::FxHashMap;
use vstd::prelude::*;

use crate::fx_map;
use crate::position;

verus! {

/// What is known of one TeamSpeak client.
#[derive(Debug, Clone)]
pub struct Ts3ClientInfo {
    pub client_id: u16,
    pub uid: Option<String>,
}

/// The clients that are online, by client id.
#[derive(Debug)]
pub struct Ts3ClientList {
    inner: FxHashMap<u16, Ts3ClientInfo>,
}

impl View for Ts3ClientList {
    type V = Map<u16, Option<Seq<char>>>;

    closed spec fn view(&self) -> Map<u16, Option<Seq<char>>> {
        fx_map::keyed(self.inner).map_values(|c: Ts3ClientInfo| position::optional_text(c.uid))
    }
}

/// Some client with this UID is online.
pub open spec fn is_online(clients: Map<u16, Option<Seq<char>>>, uid: Seq<char>) -> bool {
    exists|id: u16| has_uid(clients, id, uid)
}

/// The client with this id is online and has this UID.
pub open spec fn has_uid(
    clients: Map<u16, Option<Seq<char>>>,
    id: u16,
    uid: Seq<char>,
) -> bool {
    clients.contains_key(id) && clients[id] == Some(uid)
}

/// `ids` holds the UIDs that are online, each with the id of a client that has it. Where several
/// clients have one UID, any of them may stand there.
pub open spec fn resolves(
    ids: Map<Seq<char>, u16>,
    clients: Map<u16, Option<Seq<char>>>,
) -> bool {
    &&& forall|uid: Seq<char>| #[trigger] ids.contains_key(uid) <==> is_online(clients, uid)
    &&& forall|uid: Seq<char>| #[trigger]
        ids.contains_key(uid) ==> has_uid(clients, ids[uid], uid)
}

/// The clients after users have come online, one after the other.
pub open spec fn with_users(
    clients: Map<u16, Option<Seq<char>>>,
    users: Seq<(String, u16)>,
) -> Map<u16, Option<Seq<char>>>
    decreases users.len(),
{
    if users.len() == 0 {
        clients
    } else {
        with_users(clients, users.drop_last()).insert(users.last().1, Some(users.last().0@))
    }
}

impl Ts3ClientList {
    /// Starts with no clients.
    pub fn new() -> (list: Self)
        ensures
            list@ == Map::<u16, Option<Seq<char>>>::empty(),
    {
        let list = Ts3ClientList { inner: FxHashMap::default() };
        proof {
            fx_map::lemma_empty(list.inner);
            assert(list@ =~= Map::empty());
        }
        list
    }

    /// A client has come online, or its UID has become known.
    pub fn insert_or_update(&mut self, client: Ts3ClientInfo)
        ensures
            final(self)@ == old(self)@.insert(
                client.client_id,
                position::optional_text(client.uid),
            ),
    {
        fx_map::insert(&mut self.inner, client.client_id, client);
        assert(self@ =~= old(self)@.insert(
            client.client_id,
            position::optional_text(client.uid),
        ));
    }

    /// Enters the users that were online before the bot started.
    pub fn seed(&mut self, users: Vec<(String, u16)>)
        ensures
            final(self)@ == with_users(old(self)@, users@),
    {
        assert(users@.take(0) =~= Seq::empty());
        let mut i: usize = 0;
        while i < users.len()
            invariant
                i <= users@.len(),
                self@ == with_users(old(self)@, users@.take(i as int)),
            decreases users.len() - i,
        {
            assert(users@.take(i + 1).drop_last() =~= users@.take(i as int));
            self.insert_or_update(
                Ts3ClientInfo { client_id: users[i].1, uid: Some(users[i].0.clone()) },
            );
            i += 1;
        }
        assert(users@.take(users@.len() as int) =~= users@);
    }

    /// The client id of each UID that is online, for routing.
    pub fn uid_to_client_id(&self) -> (ids: FxHashMap<String, u16>)
        ensures
            resolves(fx_map::keyed(ids), self@),
    {
        let all = fx_map::entries(&self.inner);
        let mut ids: FxHashMap<String, u16> = FxHashMap::default();
        proof {
            fx_map::lemma_empty(ids);
        }
        let mut i: usize = 0;
        while i < all.len()
            invariant
                i <= all@.len(),
                fx_map::enumerates(all@, fx_map::keyed(self.inner)),
                forall|uid: Seq<char>| #[trigger]
                    fx_map::keyed(ids).contains_key(uid) ==> has_uid(
                        self@,
                        fx_map::keyed(ids)[uid],
                        uid,
                    ),
                forall|j: int, uid: Seq<char>|
                    0 <= j < i && #[trigger] has_uid(self@, (#[trigger] all@[j]).0@, uid)
                        ==> fx_map::keyed(ids).contains_key(uid),
            decreases all.len() - i,
        {
            let ghost before = fx_map::keyed(ids);
            let (id, client) = all[i];
            assert(fx_map::keyed(self.inner).contains_key(all@[i as int].0@));
            if let Some(uid) = &client.uid {
                fx_map::insert(&mut ids, uid.clone(), *id);
                assert(has_uid(self@, *id, uid@));
            }
            i += 1;
        }
        assert forall|uid: Seq<char>| #[trigger] fx_map::keyed(ids).contains_key(uid) <==> is_online(
            self@,
            uid,
        ) by {
            if is_online(self@, uid) {
                let id = choose|id: u16| has_uid(self@, id, uid);
                assert(fx_map::keyed(self.inner).contains_key(id));
                let j = choose|j: int| 0 <= j < all@.len() && (#[trigger] all@[j]).0@ == id;
                assert(has_uid(self@, all@[j].0@, uid));
            }
        }
        ids
    }

    /// A client has gone offline.
    pub fn remove(&mut self, client_id: u16)
        ensures
            final(self)@ == old(self)@.remove(client_id),
    {
        fx_map::remove(&mut self.inner, &client_id);
        assert(self@ =~= old(self)@.remove(client_id));
    }
}

/// Two UIDs never resolve to one client.
pub proof fn law_ids_distinct(
    ids: Map<Seq<char>, u16>,
    clients: Map<u16, Option<Seq<char>>>,
    a: Seq<char>,
    b: Seq<char>,
)
    requires
        resolves(ids, clients),
        ids.contains_key(a),
        ids.contains_key(b),
        ids[a] == ids[b],
    ensures
        a == b,
{
}

/// Where one client alone has a UID, the UID resolves to that client.
pub proof fn law_unique_client_resolved(
    ids: Map<Seq<char>, u16>,
    clients: Map<u16, Option<Seq<char>>>,
    id: u16,
    uid: Seq<char>,
)
    requires
        resolves(ids, clients),
        has_uid(clients, id, uid),
        forall|other: u16| #[trigger] has_uid(clients, other, uid) ==> other == id,
    ensures
        ids.contains_key(uid),
        ids[uid] == id,
{
    assert(is_online(clients, uid));
    assert(ids.contains_key(uid));
    assert(has_uid(clients, ids[uid], uid));
}

/// A client that has gone offline is not resolved to.
pub proof fn law_removed_not_resolved(
    ids: Map<Seq<char>, u16>,
    clients: Map<u16, Option<Seq<char>>>,
    id: u16,
    uid: Seq<char>,
)
    requires
        resolves(ids, clients.remove(id)),
        ids.contains_key(uid),
    ensures
        ids[uid] != id,
{
}

/// A resolution holds exactly the UIDs that some client in the list has, and the client that it
/// gives has the UID.
pub proof fn law_resolution(
    ids: Map<Seq<char>, u16>,
    clients: Map<u16, Option<Seq<char>>>,
    uid: Seq<char>,
    id: u16,
)
    requires
        resolves(ids, clients),
    ensures
        clients.contains_key(id) && clients[id] == Some(uid) ==> ids.contains_key(uid),
        ids.contains_key(uid) ==> clients.contains_key(ids[uid]) && clients[ids[uid]] == Some(uid),
{
    if clients.contains_key(id) && clients[id] == Some(uid) {
        assert(has_uid(clients, id, uid));
        assert(is_online(clients, uid));
    }
}

/// Of several users with one client id the last stands in the list; a client that no user has stays
/// as it was.
pub proof fn law_last_user_stands(
    clients: Map<u16, Option<Seq<char>>>,
    users: Seq<(String, u16)>,
    id: u16,
    i: int,
)
    ensures
        (0 <= i < users.len() && users[i].1 == id && forall|j: int|
            i < j < users.len() ==> (#[trigger] users[j]).1 != id) ==> {
            &&& with_users(clients, users).contains_key(id)
            &&& with_users(clients, users)[id] == Some(users[i].0@)
        },
        (forall|j: int| 0 <= j < users.len() ==> (#[trigger] users[j]).1 != id) ==> {
            &&& with_users(clients, users).contains_key(id) == clients.contains_key(id)
            &&& with_users(clients, users)[id] == clients[id]
        },
    decreases users.len(),
{
    if users.len() > 0 {
        let rest = users.drop_last();
        law_last_user_stands(clients, rest, id, i);
        assert(users[users.len() - 1] == users.last());
        assert forall|j: int| 0 <= j < rest.len() implies rest[j] == users[j] by {}
        if 0 <= i < rest.len() {
            assert(rest[i] == users[i]);
        }
    }
}

} // verus!
