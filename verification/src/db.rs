//! Users that the database says are online.
use vstd::prelude::*;

verus! {

/// The users that can be reached: those with a UID and a positive client id, in their order. A
/// client id is taken modulo the range of client ids.
pub open spec fn reachable(rows: Seq<(String, i32)>) -> Seq<(Seq<char>, u16)>
    decreases rows.len(),
{
    if rows.len() == 0 {
        Seq::empty()
    } else {
        let rest = reachable(rows.drop_last());
        let (uid, client_id) = rows.last();
        if uid@.len() == 0 || client_id <= 0 {
            rest
        } else {
            rest.push((uid@, (client_id % 0x1_0000) as u16))
        }
    }
}

/// Users with the views of their UIDs.
pub open spec fn user_views(users: Seq<(String, u16)>) -> Seq<(Seq<char>, u16)> {
    Seq::new(users.len(), |i: int| (users[i].0@, users[i].1))
}

/// Picks the users that can be reached out of the rows of the database.
pub fn online_users(rows: &Vec<(String, i32)>) -> (users: Vec<(String, u16)>)
    ensures
        user_views(users@) == reachable(rows@),
{
    let mut users: Vec<(String, u16)> = Vec::new();
    assert(user_views(users@) =~= reachable(rows@.take(0)));
    let mut i: usize = 0;
    while i < rows.len()
        invariant
            i <= rows@.len(),
            user_views(users@) == reachable(rows@.take(i as int)),
        decreases rows.len() - i,
    {
        assert(rows@.take(i + 1).drop_last() =~= rows@.take(i as int));
        let client_id: i32 = rows[i].1;
        if !(rows[i].0.as_str().is_empty() || client_id <= 0) {
            let ghost before = users@;
            let id: u16 = (client_id % 0x1_0000) as u16;
            users.push((rows[i].0.clone(), id));
            assert(user_views(users@) =~= user_views(before).push((rows@[i as int].0@, id)));
        }
        i += 1;
    }
    assert(rows@.take(rows@.len() as int) =~= rows@);
    users
}

/// What is reached of two lists of rows is what is reached of the first, and then of the second.
pub proof fn law_rows_one_by_one(first: Seq<(String, i32)>, second: Seq<(String, i32)>)
    ensures
        reachable(first + second) == reachable(first) + reachable(second),
    decreases second.len(),
{
    if second.len() == 0 {
        assert(first + second =~= first);
        assert(reachable(first) + reachable(second) =~= reachable(first));
    } else {
        law_rows_one_by_one(first, second.drop_last());
        assert((first + second).drop_last() =~= first + second.drop_last());
        assert((first + second).last() == second.last());
        assert(reachable(first + second) =~= reachable(first) + reachable(second));
    }
}

/// A row with a UID and a positive client id is reached under both, the client id modulo its
/// range; any other row is not.
pub proof fn law_row(uid: String, client_id: i32)
    ensures
        uid@.len() > 0 && client_id > 0 ==> {
            let found = reachable(seq![(uid, client_id)]);
            &&& found.len() == 1
            &&& found[0].0 == uid@
            &&& (client_id - found[0].1) % 65536 == 0
        },
        uid@.len() == 0 || client_id <= 0 ==> reachable(seq![(uid, client_id)]).len() == 0,
{
    let row = seq![(uid, client_id)];
    assert(row.drop_last() =~= Seq::empty());
    assert(reachable(row.drop_last()) =~= Seq::empty());
    assert(row.last() == (uid, client_id));
}

} // verus!
