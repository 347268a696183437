use aviabot::db;
use aviabot::ts3_client_list::{Ts3ClientInfo, Ts3ClientList};

fn info(client_id: u16, uid: Option<&str>) -> Ts3ClientInfo {
    Ts3ClientInfo { client_id, uid: uid.map(|s| s.to_string()) }
}

#[test]
fn new_list_resolves_nothing() {
    assert!(Ts3ClientList::new().uid_to_client_id().is_empty());
}

#[test]
fn clients_with_uid_are_resolved() {
    let mut list = Ts3ClientList::new();
    list.insert_or_update(info(1, Some("a")));
    list.insert_or_update(info(2, None));
    list.insert_or_update(info(3, Some("c")));
    let ids = list.uid_to_client_id();
    assert_eq!(ids.len(), 2);
    assert_eq!(ids["a"], 1);
    assert_eq!(ids["c"], 3);
}

#[test]
fn later_information_replaces_earlier() {
    let mut list = Ts3ClientList::new();
    list.insert_or_update(info(1, Some("a")));
    list.insert_or_update(info(1, Some("b")));
    let ids = list.uid_to_client_id();
    assert_eq!(ids.len(), 1);
    assert_eq!(ids["b"], 1);
    list.insert_or_update(info(1, None));
    assert!(list.uid_to_client_id().is_empty());
}

#[test]
fn removed_clients_are_not_resolved() {
    let mut list = Ts3ClientList::new();
    list.insert_or_update(info(1, Some("a")));
    list.insert_or_update(info(2, Some("b")));
    list.remove(1);
    list.remove(7);
    let ids = list.uid_to_client_id();
    assert_eq!(ids.len(), 1);
    assert_eq!(ids["b"], 2);
}

#[test]
fn one_uid_on_two_clients_resolves_to_one_of_them() {
    let mut list = Ts3ClientList::new();
    list.insert_or_update(info(1, Some("a")));
    list.insert_or_update(info(2, Some("a")));
    let ids = list.uid_to_client_id();
    assert_eq!(ids.len(), 1);
    assert!(ids["a"] == 1 || ids["a"] == 2);
}

#[test]
fn list_is_seeded_with_users() {
    let mut list = Ts3ClientList::new();
    list.insert_or_update(info(9, Some("z")));
    list.seed(vec![
        ("a".to_string(), 1),
        ("b".to_string(), 2),
        ("c".to_string(), 1),
    ]);
    let ids = list.uid_to_client_id();
    assert_eq!(ids.len(), 3);
    assert_eq!(ids["z"], 9);
    assert_eq!(ids["b"], 2);
    assert_eq!(ids["c"], 1);
}

#[test]
fn unreachable_rows_are_skipped() {
    let rows: Vec<(String, i32)> = vec![
        ("a".to_string(), 7),
        ("".to_string(), 8),
        ("b".to_string(), 0),
        ("c".to_string(), -5),
        ("d".to_string(), 65535),
        ("e".to_string(), 65536 + 12),
        ("f".to_string(), i32::MAX),
    ];
    let users = db::online_users(&rows);
    let expected: Vec<(String, u16)> = rows
        .iter()
        .filter(|r| !r.0.is_empty() && r.1 > 0)
        .map(|r| (r.0.clone(), r.1 as u16))
        .collect();
    assert_eq!(users, expected);
    assert_eq!(users[0], ("a".to_string(), 7));
    assert_eq!(users[2], ("e".to_string(), 12));
    assert_eq!(users.len(), 4);
}
