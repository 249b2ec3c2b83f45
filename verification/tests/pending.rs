use osubot_core::pending::{code_of, random_code};
use osubot_core::rows::{PendingBindRow, PendingUnbindRow};
use osubot_core::storage::Storage;
use osubot_core::time::UtcTime;

const NOW: UtcTime = UtcTime { secs: 1_700_000_000, nanos: 250_000_000 };

fn after(seconds: i64) -> UtcTime {
    NOW.checked_add(seconds).unwrap()
}

#[test]
fn a_request_to_unbind_waits_five_minutes() {
    let mut storage = Storage::new();
    assert_eq!(storage.get_pending_unbind_at(1, NOW), None);
    storage.set_pending_unbind_at(1, NOW);
    assert_eq!(storage.get_pending_unbind_at(1, after(299)), Some(NOW));
    assert_eq!(storage.get_pending_unbind_at(1, after(300)), None);
    assert_eq!(storage.get_pending_unbind_at(2, NOW), None);
    storage.set_pending_unbind_at(1, after(100));
    assert_eq!(storage.get_pending_unbind_at(1, after(399)), Some(after(100)));
    storage.remove_pending_unbind(1);
    assert_eq!(storage.get_pending_unbind_at(1, after(100)), None);
    storage.set_pending_unbind(3);
    assert!(storage.get_pending_unbind(3).is_some());
}

#[test]
fn a_request_to_unbind_that_cannot_be_read_is_none() {
    let mut tables = Storage::new().into_tables();
    tables.pending_unbinds.push(PendingUnbindRow { qq: 1, created_at: "noon".to_string() });
    let storage = Storage::from_tables(tables).unwrap();
    assert_eq!(storage.get_pending_unbind_at(1, NOW), None);
}

#[test]
fn old_requests_to_unbind_are_pruned() {
    let mut storage = Storage::new();
    storage.set_pending_unbind_at(1, after(-301));
    storage.set_pending_unbind_at(2, after(-300));
    storage.set_pending_unbind_at(3, NOW);
    assert_eq!(storage.prune_expired_pending_unbinds_at(NOW), 1);
    let left: Vec<i64> = storage.tables().pending_unbinds.iter().map(|u| u.qq).collect();
    assert_eq!(left, vec![2, 3]);
    assert_eq!(storage.prune_expired_pending_unbinds(), 2);
}

#[test]
fn codes_are_six_digits() {
    assert_eq!(code_of(&vec![0, 9, 4, 2, 7, 1]), "094271");
    assert_eq!(code_of(&Vec::new()), "");
    let mut seen = Vec::new();
    for _ in 0..50 {
        let code = random_code();
        assert_eq!(code.len(), 6);
        assert!(code.chars().all(|c| c.is_ascii_digit()));
        seen.push(code);
    }
    seen.sort();
    seen.dedup();
    assert!(seen.len() > 1);
}

#[test]
fn a_request_to_bind_waits_two_minutes() {
    let mut storage = Storage::new();
    storage.add_pending_bind_at("123456", 1, 2, "peppy", NOW);
    let found = storage.get_pending_bind_at("123456", after(120)).unwrap();
    assert_eq!(found.code, "123456");
    assert_eq!((found.qq_user_id, found.group_id), (1, 2));
    assert_eq!(found.target_username, "peppy");
    assert_eq!(found.created_at, NOW);
    assert_eq!(found.expires_at, NOW.secs + 120);
    assert!(storage.get_pending_bind_at("123456", after(121)).is_none());
    assert!(storage.get_pending_bind_at("654321", NOW).is_none());
    assert!(storage.has_pending_bind_at(1, NOW.secs + 120));
    assert!(!storage.has_pending_bind_at(1, NOW.secs + 121));
    assert!(!storage.has_pending_bind_at(2, NOW.secs));
    storage.remove_pending_bind("123456");
    assert!(storage.get_pending_bind_at("123456", NOW).is_none());
}

#[test]
fn a_code_stands_for_one_request() {
    let mut storage = Storage::new();
    storage.add_pending_bind_at("123456", 1, 2, "first", NOW);
    storage.add_pending_bind_at("123456", 3, 4, "second", after(1));
    assert_eq!(storage.tables().pending_binds.len(), 1);
    assert_eq!(storage.get_pending_bind_at("123456", NOW).unwrap().target_username, "second");
}

#[test]
fn a_drawn_code_finds_its_request() {
    let mut storage = Storage::new();
    let code = storage.add_pending_bind(1, 2, "peppy");
    let found = storage.get_pending_bind(&code).unwrap();
    assert_eq!((found.code, found.target_username), (code, "peppy".to_string()));
    assert!(storage.has_pending_bind(1));
    assert!(!storage.has_pending_bind(2));
    assert_eq!(storage.prune_expired_pending_binds(), 0);
}

#[test]
fn expired_requests_to_bind_are_pruned() {
    let mut storage = Storage::new();
    storage.add_pending_bind_at("000001", 1, 2, "a", after(-121));
    storage.add_pending_bind_at("000002", 1, 2, "b", after(-120));
    assert_eq!(storage.prune_expired_pending_binds_at(NOW.secs), 1);
    assert!(storage.get_pending_bind_at("000002", NOW).is_some());
}

#[test]
fn a_start_that_cannot_be_read_is_shown_as_now() {
    let mut tables = Storage::new().into_tables();
    tables.pending_binds.push(PendingBindRow {
        code: "1".to_string(),
        qq_user_id: 1,
        group_id: 2,
        target_username: "x".to_string(),
        created_at: "noon".to_string(),
        expires_at: NOW.secs,
    });
    let storage = Storage::from_tables(tables).unwrap();
    assert_eq!(storage.get_pending_bind_at("1", NOW).unwrap().created_at, NOW);
}

#[test]
fn pruning_requests_to_unbind_is_not_seen() {
    let mut storage = Storage::new();
    storage.bind(1, 10, "ten").unwrap();
    for age in 0..400 {
        storage.set_pending_unbind_at(age, after(-age));
    }
    let before: Vec<Option<UtcTime>> =
        (0..400).map(|qq| storage.get_pending_unbind_at(qq, NOW)).collect();
    assert_eq!(storage.prune_expired_pending_unbinds_at(NOW), 99);
    assert_eq!(storage.prune_expired_pending_unbinds_at(NOW), 0);
    let pruned: Vec<Option<UtcTime>> =
        (0..400).map(|qq| storage.get_pending_unbind_at(qq, NOW)).collect();
    assert_eq!(pruned, before);
    assert_eq!(storage.get_binding(1), Some((10, "ten".to_string())));
}

#[test]
fn requests_to_unbind_are_dated_in_text() {
    let mut storage = Storage::new();
    storage.set_pending_unbind_at(1, NOW);
    storage.set_pending_unbind_at(2, after(1));
    storage.set_pending_unbind_at(1, after(2));
    storage.remove_pending_unbind(2);
    let rows = &storage.tables().pending_unbinds;
    assert_eq!(rows.len(), 1);
    assert_eq!(rows[0].created_at, "2023-11-14T22:13:22.250+00:00");
    assert_eq!(UtcTime::parse(&rows[0].created_at), Some(after(2)));
}
