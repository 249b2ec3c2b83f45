use osubot_core::listeners::{row_to_match_listener, MatchListenerStartParams};
use osubot_core::rows::ListenerRow;
use osubot_core::storage::Storage;
use osubot_core::time::UtcTime;
use osubot_core::types::{NotificationChannel, StorageError};

const NOW: UtcTime = UtcTime { secs: 1_700_000_000, nanos: 250_000_000 };

fn after(seconds: i64) -> UtcTime {
    NOW.checked_add(seconds).unwrap()
}

fn params(match_id: i64, group_id: i64, expires_at: i64) -> MatchListenerStartParams {
    MatchListenerStartParams {
        match_id,
        group_id: Some(group_id),
        user_id: None,
        notification_type: "group".to_string(),
        creator_qq: 1,
        match_name: format!("MP #{match_id}"),
        expires_at,
        initial_last_event_id: Some(5),
        initial_last_notified_event_id: Some(4),
    }
}

#[test]
fn channels_are_told_by_their_text() {
    assert_eq!(NotificationChannel::try_from_str("private"), NotificationChannel::Private);
    for other in ["group", "", "Private", "private "] {
        assert_eq!(NotificationChannel::try_from_str(other), NotificationChannel::Group);
    }
}

#[test]
fn a_listener_needs_a_group() {
    let mut storage = Storage::new();
    let mut p = params(1, 0, NOW.secs);
    p.group_id = None;
    let error = storage.start_match_listener_at(p.clone(), NOW).unwrap_err();
    assert_eq!(error, StorageError::MissingGroup);
    assert_eq!(error.message(), "NOT NULL constraint failed: match_listeners.group_id");
    assert_eq!(storage.start_match_listener(p), Err(StorageError::MissingGroup));
    assert!(storage.tables().listeners.is_empty());
}

#[test]
fn a_started_listener_is_shown_as_given() {
    let mut storage = Storage::new();
    let mut p = params(1, 2, NOW.secs + 60);
    p.user_id = Some(9);
    p.notification_type = "private".to_string();
    storage.start_match_listener_at(p, NOW).unwrap();
    let l = storage.get_match_listener(1, 2).unwrap();
    assert_eq!((l.match_id, l.group_id, l.user_id), (1, Some(2), Some(9)));
    assert_eq!(l.notification_channel(), NotificationChannel::Private);
    assert_eq!((l.creator_qq, l.match_name.as_str()), (1, "MP #1"));
    assert_eq!((l.last_event_id, l.last_notified_event_id), (Some(5), Some(4)));
    assert_eq!((l.pending_game_event_id, l.last_notified_at), (None, None));
    assert_eq!((l.created_at, l.expires_at, l.active), (NOW, NOW.secs + 60, true));
    assert_eq!(storage.get_match_listener(2, 1), None);
}

#[test]
fn a_live_listener_keeps_its_progress_when_started_again() {
    let mut storage = Storage::new();
    storage.start_match_listener_at(params(1, 2, NOW.secs + 60), NOW).unwrap();
    assert!(storage.update_match_listener_progress_at(
        1,
        2,
        Some(10),
        Some(9),
        Some(11),
        Some(after(5))
    ));
    let mut again = params(1, 2, NOW.secs + 999);
    again.creator_qq = 77;
    again.match_name = "renamed".to_string();
    storage.start_match_listener_at(again, after(60)).unwrap();
    let l = storage.get_match_listener(1, 2).unwrap();
    assert_eq!((l.last_event_id, l.last_notified_event_id), (Some(10), Some(9)));
    assert_eq!((l.pending_game_event_id, l.last_notified_at), (Some(11), Some(after(5))));
    assert_eq!((l.created_at, l.expires_at), (NOW, NOW.secs + 999));
    assert_eq!((l.creator_qq, l.match_name.as_str()), (77, "renamed"));
    storage.start_match_listener_at(params(1, 2, NOW.secs + 9_999), after(1_000)).unwrap();
    let l = storage.get_match_listener(1, 2).unwrap();
    assert_eq!((l.last_event_id, l.last_notified_event_id), (Some(5), Some(4)));
    assert_eq!((l.pending_game_event_id, l.last_notified_at), (None, None));
    assert_eq!(l.created_at, after(1_000));
    assert_eq!(storage.tables().listeners.len(), 1);
}

#[test]
fn untouched_progress_keeps_when_it_last_told() {
    let mut storage = Storage::new();
    storage.start_match_listener_at(params(1, 2, NOW.secs + 60), NOW).unwrap();
    storage.update_match_listener_progress_at(1, 2, None, None, None, Some(after(5)));
    storage.update_match_listener_progress(1, 2, Some(6), None, None, false);
    let l = storage.get_match_listener(1, 2).unwrap();
    assert_eq!((l.last_event_id, l.last_notified_at), (Some(6), Some(after(5))));
    assert!(!storage.update_match_listener_progress(1, 3, None, None, None, true));
}

#[test]
fn a_group_lists_its_live_listeners_by_start() {
    let mut storage = Storage::new();
    let end = NOW.secs + 100;
    storage.start_match_listener_at(params(8, 2, end), after(1)).unwrap();
    storage.start_match_listener_at(params(7, 2, end), after(1)).unwrap();
    storage.start_match_listener_at(params(9, 2, end), NOW).unwrap();
    storage.start_match_listener_at(params(6, 3, end), NOW).unwrap();
    storage.start_match_listener_at(params(5, 2, end - 1), NOW).unwrap();
    let list = |s: &Storage, at: UtcTime| -> Vec<i64> {
        s.list_active_match_listeners_by_group_at(2, at).iter().map(|l| l.match_id).collect()
    };
    assert_eq!(list(&storage, after(99)), vec![5, 9, 7, 8]);
    assert_eq!(list(&storage, after(100)), vec![9, 7, 8]);
    assert!(list(&storage, after(101)).is_empty());
    assert_eq!(storage.count_active_match_listeners_in_group_at(2, end), 3);
    assert!(storage.is_match_listener_group_limit_reached_at(2, 3, end));
    assert!(!storage.is_match_listener_group_limit_reached_at(2, 4, end));
}

#[test]
fn polling_begins_with_who_was_silent_longest() {
    let mut storage = Storage::new();
    let end = NOW.secs + 100;
    storage.start_match_listener_at(params(1, 2, end), NOW).unwrap();
    storage.start_match_listener_at(params(2, 1, end), after(1)).unwrap();
    storage.start_match_listener_at(params(1, 1, end), after(1)).unwrap();
    storage.start_match_listener_at(params(3, 3, end), after(2)).unwrap();
    storage.update_match_listener_progress_at(1, 2, None, None, None, Some(after(9)));
    let order: Vec<(i64, Option<i64>)> = storage
        .list_active_match_listeners_due_for_polling_at(NOW)
        .iter()
        .map(|l| (l.match_id, l.group_id))
        .collect();
    assert_eq!(order, vec![(1, Some(1)), (2, Some(1)), (3, Some(3)), (1, Some(2))]);
}

#[test]
fn private_listeners_of_a_user_are_counted() {
    let mut storage = Storage::new();
    for (match_id, channel, user) in
        [(1, "private", Some(9)), (2, "group", Some(9)), (3, "private", None), (4, "private", Some(8))]
    {
        let mut p = params(match_id, -9, i64::MAX);
        p.user_id = user;
        p.notification_type = channel.to_string();
        storage.start_match_listener_at(p, NOW).unwrap();
    }
    assert_eq!(storage.count_active_match_listeners_for_user_at(9, NOW.secs), 1);
    assert_eq!(storage.count_active_match_listeners_for_user(9), 1);
    assert!(storage.stop_match_listener(1, -9));
    assert!(!storage.stop_match_listener(1, -9));
    assert_eq!(storage.count_active_match_listeners_for_user_at(9, NOW.secs), 0);
}

#[test]
fn expiring_stops_what_is_past_only() {
    let mut storage = Storage::new();
    storage.start_match_listener_at(params(1, 2, NOW.secs - 1), NOW).unwrap();
    storage.start_match_listener_at(params(2, 2, NOW.secs), NOW).unwrap();
    assert_eq!(storage.expire_old_match_listeners_at(NOW.secs), 1);
    assert_eq!(storage.expire_old_match_listeners_at(NOW.secs), 0);
    assert!(!storage.get_match_listener(1, 2).unwrap().active);
    assert!(storage.get_match_listener(2, 2).unwrap().active);
}

#[test]
fn instants_that_cannot_be_read_are_shown_as_now() {
    let row = ListenerRow {
        match_id: 1,
        group_id: 2,
        creator_qq: 3,
        match_name: "m".to_string(),
        last_event_id: None,
        last_notified_event_id: None,
        pending_game_event_id: None,
        created_at: "noon".to_string(),
        expires_at: 0,
        active: 2,
        last_notified_at: Some("one".to_string()),
        user_id: None,
        notification_type: "group".to_string(),
    };
    let l = row_to_match_listener(&row, NOW);
    assert_eq!((l.created_at, l.last_notified_at, l.active), (NOW, Some(NOW), true));
    let mut tables = Storage::new().into_tables();
    tables.listeners.push(row);
    let storage = Storage::from_tables(tables).unwrap();
    assert_eq!(storage.get_match_listener_at(1, 2, NOW), Some(l));
    assert!(storage.list_active_match_listeners_by_group_at(2, UtcTime { secs: 0, nanos: 0 }).is_empty());
}
