use osubot_core::listeners::MatchListenerStartParams;
use osubot_core::storage::Storage;
use osubot_core::time::utc_now;

const GROUP_ID: i64 = 123_456_789;
const CREATOR_QQ: i64 = 987_654_321;
const MATCH_ID: i64 = 12_345_678;

fn now_ts() -> i64 {
    utc_now().secs
}

fn create_listener(
    storage: &mut Storage,
    match_id: i64,
    group_id: i64,
    creator_qq: i64,
    expires_at: i64,
) {
    storage
        .start_match_listener(MatchListenerStartParams {
            match_id,
            group_id: Some(group_id),
            user_id: None,
            notification_type: "group".to_string(),
            creator_qq,
            match_name: format!("MP #{match_id}"),
            expires_at,
            initial_last_event_id: None,
            initial_last_notified_event_id: None,
        })
        .expect("start match listener");
}

#[test]
fn persists_listener_across_storage_reopen() {
    let mut storage = Storage::new();
    let expires_at = now_ts() + 3600;

    create_listener(&mut storage, MATCH_ID, GROUP_ID, CREATOR_QQ, expires_at);
    let rows = storage.into_tables();

    let reopened = Storage::from_tables(rows).expect("reopen storage");

    let listeners = reopened.list_active_match_listeners_by_group(GROUP_ID);

    assert_eq!(listeners.len(), 1);
    assert_eq!(listeners[0].match_id, MATCH_ID);
    assert_eq!(listeners[0].group_id, Some(GROUP_ID));
    assert_eq!(listeners[0].match_name, format!("MP #{MATCH_ID}"));
}

#[test]
fn advance_cursor_round_trips_last_event_id() {
    let mut storage = Storage::new();
    let expires_at = now_ts() + 3600;
    create_listener(&mut storage, MATCH_ID, GROUP_ID, CREATOR_QQ, expires_at);

    assert!(storage.update_match_listener_progress(
        MATCH_ID,
        GROUP_ID,
        Some(100),
        None,
        None,
        false
    ));

    let listener = storage.get_match_listener(MATCH_ID, GROUP_ID).expect("listener exists");

    assert_eq!(listener.last_event_id, Some(100));
}

#[test]
fn detects_group_limit() {
    let mut storage = Storage::new();
    let expires_at = now_ts() + 3600;

    for offset in 0..3 {
        create_listener(
            &mut storage,
            MATCH_ID + offset,
            GROUP_ID,
            CREATOR_QQ + offset,
            expires_at,
        );
    }

    assert_eq!(storage.count_active_match_listeners_in_group(GROUP_ID), 3);
    assert!(storage.is_match_listener_group_limit_reached(GROUP_ID, 3));
    assert!(storage.is_match_listener_group_limit_reached(GROUP_ID, 4) == false);
}

#[test]
fn excludes_expired_listener_from_polling() {
    let mut storage = Storage::new();

    create_listener(&mut storage, MATCH_ID, GROUP_ID, CREATOR_QQ, now_ts() - 60);
    create_listener(&mut storage, MATCH_ID + 1, GROUP_ID, CREATOR_QQ + 1, now_ts() + 3600);

    let expired_rows = storage.expire_old_match_listeners();
    assert_eq!(expired_rows, 1);

    let polling_list = storage.list_active_match_listeners_due_for_polling();

    assert_eq!(polling_list.len(), 1);
    assert_eq!(polling_list[0].match_id, MATCH_ID + 1);
    assert!(polling_list[0].active);
    assert!(polling_list.iter().all(|listener| listener.expires_at >= now_ts()));
}

#[test]
fn stops_single_and_group_listeners() {
    let mut storage = Storage::new();
    let expires_at = now_ts() + 3600;

    create_listener(&mut storage, MATCH_ID, GROUP_ID, CREATOR_QQ, expires_at);
    create_listener(&mut storage, MATCH_ID + 1, GROUP_ID, CREATOR_QQ + 1, expires_at);
    create_listener(&mut storage, MATCH_ID + 2, GROUP_ID + 1, CREATOR_QQ + 2, expires_at);

    assert!(storage.stop_match_listener(MATCH_ID, GROUP_ID));
    assert_eq!(storage.list_active_match_listeners_by_group(GROUP_ID).len(), 1);

    assert_eq!(storage.stop_all_match_listeners_in_group(GROUP_ID), 1);
    assert!(storage.list_active_match_listeners_by_group(GROUP_ID).is_empty());
    assert_eq!(storage.list_active_match_listeners_by_group(GROUP_ID + 1).len(), 1);
}

#[test]
fn advances_notified_event_and_pending_game_marker() {
    let mut storage = Storage::new();
    let expires_at = now_ts() + 3600;
    create_listener(&mut storage, MATCH_ID, GROUP_ID, CREATOR_QQ, expires_at);

    assert!(storage.update_match_listener_progress(
        MATCH_ID,
        GROUP_ID,
        None,
        Some(88),
        Some(99),
        true
    ));

    let listener =
        storage.get_match_listener(MATCH_ID, GROUP_ID).expect("listener exists after updates");

    assert_eq!(listener.last_notified_event_id, Some(88));
    assert_eq!(listener.pending_game_event_id, Some(99));
    assert!(listener.last_notified_at.is_some());

    assert!(storage.update_match_listener_progress(MATCH_ID, GROUP_ID, None, None, None, false));

    let listener =
        storage.get_match_listener(MATCH_ID, GROUP_ID).expect("listener exists after clear");
    assert_eq!(listener.pending_game_event_id, None);
}

#[test]
fn restarting_inactive_listener_resets_cursor_and_pending_state() {
    let mut storage = Storage::new();
    let expires_at = now_ts() + 3600;
    create_listener(&mut storage, MATCH_ID, GROUP_ID, CREATOR_QQ, expires_at);

    assert!(storage.update_match_listener_progress(
        MATCH_ID,
        GROUP_ID,
        Some(100),
        Some(99),
        Some(101),
        true,
    ));
    assert!(storage.stop_match_listener(MATCH_ID, GROUP_ID));

    create_listener(&mut storage, MATCH_ID, GROUP_ID, CREATOR_QQ + 1, expires_at + 3600);

    let listener =
        storage.get_match_listener(MATCH_ID, GROUP_ID).expect("listener exists after restart");

    assert!(listener.active);
    assert_eq!(listener.creator_qq, CREATOR_QQ + 1);
    assert_eq!(listener.last_event_id, None);
    assert_eq!(listener.last_notified_event_id, None);
    assert_eq!(listener.pending_game_event_id, None);
    assert_eq!(listener.last_notified_at, None);
}

#[test]
fn restarting_expired_active_listener_resets_cursor_and_pending_state() {
    let mut storage = Storage::new();
    let expires_at = now_ts() - 60;
    create_listener(&mut storage, MATCH_ID, GROUP_ID, CREATOR_QQ, expires_at);

    assert!(storage.update_match_listener_progress(
        MATCH_ID,
        GROUP_ID,
        Some(100),
        Some(99),
        Some(101),
        true,
    ));

    create_listener(&mut storage, MATCH_ID, GROUP_ID, CREATOR_QQ + 1, now_ts() + 3600);

    let listener =
        storage.get_match_listener(MATCH_ID, GROUP_ID).expect("listener exists after restart");

    assert!(listener.active);
    assert_eq!(listener.creator_qq, CREATOR_QQ + 1);
    assert_eq!(listener.last_event_id, None);
    assert_eq!(listener.last_notified_event_id, None);
    assert_eq!(listener.pending_game_event_id, None);
    assert_eq!(listener.last_notified_at, None);
}

#[test]
fn test_start_match_listener_private() {
    let mut storage = Storage::new();
    let params = MatchListenerStartParams {
        match_id: 100,
        group_id: Some(0),
        user_id: Some(12345),
        notification_type: "private".to_string(),
        creator_qq: 12345,
        match_name: "Test Match".to_string(),
        expires_at: now_ts() + 3600,
        initial_last_event_id: None,
        initial_last_notified_event_id: None,
    };
    storage.start_match_listener(params).unwrap();
    let listeners = storage.list_active_match_listeners_due_for_polling();
    assert_eq!(listeners.len(), 1);
    assert_eq!(listeners[0].group_id, Some(0));
    assert_eq!(listeners[0].user_id, Some(12345));
    assert_eq!(listeners[0].notification_type, "private");
}

#[test]
fn update_match_listener_progress_updates_all_cursor_fields_atomically() {
    let mut storage = Storage::new();
    let expires_at = now_ts() + 3600;
    create_listener(&mut storage, MATCH_ID, GROUP_ID, CREATOR_QQ, expires_at);

    assert!(storage.update_match_listener_progress(
        MATCH_ID,
        GROUP_ID,
        Some(100),
        Some(99),
        Some(101),
        true
    ));

    let listener = storage
        .get_match_listener(MATCH_ID, GROUP_ID)
        .expect("listener exists after atomic update");

    assert_eq!(listener.last_event_id, Some(100));
    assert_eq!(listener.last_notified_event_id, Some(99));
    assert_eq!(listener.pending_game_event_id, Some(101));
    assert!(listener.last_notified_at.is_some());
}
