use osubot_core::rows::{BindingRow, PlayRow, UserIdRow};
use osubot_core::schema::{
    has_column, missing_columns, table_info_query, AddedColumn, InitialValue, OlderBinding,
    OlderListener, OlderTables,
};
use osubot_core::storage::Storage;
use osubot_core::types::{GameMode, StorageError};

fn names(list: &[&str]) -> Vec<String> {
    list.iter().map(|s| s.to_string()).collect()
}

#[test]
fn only_known_tables_are_looked_up() {
    assert_eq!(
        table_info_query("user_bindings"),
        Ok("PRAGMA table_info(\"user_bindings\")".to_string())
    );
    assert!(table_info_query("match_listeners").is_ok());
    let error = table_info_query("pending_binds").unwrap_err();
    assert_eq!(error, StorageError::TableNotAllowed("pending_binds".to_string()));
    assert_eq!(error.message(), "has_column: table 'pending_binds' is not in the allowlist");
}

#[test]
fn columns_are_found_by_their_exact_name() {
    let columns = names(&["qq", "default_mode"]);
    assert!(has_column(&columns, "default_mode"));
    assert!(!has_column(&columns, "Default_Mode"));
    assert!(!has_column(&columns, "mode"));
}

#[test]
fn missing_columns_are_added_in_order() {
    let none = names(&[]);
    assert_eq!(
        missing_columns(&none, &none),
        vec![
            AddedColumn::DefaultMode,
            AddedColumn::MatchName,
            AddedColumn::UserId,
            AddedColumn::NotificationType
        ]
    );
    let bindings = names(&["qq", "default_mode"]);
    let listeners = names(&["user_id", "match_name"]);
    assert_eq!(missing_columns(&bindings, &listeners), vec![AddedColumn::NotificationType]);
    let listeners = names(&["user_id", "match_name", "notification_type"]);
    assert!(missing_columns(&bindings, &listeners).is_empty());
    assert_eq!(AddedColumn::DefaultMode.table(), "user_bindings");
    assert_eq!(AddedColumn::NotificationType.table(), "match_listeners");
    assert_eq!(AddedColumn::UserId.name(), "user_id");
}

#[test]
fn columns_are_added_with_their_initial_values() {
    assert_eq!(AddedColumn::DefaultMode.initial(), InitialValue::Zero);
    assert_eq!(AddedColumn::MatchName.initial(), InitialValue::Text(""));
    assert_eq!(AddedColumn::UserId.initial(), InitialValue::Nothing);
    assert_eq!(AddedColumn::NotificationType.initial(), InitialValue::Text("group"));
    let statements: Vec<String> = missing_columns(&names(&[]), &names(&[]))
        .into_iter()
        .map(|column| column.add_statement())
        .collect();
    assert_eq!(
        statements,
        vec![
            "ALTER TABLE user_bindings ADD COLUMN default_mode INTEGER NOT NULL DEFAULT 0",
            "ALTER TABLE match_listeners ADD COLUMN match_name TEXT NOT NULL DEFAULT ''",
            "ALTER TABLE match_listeners ADD COLUMN user_id INTEGER",
            "ALTER TABLE match_listeners ADD COLUMN notification_type TEXT NOT NULL DEFAULT 'group'",
        ]
    );
}

fn older_rows() -> OlderTables {
    let empty = Storage::new().into_tables();
    OlderTables {
        bindings: vec![
            OlderBinding {
                qq: 1,
                user_id: 10,
                current_username: "ten".to_string(),
                default_mode: None,
            },
            OlderBinding {
                qq: 2,
                user_id: 20,
                current_username: "twenty".to_string(),
                default_mode: Some(3),
            },
        ],
        user_ids: vec![UserIdRow { username: "Ten".to_string(), user_id: 10 }],
        history: empty.history,
        plays: vec![PlayRow { user_id: 10, mode: 0, played_at: 100 }],
        next_updates: empty.next_updates,
        last_updates: empty.last_updates,
        pending_unbinds: empty.pending_unbinds,
        pending_binds: empty.pending_binds,
        listeners: vec![
            OlderListener {
                match_id: 7,
                group_id: 8,
                creator_qq: 1,
                match_name: None,
                last_event_id: Some(3),
                last_notified_event_id: None,
                pending_game_event_id: None,
                created_at: "2023-11-14T22:13:20+00:00".to_string(),
                expires_at: 5,
                active: 1,
                last_notified_at: Some("2023-11-14T22:13:21+00:00".to_string()),
                user_id: None,
                notification_type: None,
            },
            OlderListener {
                match_id: 7,
                group_id: 9,
                creator_qq: 1,
                match_name: Some("finals".to_string()),
                last_event_id: None,
                last_notified_event_id: None,
                pending_game_event_id: None,
                created_at: "2023-11-14T22:13:20+00:00".to_string(),
                expires_at: 5,
                active: 0,
                last_notified_at: None,
                user_id: Some(Some(4)),
                notification_type: Some("private".to_string()),
            },
        ],
    }
}

#[test]
fn older_rows_read_as_their_columns_initial_values() {
    let storage = Storage::from_tables(older_rows().complete()).unwrap();
    assert_eq!(storage.get_default_mode(1), Ok(Some(GameMode::Osu)));
    assert_eq!(storage.get_default_mode(2), Ok(Some(GameMode::Mania)));
    assert_eq!(storage.get_binding(1), Some((10, "ten".to_string())));
    assert!(storage.has_play_since(10, GameMode::Osu, 100));
    assert_eq!(storage.get_user_id("tEN"), Some(10));
    assert_eq!(storage.tables().user_ids, older_rows().user_ids);
    assert_eq!(storage.get_users_without_ids(), vec!["twenty".to_string()]);
    let listener = storage.get_match_listener(7, 8).unwrap();
    assert_eq!(listener.match_name, "");
    assert_eq!(listener.user_id, None);
    assert_eq!(listener.notification_type, "group");
    assert_eq!(listener.last_event_id, Some(3));
    assert!(listener.last_notified_at.is_some());
    let listener = storage.get_match_listener(7, 9).unwrap();
    assert_eq!(listener.match_name, "finals");
    assert_eq!(listener.user_id, Some(4));
    assert_eq!(listener.notification_type, "private");
    assert_eq!(storage.tables().bindings.len(), 2);
    assert_eq!(storage.tables().listeners.len(), 2);
}

#[test]
fn completing_rows_again_changes_none() {
    let once = older_rows().complete();
    let mut again = older_rows();
    again.bindings = once
        .bindings
        .iter()
        .map(|b: &BindingRow| OlderBinding {
            qq: b.qq,
            user_id: b.user_id,
            current_username: b.current_username.clone(),
            default_mode: Some(b.default_mode),
        })
        .collect();
    for (older, full) in again.listeners.iter_mut().zip(&once.listeners) {
        older.match_name = Some(full.match_name.clone());
        older.user_id = Some(full.user_id);
        older.notification_type = Some(full.notification_type.clone());
    }
    assert_eq!(again.complete(), once);
    let mut bindings = names(&["qq", "user_id"]);
    let mut listeners = names(&["match_id", "group_id", "match_name"]);
    for column in missing_columns(&bindings, &listeners) {
        let table =
            if column.table() == "user_bindings" { &mut bindings } else { &mut listeners };
        table.push(column.name().to_string());
    }
    assert!(missing_columns(&bindings, &listeners).is_empty());
}
