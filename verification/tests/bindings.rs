use osubot_core::rows::{BindingRow, Tables, UserIdRow};
use osubot_core::storage::Storage;
use osubot_core::time::utc_now;
use osubot_core::types::{GameMode, StorageError};

fn no_rows() -> Tables {
    Storage::new().into_tables()
}

#[test]
fn a_player_of_another_account_cannot_be_bound() {
    let mut storage = Storage::new();
    assert_eq!(storage.bind(1, 10, "ten"), Ok(()));
    assert_eq!(storage.bind(2, 10, "Ten"), Err(1));
    assert_eq!(storage.get_binding(2), None);
    assert_eq!(storage.get_binding(1), Some((10, "ten".to_string())));
    assert_eq!(storage.bind(1, 10, "TEN"), Ok(()));
    assert_eq!(storage.get_binding(1), Some((10, "TEN".to_string())));
    assert_eq!(storage.bind(1, 11, "eleven"), Ok(()));
    assert_eq!(storage.bind(2, 10, "ten"), Ok(()));
    assert_eq!(
        storage.get_all_user_bindings(),
        vec![(1, 11, "eleven".to_string()), (2, 10, "ten".to_string())]
    );
}

#[test]
fn binding_again_resets_the_mode() {
    let mut storage = Storage::new();
    storage.bind(1, 10, "ten").unwrap();
    assert!(storage.set_default_mode(1, GameMode::Mania));
    storage.bind(1, 10, "ten").unwrap();
    assert_eq!(storage.get_default_mode(1), Ok(Some(GameMode::Osu)));
}

#[test]
fn bindings_are_in_the_order_of_the_accounts() {
    let mut storage = Storage::new();
    for qq in [5, -3, 9, 0, 7] {
        storage.bind(qq, 100 + qq, "x").unwrap();
    }
    let order: Vec<i64> = storage.get_all_user_bindings().iter().map(|b| b.0).collect();
    assert_eq!(order, vec![-3, 0, 5, 7, 9]);
}

#[test]
fn a_mode_that_is_none_is_an_error() {
    let mut tables = no_rows();
    tables.bindings.push(BindingRow {
        qq: 1,
        user_id: 10,
        current_username: "ten".to_string(),
        default_mode: 7,
    });
    let storage = Storage::from_tables(tables).unwrap();
    let error = storage.get_default_mode(1).unwrap_err();
    assert_eq!(error, StorageError::InvalidDefaultMode);
    assert_eq!(error.message(), "invalid default_mode value in database");
}

#[test]
fn unbinding_stops_the_updates_of_a_player_without_account() {
    let mut tables = no_rows();
    for (qq, user_id) in [(1, 10), (2, 10), (3, 30)] {
        tables.bindings.push(BindingRow {
            qq,
            user_id,
            current_username: "x".to_string(),
            default_mode: 0,
        });
    }
    let mut storage = Storage::from_tables(tables).unwrap();
    let now = utc_now();
    storage.set_next_update(10, GameMode::Osu, now);
    storage.set_next_update(30, GameMode::Osu, now);
    storage.unbind(1);
    assert!(storage.get_next_update(10, GameMode::Osu).is_some());
    storage.unbind(2);
    assert_eq!(storage.get_next_update(10, GameMode::Osu), None);
    assert!(storage.get_next_update(30, GameMode::Osu).is_some());
    storage.unbind(4);
    assert_eq!(storage.get_all_user_bindings().len(), 1);
}

#[test]
fn numbers_are_known_in_any_ascii_case() {
    let mut storage = Storage::new();
    storage.set_user_id("PePpY", 2);
    assert_eq!(storage.get_user_id("peppy"), Some(2));
    assert_eq!(storage.get_user_id("PEPPY"), Some(2));
    storage.set_user_id("peppy", 3);
    assert_eq!(storage.get_user_id("PePpY"), Some(3));
    assert_eq!(storage.get_user_id("pepp"), None);
    storage.set_user_id("\u{c4}B", 4);
    assert_eq!(storage.get_user_id("\u{c4}b"), Some(4));
    assert_eq!(storage.get_user_id("\u{e4}b"), None);
    assert_eq!(storage.tables().user_ids.len(), 2);
    assert_eq!(storage.tables().user_ids[0].username, "peppy");
}

#[test]
fn bound_players_without_a_number_are_listed() {
    let mut storage = Storage::new();
    storage.bind(2, 20, "Twenty").unwrap();
    storage.bind(1, 10, "Ten").unwrap();
    storage.set_user_id("TEN", 10);
    assert_eq!(storage.get_users_without_ids(), vec!["Twenty".to_string()]);
    storage.set_user_id("twenty", 20);
    assert!(storage.get_users_without_ids().is_empty());
}

#[test]
fn renaming_a_player_settles() {
    let mut storage = Storage::new();
    storage.bind(1, 10, "Old").unwrap();
    assert_eq!(storage.update_binding_username_by_user_id(10, "New"), 1);
    assert_eq!(storage.update_binding_username_by_user_id(10, "New"), 0);
    assert_eq!(storage.update_binding_username_by_user_id(99, "New"), 0);
    assert_eq!(storage.get_binding(1), Some((10, "New".to_string())));
    assert_eq!(storage.update_binding_username_by_user_id(10, "new"), 1);
}

#[test]
fn the_first_account_of_a_name_is_found() {
    let mut storage = Storage::new();
    storage.bind(7, 70, "same").unwrap();
    storage.bind(3, 30, "SAME").unwrap();
    assert_eq!(storage.find_qq_by_username("Same"), Some(3));
}

#[test]
fn rows_that_break_a_key_are_refused() {
    let row = |qq: i64| BindingRow {
        qq,
        user_id: qq,
        current_username: "x".to_string(),
        default_mode: 0,
    };
    let mut tables = no_rows();
    tables.bindings = vec![row(2), row(1)];
    let error = Storage::from_tables(tables).err().unwrap();
    assert_eq!(error, StorageError::BrokenConstraint);
    assert_eq!(error.message(), "rows break a constraint of their table");

    let mut tables = no_rows();
    tables.user_ids = vec![
        UserIdRow { username: "a".to_string(), user_id: 1 },
        UserIdRow { username: "a".to_string(), user_id: 2 },
    ];
    assert!(Storage::from_tables(tables).is_err());

    let mut tables = no_rows();
    tables.bindings = vec![row(1), row(2)];
    tables.user_ids = vec![
        UserIdRow { username: "a".to_string(), user_id: 1 },
        UserIdRow { username: "b".to_string(), user_id: 1 },
    ];
    let storage = Storage::from_tables(tables.clone()).unwrap();
    assert_eq!(*storage.tables(), tables);
    assert_eq!(storage.into_tables(), tables);
}

#[test]
fn renaming_counts_the_accounts_whose_name_differs() {
    let mut tables = no_rows();
    for (qq, name) in [(1, "New"), (2, "Old"), (3, "new"), (4, "New")] {
        tables.bindings.push(BindingRow {
            qq,
            user_id: if qq == 4 { 40 } else { 10 },
            current_username: name.to_string(),
            default_mode: 2,
        });
    }
    let mut storage = Storage::from_tables(tables).unwrap();
    assert_eq!(storage.update_binding_username_by_user_id(10, "New"), 2);
    for qq in [1, 2, 3] {
        assert_eq!(storage.get_binding(qq), Some((10, "New".to_string())));
        assert_eq!(storage.get_default_mode(qq), Ok(Some(GameMode::Catch)));
    }
    assert_eq!(storage.update_binding_username_by_user_id(10, "New"), 0);
    assert_eq!(storage.get_binding(4), Some((40, "New".to_string())));
}

#[test]
fn numbering_every_listed_name_leaves_none() {
    let mut storage = Storage::new();
    for (qq, name) in [(1, "One"), (2, "TWO"), (3, "two"), (4, "Four")] {
        storage.bind(qq, 10 * qq, name).unwrap();
    }
    storage.set_user_id("FOUR", 40);
    let listed = storage.get_users_without_ids();
    assert_eq!(listed, vec!["One".to_string(), "TWO".to_string(), "two".to_string()]);
    for (name, id) in listed.iter().zip([7, 8, 9]) {
        storage.set_user_id(name, id);
    }
    assert!(storage.get_users_without_ids().is_empty());
    assert_eq!(storage.get_user_id("Two"), Some(9));
}

#[test]
fn a_name_that_is_not_in_lower_case_is_kept_and_found() {
    let mut tables = no_rows();
    tables.user_ids = vec![UserIdRow { username: "Peppy".to_string(), user_id: 2 }];
    let mut storage = Storage::from_tables(tables.clone()).unwrap();
    assert_eq!(*storage.tables(), tables);
    for name in ["Peppy", "peppy", "PEPPY"] {
        assert_eq!(storage.get_user_id(name), Some(2));
    }
    storage.bind(1, 2, "pEPPY").unwrap();
    assert!(storage.get_users_without_ids().is_empty());
    storage.set_user_id("other", 3);
    assert_eq!(storage.get_user_id("Peppy"), Some(2));
    assert_eq!(storage.get_user_id("Other"), Some(3));
    storage.set_user_id("PEPPY", 4);
    assert_eq!(storage.tables().user_ids.len(), 3);
    assert_eq!(storage.tables().user_ids[0].username, "Peppy");
    assert_eq!(storage.tables().user_ids[2].username, "peppy");
    assert_eq!(storage.get_user_id("peppy"), Some(2));
}
