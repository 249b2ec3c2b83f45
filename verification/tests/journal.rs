use osubot_core::journal::{changes, Changes, TableChanges};
use osubot_core::rows::Tables;
use osubot_core::storage::Storage;
use osubot_core::time::UtcTime;
use osubot_core::types::GameMode;

const NOW: UtcTime = UtcTime { secs: 1_700_000_000, nanos: 0 };

fn places(deleted: &[usize], inserted: &[usize]) -> TableChanges {
    TableChanges { deleted: deleted.to_vec(), inserted: inserted.to_vec() }
}

fn nothing() -> Changes {
    let none = || places(&[], &[]);
    Changes {
        bindings: none(),
        user_ids: none(),
        history: none(),
        plays: none(),
        next_updates: none(),
        last_updates: none(),
        pending_unbinds: none(),
        pending_binds: none(),
        listeners: none(),
    }
}

/// What an operation changes, and the tables before and after it.
fn changed(storage: &mut Storage, operation: impl FnOnce(&mut Storage)) -> (Tables, Changes, Tables) {
    let before = storage.tables().clone();
    operation(storage);
    let after = storage.tables().clone();
    let c = changes(&before, &after);
    (before, c, after)
}

#[test]
fn an_operation_without_effect_changes_nothing() {
    let mut storage = Storage::new();
    storage.bind(1, 10, "ten").unwrap();
    let (before, c, after) = changed(&mut storage, |s| {
        assert_eq!(s.bind(2, 10, "ten"), Err(1));
    });
    assert_eq!(c, nothing());
    assert_eq!(before, after);
}

#[test]
fn changes_name_the_rows_that_go_and_come() {
    let mut storage = Storage::new();
    for qq in [1, 3, 5] {
        storage.bind(qq, 10 * qq, "x").unwrap();
    }
    let (_, c, _) = changed(&mut storage, |s| s.bind(2, 20, "y").unwrap());
    assert_eq!(c, Changes { bindings: places(&[], &[1]), ..nothing() });
    let (_, c, _) = changed(&mut storage, |s| s.update_binding_username(3, "z"));
    assert_eq!(c, Changes { bindings: places(&[2], &[2]), ..nothing() });
    storage.set_next_update(50, GameMode::Osu, NOW);
    storage.set_next_update(60, GameMode::Osu, NOW);
    let (_, c, _) = changed(&mut storage, |s| s.unbind(5));
    assert_eq!(
        c,
        Changes { bindings: places(&[3], &[]), next_updates: places(&[0], &[]), ..nothing() }
    );
    let later = NOW.checked_add(9).unwrap();
    storage.set_next_update(70, GameMode::Osu, NOW);
    let (before, c, after) =
        changed(&mut storage, |s| s.set_next_update(60, GameMode::Osu, later));
    assert_eq!(c.next_updates, places(&[0], &[1]));
    assert_eq!(before.next_updates[0].next_update, NOW.secs);
    assert_eq!(after.next_updates[1].next_update, later.secs);
    let (_, c, _) = changed(&mut storage, |s| {
        s.save_play_records(1, GameMode::Osu, &[5, 3]);
        s.set_pending_unbind_at(1, NOW);
        s.add_pending_bind_at("1", 1, 2, "x", NOW);
        s.set_last_update(1, GameMode::Osu, NOW);
        s.set_user_id("x", 1);
    });
    assert_eq!(c.plays, places(&[], &[0, 1]));
    assert_eq!(c.pending_unbinds, places(&[], &[0]));
    assert_eq!(c.pending_binds, places(&[], &[0]));
    assert_eq!(c.last_updates, places(&[], &[0]));
    assert_eq!(c.user_ids, places(&[], &[0]));
}
