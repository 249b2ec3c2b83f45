//! Holds the storage rules against a real database that runs the statements they stand for.
use osubot_core::listeners::MatchListenerStartParams;
use osubot_core::storage::Storage;
use osubot_core::time::UtcTime;
use osubot_core::types::{GameMode, Real, UserStats};
use turso::{Connection, Value};

const NOW: UtcTime = UtcTime { secs: 1_700_000_000, nanos: 250_000_000 };

const SCHEMA: &str = "CREATE TABLE user_bindings (qq INTEGER PRIMARY KEY, user_id INTEGER NOT NULL,
    current_username TEXT NOT NULL, default_mode INTEGER NOT NULL DEFAULT 0);
CREATE TABLE user_stats_history (id INTEGER PRIMARY KEY AUTOINCREMENT, user_id INTEGER NOT NULL,
    mode INTEGER NOT NULL, recorded_at TEXT, pp REAL, rank INTEGER,
    UNIQUE(user_id, mode, recorded_at));
CREATE TABLE user_play_records (id INTEGER PRIMARY KEY AUTOINCREMENT, user_id INTEGER NOT NULL,
    mode INTEGER NOT NULL, played_at INTEGER NOT NULL, UNIQUE(user_id, mode, played_at));
CREATE TABLE user_next_update (user_id INTEGER NOT NULL, mode INTEGER NOT NULL,
    next_update INTEGER NOT NULL, PRIMARY KEY(user_id, mode));
CREATE TABLE match_listeners (match_id INTEGER NOT NULL, group_id INTEGER NOT NULL,
    last_event_id INTEGER, pending_game_event_id INTEGER, created_at TEXT NOT NULL,
    expires_at INTEGER NOT NULL, active INTEGER NOT NULL DEFAULT 1, last_notified_at TEXT,
    PRIMARY KEY (match_id, group_id));
CREATE TABLE osu_user_ids (username TEXT PRIMARY KEY, user_id INTEGER NOT NULL);";

fn with_database<T, F, Fut>(work: F) -> T
where
    F: FnOnce(Connection) -> Fut,
    Fut: std::future::Future<Output = T>,
{
    let runtime = tokio::runtime::Builder::new_current_thread().enable_all().build().unwrap();
    runtime.block_on(async {
        let db = turso::Builder::new_local(":memory:").build().await.unwrap();
        let conn = db.connect().unwrap();
        conn.execute_batch(SCHEMA).await.unwrap();
        work(conn).await
    })
}

async fn select(conn: &Connection, sql: &str, args: Vec<Value>) -> Vec<Vec<Value>> {
    let mut rows = conn.query(sql, args).await.unwrap();
    let mut found = Vec::new();
    while let Some(row) = rows.next().await.unwrap() {
        let mut values = Vec::new();
        for i in 0..row.column_count() {
            values.push(row.get_value(i).unwrap());
        }
        found.push(values);
    }
    found
}

fn number(n: i64) -> Value {
    Value::Integer(n)
}

fn text(s: &str) -> Value {
    Value::Text(s.to_string())
}

fn stats(pp: f64, rank: i64) -> UserStats {
    UserStats {
        user_id: 5,
        username: "five".to_string(),
        country_code: "XX".to_string(),
        pp: Real { bits: pp.to_bits() },
        rank,
        country_rank: 1,
        ranked_score: 1,
        accuracy: Real { bits: 0 },
        playcount: 1,
        hits: 1,
        playtime: 1,
        rank_change: None,
        country_rank_change: None,
        cover_url: None,
    }
}

#[test]
fn database_lowers_ascii_letters_only() {
    with_database(|conn| async move {
        for name in ["PePpY", "\u{c4}B\u{130}", "a z_[]", ""] {
            let found = select(&conn, "SELECT LOWER(?1)", vec![text(name)]).await;
            let mut storage = Storage::new();
            storage.set_user_id(name, 1);
            assert_eq!(found[0][0], text(&storage.tables().user_ids[0].username));
        }
    });
}

#[test]
fn database_finds_the_same_numbers_and_names() {
    with_database(|conn| async move {
        let mut storage = Storage::new();
        for (name, id) in [("Foo", 1), ("BAR", 2), ("foo", 3), ("\u{c4}", 4)] {
            conn.execute(
                "INSERT OR REPLACE INTO osu_user_ids (username, user_id) VALUES (LOWER(?1), ?2)",
                vec![text(name), number(id)],
            )
            .await
            .unwrap();
            storage.set_user_id(name, id);
        }
        for name in ["FOO", "bar", "\u{c4}", "\u{e4}", "nobody"] {
            let found = select(
                &conn,
                "SELECT user_id FROM osu_user_ids WHERE LOWER(username) = LOWER(?1)",
                vec![text(name)],
            )
            .await;
            let known = found.first().map(|row| *row[0].as_integer().unwrap());
            assert_eq!(storage.get_user_id(name), known);
        }
    });
}

#[test]
fn database_keeps_the_same_order_of_due_players() {
    with_database(|conn| async move {
        let mut storage = Storage::new();
        for (qq, user) in [(9, 90), (2, 20), (5, 50)] {
            conn.execute(
                "INSERT OR REPLACE INTO user_bindings (qq, user_id, current_username)
                 VALUES (?1, ?2, 'x')",
                vec![number(qq), number(user)],
            )
            .await
            .unwrap();
            storage.bind(qq, user, "x").unwrap();
        }
        for (user, mode, at) in
            [(7, 1, 30), (3, 0, 10), (20, 3, 20), (7, 0, 99), (3, 0, 15), (8, 2, 5)]
        {
            conn.execute(
                "INSERT OR REPLACE INTO user_next_update (user_id, mode, next_update)
                 VALUES (?1, ?2, ?3)",
                vec![number(user), number(mode), number(at)],
            )
            .await
            .unwrap();
            let mode = GameMode::from_code(mode as i32).unwrap();
            storage.set_next_update(user, mode, UtcTime { secs: at, nanos: 0 });
        }
        let found = select(
            &conn,
            "SELECT user_id, mode FROM user_next_update WHERE next_update <= ?1
             UNION ALL
             SELECT b.user_id AS user_id, 0 AS mode FROM user_bindings b
             WHERE NOT EXISTS (SELECT 1 FROM user_next_update n WHERE n.user_id = b.user_id)",
            vec![number(30)],
        )
        .await;
        let due: Vec<Vec<Value>> = storage
            .get_due_users_at(30)
            .iter()
            .map(|(user, mode)| vec![number(*user), number(mode.to_code() as i64)])
            .collect();
        assert_eq!(found, due);
    });
}

#[test]
fn database_keeps_the_same_snapshots() {
    with_database(|conn| async move {
        let mut storage = Storage::new();
        let mut at = NOW;
        for (step, pp, rank) in
            [(0, 1.5, 1), (0, 2.5, 2), (-3_600, f64::NAN, 3), (7_200, -0.0, 4), (-1_800, 9.0, 5)]
        {
            at = at.checked_add(step).unwrap();
            conn.execute(
                "INSERT OR IGNORE INTO user_stats_history (user_id, mode, recorded_at, pp, rank)
                 VALUES (5, 0, ?1, ?2, ?3)",
                vec![text(&at.to_rfc3339()), Value::Real(pp), number(rank)],
            )
            .await
            .unwrap();
            storage.save_stats_at(5, GameMode::Osu, &stats(pp, rank), at);
        }
        let latest = select(
            &conn,
            "SELECT rank FROM user_stats_history WHERE user_id = 5 AND mode = 0
             ORDER BY recorded_at DESC LIMIT 1",
            vec![],
        )
        .await;
        let kept = storage.get_latest_snapshot(5, GameMode::Osu).unwrap();
        assert_eq!(latest[0][0], number(kept.rank.unwrap()));
        let found = select(
            &conn,
            "SELECT recorded_at, pp, rank FROM user_stats_history
             WHERE user_id = 5 AND mode = 0 AND recorded_at >= ?1 ORDER BY recorded_at ASC",
            vec![text(&NOW.back_hours(1).unwrap().to_rfc3339())],
        )
        .await;
        let same: Vec<Vec<Value>> = storage
            .get_snapshots_within_hours_at(5, GameMode::Osu, 1, NOW)
            .unwrap()
            .iter()
            .map(|(t, s)| {
                let pp = match s.pp {
                    Some(pp) => Value::Real(f64::from_bits(pp.bits)),
                    None => Value::Null,
                };
                vec![text(&t.to_rfc3339()), pp, number(s.rank.unwrap())]
            })
            .collect();
        assert_eq!(found, same);
    });
}

#[test]
fn database_counts_the_same_new_plays() {
    with_database(|conn| async move {
        let mut storage = Storage::new();
        for plays in [vec![30, 10, 30, 20], vec![10, 40, 10], vec![20]] {
            let values: Vec<String> = plays.iter().map(|p| format!("(5, 0, {p})")).collect();
            let sql = format!(
                "INSERT OR IGNORE INTO user_play_records (user_id, mode, played_at) VALUES {}",
                values.join(", ")
            );
            let count = conn.execute(&sql, ()).await.unwrap();
            assert_eq!(storage.save_play_records(5, GameMode::Osu, &plays), count as i64);
        }
    });
}

#[test]
fn database_starts_and_orders_listeners_alike() {
    with_database(|conn| async move {
        let mut storage = Storage::new();
        let start = "INSERT INTO match_listeners (match_id, group_id, last_event_id,
                pending_game_event_id, created_at, expires_at, active, last_notified_at)
            VALUES (?1, ?2, ?3, NULL, ?4, ?5, 1, NULL)
            ON CONFLICT(match_id, group_id) DO UPDATE SET
                created_at = CASE WHEN match_listeners.active = 1 AND match_listeners.expires_at >= ?6
                    THEN match_listeners.created_at ELSE excluded.created_at END,
                expires_at = excluded.expires_at,
                active = 1,
                last_event_id = CASE WHEN match_listeners.active = 1
                        AND match_listeners.expires_at >= ?6
                    THEN match_listeners.last_event_id ELSE excluded.last_event_id END,
                last_notified_at = CASE WHEN match_listeners.active = 1
                        AND match_listeners.expires_at >= ?6
                    THEN match_listeners.last_notified_at ELSE NULL END";
        let steps = [
            (1, 2, 0, 50, 11),
            (1, 1, 1, 500, 12),
            (2, 1, 1, 500, 13),
            (1, 1, 2, 600, 14),
            (1, 2, 60, 700, 15),
            (3, 1, 61, 10, 16),
        ];
        for (i, (m, g, delay, lasts, event)) in steps.into_iter().enumerate() {
            let now = NOW.checked_add(delay).unwrap();
            let expires = NOW.secs + lasts;
            conn.execute(
                start,
                vec![number(m), number(g), number(event), text(&now.to_rfc3339()), number(expires), number(now.secs)],
            )
            .await
            .unwrap();
            storage
                .start_match_listener_at(
                    MatchListenerStartParams {
                        match_id: m,
                        group_id: Some(g),
                        user_id: None,
                        notification_type: "group".to_string(),
                        creator_qq: 0,
                        match_name: String::new(),
                        expires_at: expires,
                        initial_last_event_id: Some(event),
                        initial_last_notified_event_id: None,
                    },
                    now,
                )
                .unwrap();
            if i == 2 {
                let told = NOW.checked_add(30).unwrap();
                conn.execute(
                    "UPDATE match_listeners SET last_event_id = 77, last_notified_at = ?1
                     WHERE match_id = 1 AND group_id = 1",
                    vec![text(&told.to_rfc3339())],
                )
                .await
                .unwrap();
                storage.update_match_listener_progress_at(1, 1, Some(77), None, None, Some(told));
            }
        }
        let now = NOW.checked_add(60).unwrap();
        let found = select(
            &conn,
            "SELECT match_id, group_id, last_event_id, created_at FROM match_listeners
             WHERE active = 1 AND expires_at >= ?1
             ORDER BY COALESCE(last_notified_at, created_at) ASC, group_id ASC, match_id ASC",
            vec![number(now.secs)],
        )
        .await;
        let same: Vec<Vec<Value>> = storage
            .list_active_match_listeners_due_for_polling_at(now)
            .iter()
            .map(|l| {
                vec![
                    number(l.match_id),
                    number(l.group_id.unwrap()),
                    number(l.last_event_id.unwrap()),
                    text(&l.created_at.to_rfc3339()),
                ]
            })
            .collect();
        assert_eq!(found, same);
        let refused = conn
            .execute(
                start,
                vec![number(9), Value::Null, number(1), text("t"), number(0), number(0)],
            )
            .await;
        assert!(refused.is_err());
    });
}
