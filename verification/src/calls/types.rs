//! Modes, snapshots, channels and errors.
use crate::calls::plain::{columns_keep_numbers, kept_real, mode_number};
use crate::types::{GameMode, NotificationChannel, Real, StorageError, UserStats, UserStatsSnapshot};
use vstd::prelude::*;

verus! {

/// A mode is written as its number, and a number is read as the mode that is written so, or as
/// none where no mode is.
pub proof fn modes_read_back(
    mode: GameMode,
    code: i32,
    number: i32,
    read: Option<GameMode>,
)
    requires
        call_ensures(GameMode::to_code, (mode,), code),
        call_ensures(GameMode::from_code, (number,), read),
    ensures
        code == mode_number(mode),
        number == code ==> read == Some(mode),
        read matches Some(m) ==> mode_number(m) == number,
        read is None <==> number < 0 || number > 3,
{
}

/// The snapshot has each count of the statistics under its own name, and each real value that is a
/// number.
pub open spec fn has_each_field(s: UserStatsSnapshot, stats: UserStats) -> bool {
    &&& s.pp == kept_real(stats.pp)
    &&& s.rank == Some(stats.rank)
    &&& s.country_rank == Some(stats.country_rank)
    &&& s.ranked_score == Some(stats.ranked_score)
    &&& s.accuracy == kept_real(stats.accuracy)
    &&& s.playcount == Some(stats.playcount)
    &&& s.hits == Some(stats.hits)
    &&& s.playtime == Some(stats.playtime)
}

/// A snapshot has each field of the statistics that it is made of.
pub proof fn snapshot_has_each_field(stats: &UserStats, res: UserStatsSnapshot)
    requires
        call_ensures(UserStatsSnapshot::of, (stats,), res),
    ensures
        has_each_field(res, *stats),
{
    columns_keep_numbers(stats.pp);
    columns_keep_numbers(stats.accuracy);
}

/// The count is what the snapshot has of it, or zero.
pub open spec fn count_or_zero(count: i64, kept: Option<i64>) -> bool {
    (kept matches Some(n) ==> count == n) && (kept is None ==> count == 0)
}

/// A snapshot that is completed has each of its fields, zero for those it lacks, and the identity
/// that is given; taken of statistics, it gives back every count of them.
pub proof fn completed_snapshot_has_each_field(
    s: UserStatsSnapshot,
    user_id: i64,
    username: &str,
    country_code: &str,
    res: UserStats,
    stats: UserStats,
)
    requires
        call_ensures(
            UserStatsSnapshot::into_user_stats,
            (s, user_id, username, country_code),
            res,
        ),
    ensures
        res.user_id == user_id && res.username@ == username@ && res.country_code@ == country_code@,
        s.pp matches Some(x) ==> res.pp == x,
        s.pp is None ==> res.pp.bits == 0,
        s.accuracy matches Some(x) ==> res.accuracy == x,
        s.accuracy is None ==> res.accuracy.bits == 0,
        count_or_zero(res.rank, s.rank),
        count_or_zero(res.country_rank, s.country_rank),
        count_or_zero(res.ranked_score, s.ranked_score),
        count_or_zero(res.playcount, s.playcount),
        count_or_zero(res.hits, s.hits),
        count_or_zero(res.playtime, s.playtime),
        res.rank_change is None && res.country_rank_change is None && res.cover_url is None,
        has_each_field(s, stats) ==> {
            &&& res.rank == stats.rank
            &&& res.country_rank == stats.country_rank
            &&& res.ranked_score == stats.ranked_score
            &&& res.playcount == stats.playcount
            &&& res.hits == stats.hits
            &&& res.playtime == stats.playtime
        },
{
}

/// A column keeps every real value that is a number, and zero is the number without a bit.
pub proof fn columns_keep_real_values(r: Real, column: Option<Real>, zero: Real)
    requires
        call_ensures(Real::to_column, (r,), column),
        call_ensures(Real::zero, (), zero),
    ensures
        column == kept_real(r),
        zero.bits == 0,
{
    columns_keep_numbers(r);
}

/// One text alone names the private channel.
pub proof fn one_text_names_the_private_channel(s: &str, res: NotificationChannel)
    requires
        call_ensures(NotificationChannel::try_from_str, (s,), res),
    ensures
        s@ == "private"@ ==> res == NotificationChannel::Private,
        s@ != "private"@ ==> res == NotificationChannel::Group,
{
}

/// An error of a table that is not looked up names the table, and the others have texts of their
/// own.
pub proof fn errors_say_what_is_wrong(e: &StorageError, res: String)
    requires
        call_ensures(StorageError::message, (e,), res),
    ensures
        *e == StorageError::InvalidDefaultMode ==> res@ == "invalid default_mode value in database"@,
        *e == StorageError::MissingGroup ==> res@
            == "NOT NULL constraint failed: match_listeners.group_id"@,
        *e == StorageError::TimeOutOfRange ==> res@ == "instant out of range"@,
        *e == StorageError::ChangeOutOfRange ==> res@ == "change out of range"@,
        *e == StorageError::BrokenConstraint ==> res@ == "rows break a constraint of their table"@,
        e matches StorageError::TableNotAllowed(table) ==> res@ == "has_column: table '"@ + table@
            + "' is not in the allowlist"@,
{
}

} // verus!
