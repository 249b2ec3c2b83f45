//! Game modes, player statistics and the errors of the storage rules.
use crate::text::text_eq;
use vstd::prelude::*;
use vstd::string::StringExecFns;

verus! {

/// One of the four ways to play.
#[derive(Clone, Copy, Debug, PartialEq, Eq, Structural)]
pub enum GameMode {
    Osu,
    Taiko,
    Catch,
    Mania,
}

impl GameMode {
    /// The number that stands for the mode in the tables.
    pub open spec fn code(self) -> i32 {
        match self {
            GameMode::Osu => 0,
            GameMode::Taiko => 1,
            GameMode::Catch => 2,
            GameMode::Mania => 3,
        }
    }

    /// The mode that a number of the tables stands for, if it stands for one.
    pub open spec fn of_code(code: i32) -> Option<GameMode> {
        if code == 0 {
            Some(GameMode::Osu)
        } else if code == 1 {
            Some(GameMode::Taiko)
        } else if code == 2 {
            Some(GameMode::Catch)
        } else if code == 3 {
            Some(GameMode::Mania)
        } else {
            None
        }
    }

    pub fn to_code(self) -> (res: i32)
        ensures
            res == self.code(),
    {
        match self {
            GameMode::Osu => 0,
            GameMode::Taiko => 1,
            GameMode::Catch => 2,
            GameMode::Mania => 3,
        }
    }

    pub fn from_code(code: i32) -> (res: Option<GameMode>)
        ensures
            res == GameMode::of_code(code),
    {
        match code {
            0 => Some(GameMode::Osu),
            1 => Some(GameMode::Taiko),
            2 => Some(GameMode::Catch),
            3 => Some(GameMode::Mania),
            _ => None,
        }
    }
}

impl View for GameMode {
    type V = GameMode;

    open spec fn view(&self) -> GameMode {
        *self
    }
}

/// A value of a `REAL` column, kept as the bits of an IEEE 754 double.
#[derive(Clone, Copy, Debug, PartialEq, Eq, Structural)]
pub struct Real {
    pub bits: u64,
}

impl Real {
    /// The bits are those of a value that is not a number.
    pub open spec fn nan(self) -> bool {
        self.bits % 0x8000_0000_0000_0000 > 0x7ff0_0000_0000_0000
    }

    /// What a column holds once the value is written to it: a table has no place for what is not
    /// a number.
    pub open spec fn stored(self) -> Option<Real> {
        if self.nan() {
            None
        } else {
            Some(self)
        }
    }

    pub open spec fn spec_zero() -> Real {
        Real { bits: 0 }
    }

    /// The value 0.0.
    pub fn zero() -> (res: Real)
        ensures
            res == Real::spec_zero(),
    {
        Real { bits: 0 }
    }

    /// The value as a column holds it.
    pub fn to_column(self) -> (res: Option<Real>)
        ensures
            res == self.stored(),
    {
        if self.bits % 0x8000_0000_0000_0000 > 0x7ff0_0000_0000_0000 {
            None
        } else {
            Some(self)
        }
    }
}

/// The statistics of a player in one mode.
#[derive(Clone, Debug)]
pub struct UserStats {
    pub user_id: i64,
    pub username: String,
    pub country_code: String,
    pub pp: Real,
    pub rank: i64,
    pub country_rank: i64,
    pub ranked_score: i64,
    pub accuracy: Real,
    pub playcount: i64,
    pub hits: i64,
    pub playtime: i64,
    pub rank_change: Option<i64>,
    pub country_rank_change: Option<i64>,
    pub cover_url: Option<String>,
}

/// The part of the statistics that a snapshot keeps. It names no player: whoever asks for a
/// snapshot knows whose it is.
#[derive(Clone, Copy, Debug, PartialEq, Eq, Structural)]
pub struct UserStatsSnapshot {
    pub pp: Option<Real>,
    pub rank: Option<i64>,
    pub country_rank: Option<i64>,
    pub ranked_score: Option<i64>,
    pub accuracy: Option<Real>,
    pub playcount: Option<i64>,
    pub hits: Option<i64>,
    pub playtime: Option<i64>,
}

impl View for UserStatsSnapshot {
    type V = UserStatsSnapshot;

    open spec fn view(&self) -> UserStatsSnapshot {
        *self
    }
}

/// `o`, or `default` where there is none.
pub open spec fn or<T>(o: Option<T>, default: T) -> T {
    match o {
        Some(v) => v,
        None => default,
    }
}

/// The snapshot that is written for `stats`.
pub open spec fn snapshot_of(stats: UserStats) -> UserStatsSnapshot {
    UserStatsSnapshot {
        pp: stats.pp.stored(),
        rank: Some(stats.rank),
        country_rank: Some(stats.country_rank),
        ranked_score: Some(stats.ranked_score),
        accuracy: stats.accuracy.stored(),
        playcount: Some(stats.playcount),
        hits: Some(stats.hits),
        playtime: Some(stats.playtime),
    }
}

impl UserStatsSnapshot {
    /// The snapshot that is written for `stats`.
    pub fn of(stats: &UserStats) -> (res: UserStatsSnapshot)
        ensures
            res == snapshot_of(*stats),
    {
        UserStatsSnapshot {
            pp: stats.pp.to_column(),
            rank: Some(stats.rank),
            country_rank: Some(stats.country_rank),
            ranked_score: Some(stats.ranked_score),
            accuracy: stats.accuracy.to_column(),
            playcount: Some(stats.playcount),
            hits: Some(stats.hits),
            playtime: Some(stats.playtime),
        }
    }

    /// Completes the snapshot with the identity of the player. What the snapshot lacks is zero.
    pub fn into_user_stats(self, user_id: i64, username: &str, country_code: &str) -> (res:
        UserStats)
        ensures
            res.user_id == user_id,
            res.username@ == username@,
            res.country_code@ == country_code@,
            res.pp == or(self.pp, Real::spec_zero()),
            res.rank == or(self.rank, 0),
            res.country_rank == or(self.country_rank, 0),
            res.ranked_score == or(self.ranked_score, 0),
            res.accuracy == or(self.accuracy, Real::spec_zero()),
            res.playcount == or(self.playcount, 0),
            res.hits == or(self.hits, 0),
            res.playtime == or(self.playtime, 0),
            res.rank_change is None,
            res.country_rank_change is None,
            res.cover_url is None,
    {
        UserStats {
            user_id,
            username: username.to_owned(),
            country_code: country_code.to_owned(),
            pp: self.pp.unwrap_or(Real::zero()),
            rank: self.rank.unwrap_or(0),
            country_rank: self.country_rank.unwrap_or(0),
            ranked_score: self.ranked_score.unwrap_or(0),
            accuracy: self.accuracy.unwrap_or(Real::zero()),
            playcount: self.playcount.unwrap_or(0),
            hits: self.hits.unwrap_or(0),
            playtime: self.playtime.unwrap_or(0),
            rank_change: None,
            country_rank_change: None,
            cover_url: None,
        }
    }
}

/// A change of a real value: what it amounts to is `current` minus `past`.
#[derive(Clone, Copy, Debug, PartialEq, Eq, Structural)]
pub struct RealChange {
    pub current: Real,
    pub past: Real,
}

/// How the statistics of a player have changed since a snapshot.
#[derive(Clone, Copy, Debug, PartialEq, Eq, Structural)]
pub struct UserChange {
    pub rank_change: Option<i64>,
    pub country_rank_change: Option<i64>,
    pub pp_change: Option<RealChange>,
    pub accuracy_change: Option<RealChange>,
    pub playcount_change: Option<i64>,
    pub hits_change: Option<i64>,
    pub playtime_change: Option<i64>,
}

/// How a match listener tells of what happens.
#[derive(Clone, Copy, Debug, PartialEq, Eq, Structural)]
pub enum NotificationChannel {
    Group,
    Private,
}

/// The channel that a text names.
pub open spec fn channel_of(s: Seq<char>) -> NotificationChannel {
    if s == "private"@ {
        NotificationChannel::Private
    } else {
        NotificationChannel::Group
    }
}

impl NotificationChannel {
    /// Every text but `private` names the group.
    pub fn try_from_str(s: &str) -> (res: NotificationChannel)
        ensures
            res == channel_of(s@),
    {
        if text_eq(s, "private") {
            NotificationChannel::Private
        } else {
            NotificationChannel::Group
        }
    }
}

/// Why a request to the storage is refused.
#[derive(Clone, Debug, PartialEq, Eq)]
pub enum StorageError {
    /// The default mode of a binding is no mode.
    InvalidDefaultMode,
    /// A match listener must have a group.
    MissingGroup,
    /// An instant that the request speaks of is out of the calendar's range.
    TimeOutOfRange,
    /// A difference of two counts does not fit.
    ChangeOutOfRange,
    /// The columns of this table are not looked up.
    TableNotAllowed(String),
    /// Rows that break a key or an order of their table.
    BrokenConstraint,
}

impl StorageError {
    /// What the error says.
    pub open spec fn text(self) -> Seq<char> {
        match self {
            StorageError::InvalidDefaultMode => "invalid default_mode value in database"@,
            StorageError::MissingGroup => "NOT NULL constraint failed: match_listeners.group_id"@,
            StorageError::TimeOutOfRange => "instant out of range"@,
            StorageError::ChangeOutOfRange => "change out of range"@,
            StorageError::TableNotAllowed(table) => "has_column: table '"@ + table@
                + "' is not in the allowlist"@,
            StorageError::BrokenConstraint => "rows break a constraint of their table"@,
        }
    }

    /// What the error says.
    pub fn message(&self) -> (res: String)
        ensures
            res@ == self.text(),
    {
        match self {
            StorageError::InvalidDefaultMode => "invalid default_mode value in database".to_owned(),
            StorageError::MissingGroup => {
                "NOT NULL constraint failed: match_listeners.group_id".to_owned()
            },
            StorageError::TimeOutOfRange => "instant out of range".to_owned(),
            StorageError::ChangeOutOfRange => "change out of range".to_owned(),
            StorageError::TableNotAllowed(table) => {
                let mut res = "has_column: table '".to_owned();
                res.append(table.as_str());
                res.append("' is not in the allowlist");
                res
            },
            StorageError::BrokenConstraint => "rows break a constraint of their table".to_owned(),
        }
    }
}

} // verus!
