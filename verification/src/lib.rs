//! The storage rules and the scheduler of a chat bot for a rhythm game, proved with Verus.
//!
//! Chat accounts are bound to players; snapshots of the players' statistics are kept, and the
//! change since the day before is computed from them; listeners follow multiplayer matches; and a
//! scheduler decides when each player is looked at again.
//!
//! [`storage::Storage`] holds the rows of all tables. Every operation says in its contract which
//! rows it reads, adds, changes and removes, over the [`rows::TablesView`] of the storage. An
//! operation that depends on the time comes twice: under its plain name it reads the clock, and
//! with `_at` it takes the instant as an argument. What an operation answers is stated once more in
//! [`calls`], of its arguments and of the columns alone; what the operations promise together is
//! stated and proved in [`laws`]. [`clock`] names what came from the clock, the time zone and
//! chance.
//!
//! [`scheduler`] turns the replies of the world into the next step of an evaluation; it calls
//! neither the game's service nor a database itself. [`journal`] tells which rows have changed, so
//! that a database can follow.

pub mod bindings;
pub mod calls;
pub mod clock;
pub mod journal;
pub mod laws;
pub mod listeners;
pub mod pending;
pub mod rows;
pub mod scheduler;
pub mod schema;
pub mod snapshots;
pub mod storage;
pub mod table;
pub mod text;
pub mod time;
pub mod types;
pub mod updates;
