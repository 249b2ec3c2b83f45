//! What each operation does, stated of the operation itself: of any call with these arguments, on
//! a storage with these rows, that came back with this result. The statements speak of the rows'
//! own columns, of characters, numbers and counts, and of nothing that the operations' contracts
//! are written in.
pub mod bindings;
pub mod listeners;
pub mod pending;
pub mod plain;
pub mod scheduler;
pub mod schema;
pub mod snapshots;
pub mod storage;
pub mod time;
pub mod types;
pub mod updates;
