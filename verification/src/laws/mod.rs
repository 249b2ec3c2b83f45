//! What holds of the operations together: what a read gives back of a write, what one operation
//! undoes of another, and what each leaves alone.
pub mod bindings;
pub mod snapshots;
pub mod updates;
pub mod pending;
pub mod listeners;
pub mod scheduler;
pub mod schema;
