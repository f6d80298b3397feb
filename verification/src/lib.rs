//! An in-memory todo-list store: an ordered collection of items with an
//! auto-incrementing id counter, title validation, and snapshot hydration.
//!
//! The store itself is pure, single-threaded data: adding an item trims and
//! validates its title, toggling flips a completion flag, removing deletes by
//! id, and hydration replaces the whole collection from an externally held
//! snapshot. Host-facing marshaling (structured values, JavaScript interop)
//! lives outside this crate; the store only deals in plain values.

pub mod item;
pub mod store;
pub mod title;

pub use item::{ItemView, TodoError, TodoItem};
pub use store::TodoList;
pub use title::{normalize_title, TITLE_MAX_LEN};
