//! A pushdown state-machine engine, and the task-list application that
//! runs on it.
//!
//! - `automaton`: the engine, its model of effects and the laws it keeps.
//! - `task`: task records, the store and filters.
//! - `components`: lists, views and prompts, apart from how they are drawn.
//! - `tasker`: the context that the application's units share.
//! - `state`, `dialogs`: the application's units.
//! - `text`: small string operations.
pub mod automaton;
pub mod components;
pub mod dialogs;
pub mod state;
pub mod task;
pub mod tasker;
pub mod text;
