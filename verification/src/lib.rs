//! Core of a hierarchical kanban-style outline editor.
//!
//! A session holds a forest of boards addressed by index; each board is an
//! ordered sequence of lists, each list an ordered sequence of items, and an
//! item may reference a child board by index. Every edit is a reversible
//! command applied through a shared mutation context (active board plus
//! clipboard); the engine keeps two histories so that undo and redo restore
//! both the data and the selection exactly.

pub mod board;
pub mod commands;
pub mod config;
pub mod engine;
pub mod input;
pub mod laws;
pub mod list;
pub mod search;
pub mod text;
