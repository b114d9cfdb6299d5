//! Notes that belong to the directory they were written in.
//!
//! The library holds what the `dips` tool decides: which stored scope
//! answers for a place ([`models::dir_context`]), what the store holds and
//! how it changes ([`database`], [`models`], [`changes`]), and how the
//! interactive session moves from one state to the next
//! ([`commands::session`], [`commands::keymap`], [`commands::bus`],
//! [`commands::screen`]). It reads no file, opens no terminal and waits for
//! nothing: whoever uses it hands it what was read and carries out what it
//! asks for.

pub mod changes;
pub mod commands;
pub mod configuration;
pub mod database;
pub mod game;
pub mod git;
pub mod identity;
pub mod models;
pub mod text;
