//! A small game: one line of text that is typed into.

pub mod app;
pub mod ui;
