//! What the tool does: the interactive session and the one-shot commands.

pub mod add;
pub mod bus;
pub mod get;
pub mod keymap;
pub mod page;
pub mod prompt;
pub mod recipe;
pub mod screen;
pub mod session;
