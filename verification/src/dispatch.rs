//! The command handlers and the operations they perform on the model of
//! the storage directory and of the tracked trees.

pub mod add;
pub mod io;
pub mod list;
pub mod register;
pub mod rm;
pub mod status;
pub mod usecmd;
pub mod view;
