//! A line-oriented task list: the tasks, their one-line text form, the
//! operations on the list, and the interpreter for the commands that drive
//! them. Everything here computes on values; reading input and storing the
//! list is left to the caller.

pub mod text;
pub mod number;
pub mod model;
pub mod laws;
pub mod command;
