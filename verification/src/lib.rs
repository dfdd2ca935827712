//! Core of a small graphical command shell: splitting a command line into a
//! program and its arguments, turning what a finished child process wrote into
//! the text shown to the user, and the state of the shell window itself.

pub mod executor;
pub mod invocation;
pub mod shell;
pub mod text;
pub mod trim;
pub mod words;
