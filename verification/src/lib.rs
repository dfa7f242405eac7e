//! The decision core of a file watcher that runs a utility again whenever a
//! watched path changes.
//!
//! The library decides and never acts. A session, started by `Entr::run`,
//! names what it needs next (the shell, the input, a path registered, a clear
//! screen, a child process, an event) and is told how that went; the program
//! around it does the reading, the watching and the spawning.
//!
//! - `text`: white space, trimming, lines.
//! - `watch`: the watch set and how it is read from the input.
//! - `shell`: the command in shell mode.
//! - `event`: what the monitor delivers, and how clearing the screen ends.
//! - `error`: why a session ends.
//! - `model`: the session as a state machine, in mathematical terms.
//! - `session`: the session in executable form.
//! - `trace`: what holds of every run of a session.

pub mod error;
pub mod event;
pub mod model;
pub mod session;
pub mod shell;
pub mod text;
pub mod trace;
pub mod watch;
