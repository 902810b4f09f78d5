//! BitComet: its executable, its tasks and its web interface.

pub mod control;
pub mod discovery;
pub mod executable;
pub mod login;
pub mod session;
pub mod tasks;
pub mod webui;
