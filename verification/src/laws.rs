//! What the library does, stated over the data themselves: over statuses,
//! texts, nodes and times, and not over the functions in which the contracts
//! are written.

pub mod actions;
pub mod control;
pub mod conversation;
pub mod depth;
pub mod detection;
pub mod downloads;
pub mod feed;
pub mod following;
pub mod merging;
pub mod names;
pub mod progress;
pub mod reported;
pub mod requests;
pub mod schedule;
pub mod settings;
pub mod submission;
pub mod texts;
pub mod torrents;
pub mod values;
pub mod words;
pub mod written;
