//! The service: what the application does with the feed, its items and
//! BitComet. It holds no files and no connections; it is told what was found
//! and says what is to be done.

pub mod completion;
pub mod files;
pub mod items;
pub mod logs;
pub mod merging;
pub mod refresh;
pub mod settings;
pub mod state;
pub mod submit;
