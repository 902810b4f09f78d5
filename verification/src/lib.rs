//! The logic of a desktop application that follows an RSS feed of torrents and
//! hands them to BitComet.
//!
//! The library holds no files, processes or connections. It is told what the
//! file system, the network and BitComet say, as plain values, and says what
//! is to be done. Where work and decisions alternate, it offers a machine
//! that asks for one thing at a time: a conversation with the web interface
//! of BitComet, the submission of an item, a refresh of the feed, a change of
//! the configuration, the saving and reading of its state.
//!
//! What it takes on trust of other crates and of std stands in [`outside`].

pub mod bencode;
pub mod bitcomet;
pub mod clock;
pub mod json;
pub mod laws;
pub mod models;
pub mod nesting;
pub mod network;
pub mod number;
pub mod outside;
pub mod routes;
pub mod rss;
pub mod service;
pub mod sorting;
pub mod startup;
pub mod store;
pub mod text;
pub mod torrent;
pub mod util;
pub mod xml;
