//! Verified core of a multi-threaded HTTP file downloader.
//!
//! The library holds the decisions of the downloader: how a resource is split
//! into byte ranges, how the response headers are read, how file names and
//! cache keys are derived from a URL, and how each download item and dialog
//! reacts to the events it receives. Network, file system and user interface
//! work is left to the caller, which performs the actions that these
//! functions return.

mod text;
pub mod clock;
pub mod decimal;
pub mod address;
pub mod metadata;
pub mod chunk;
pub mod fragment;
pub mod hash;
pub mod download_item;
pub mod new_download;
pub mod app_model;
