//! A searchable catalog of the files and directories on local storage.
//!
//! The catalog is filled by scanning each drive (`scanner`, `indexer`), held
//! in memory and queried (`ntfs_search`, `ranking`), kept on disk between
//! runs (`cache`), and served to other processes over a local channel
//! (`service`, `ipc`). Beside it stand what the front ends bring along: the
//! command line (`cli`, `config`), the search below a single root
//! (`custom_path`), the kinds of result (`category`) and the desktop search
//! tool that answers the interactive searches (`searcher`).
//!
//! Nothing here reads a disk, opens a channel or starts a process. The
//! caller does, and hands over what it read; every function of this crate
//! decides from plain values, and says in its contract what it decides.

pub mod cache;
pub mod category;
pub mod chars;
pub mod cli;
pub mod config;
pub mod custom_path;
pub mod indexer;
pub mod ipc;
pub mod ntfs_search;
pub mod ranking;
pub mod scanner;
pub mod searcher;
pub mod service;
pub mod text;
pub mod types;
