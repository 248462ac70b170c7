//! Verified core of the PyBun command-line tool: cache bookkeeping, audit
//! severity rules, download retry and checksum policy, CLI help scanning and
//! the text helpers of the command layer.

pub mod text;
pub mod atomic_fs;
pub mod json;
pub mod audit;
pub mod build_cache;
pub mod pathname;
pub mod cache;
pub mod cli;
pub mod commands;
pub mod digest;
pub mod downloader;
pub mod help;
