//! Harvests per-author commit history from a set of local git repositories
//! into a deduplicated, descending-timestamp digest of log lines, and
//! assembles the digest into a payload for a remote summarization service.

pub mod clients;
pub mod command;
pub mod config;
pub mod localtime;
pub mod logset;
pub mod order;
pub mod repository;
pub mod strfmt;
pub mod window;
