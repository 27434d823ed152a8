//! A knowledge base of expertise records, kept in domains: what a record
//! is, how records are identified, found, ranked, merged and fitted into a
//! size budget, and how they are laid out in a stored file. Every function
//! states what it computes and is proved to compute it; reading and writing
//! files, the clock and real-valued scores are left to the caller.

pub mod budget;
pub mod codec;
pub mod config;
pub mod error;
pub mod filter;
pub mod format;
pub mod git;
pub mod health;
pub mod id;
pub mod lock;
pub mod maintain;
pub mod markers;
pub mod order;
pub mod resolve;
pub mod scoring;
pub mod search;
pub mod storage;
pub mod text;
pub mod timestamp;
pub mod types;
pub mod upsert;
pub mod values;
