//! A bounded web crawler's decision core.
//!
//! The crate holds the rules of a crawl: which discovered URLs are admitted,
//! how the frontier and the set of visited URLs evolve, how pages are counted
//! per host, and how links are taken from a fetched document. Network
//! transfers and scheduling are left to the caller, which drives a
//! [`crawler::Crawler`] step by step.

pub mod address;
pub mod crawler;
pub mod fetcher;
pub mod frontier;
pub mod parser;
pub mod storage;
pub mod tally;
