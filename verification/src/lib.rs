//! A small feed reader's core: a streaming tag-path parser that turns an XML
//! event stream into validated channel and article records, a date
//! normalizer that tries the common feed timestamp formats in a fixed
//! order, an in-memory store that reconciles freshly fetched data against
//! existing rows by link (idempotent upsert, read state untouched), the
//! use-cases that tie fetch, parse and store together, and the state
//! transitions of the interactive session and its backend worker. The
//! surrounding shell does the blocking work — HTTP, durable storage,
//! terminal rendering — and hands this crate plain values.

pub mod actions;
pub mod args;
pub mod commands;
pub mod controls;
pub mod dates;
pub mod error;
pub mod executor;
pub mod feed;
pub mod parser;
pub mod persistence;
pub mod roundtrip;
pub mod ui;

pub use args::valid_url;
