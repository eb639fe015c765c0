//! A vault for conversation logs: a line-oriented message decoder, a
//! deduplicating ingestion engine, a schema and full-text-index manager,
//! and a keyword search engine with filtering and ranking.

pub mod errors;
pub mod clock;
pub mod text;
pub mod message;
pub mod json_text;
pub mod codec;
pub mod parser;
pub mod connection;
pub mod store;
pub mod importer;
pub mod schema;
pub mod textmatch;
pub mod search;
pub mod dates;
pub mod app_state;
pub mod reader;
pub mod roundtrip;
pub mod cli;
