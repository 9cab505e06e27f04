//! An accountability kernel: the rules that decide what enters an append-only, hash-chained log.
pub mod arguments;
pub mod budget;
pub mod calendar;
pub mod checkpoint;
pub mod clock;
pub mod codes;
pub mod commands;
pub mod config;
pub mod conformance;
pub mod console;
pub mod crypto;
pub mod decimal;
pub mod documents;
pub mod error;
pub mod gatequeue;
pub mod genesis;
pub mod harness;
pub mod http;
pub mod ingest;
pub mod json;
pub mod kernel;
pub mod keys;
pub mod manifest;
pub mod query;
pub mod text;
pub mod vocabulary;
pub mod walk;
