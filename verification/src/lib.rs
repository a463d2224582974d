//! Webhook ingestion and normalization pipeline.
//!
//! The library authenticates inbound webhook deliveries (HMAC-SHA256
//! signatures), extracts a normalized event record from source-specific
//! headers and payload fields, persists it in an event store, and projects
//! recognized event types into a typed domain model (repositories, commits,
//! pull requests, issues) with idempotent upserts keyed on stable natural
//! identifiers.

pub mod adapter;
pub mod config;
pub mod domain;
pub mod event;
pub mod find;
pub mod ingest;
pub mod json;
pub mod listing;
pub mod pagination;
pub mod project;
pub mod signature;
pub mod strutil;
pub mod text;
pub mod webhook_event;
