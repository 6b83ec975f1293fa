//! Core of a database-aware conversational assistant.
//!
//! The crate provides two subsystems. The conversation engine ([`ai`])
//! keeps an append-only history of role-tagged turns, builds requests for a
//! streaming inference collaborator, splits the incoming stream into text
//! fragments and tool calls, and splices tool results back into the
//! conversation. The typed result decoder and schema introspector
//! ([`decode`], [`schema`], [`db`]) turn raw SQL result sets and catalog
//! metadata into a stable value representation.
//!
//! All I/O (the inference runtime, the SQL connection, terminals) lives
//! outside this crate; callers drive the engine by feeding it the chunks
//! they pull and implement [`db::Database`] over their connection.

pub mod ai;
pub mod config;
pub mod db;
pub mod decode;
pub mod json;
pub mod schema;
pub mod text;
pub mod tools;
