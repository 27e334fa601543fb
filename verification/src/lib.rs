//! Ingestion of Markdown notes: parsing into metadata, reference and
//! sections, and the normalisation stages that run on a parsed note.

pub mod cache;
pub mod consistency;
pub mod datetime;
pub mod fields;
pub mod migration;
pub mod parser;
pub mod pattern;
pub mod scanner;
pub mod text;
pub mod types;
pub mod yaml;
