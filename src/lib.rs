//! A local conversational memory engine: embedding-indexed memories,
//! similarity retrieval, streamed generation with stop and leak detection,
//! and consolidation of raw memories into long-term knowledge.

pub mod codec;
pub mod consolidation;
pub mod lifecycle;
pub mod models;
pub mod payload;
pub mod prompt;
pub mod records;
pub mod reset;
pub mod retrieval;
pub mod stream;
pub mod text;
