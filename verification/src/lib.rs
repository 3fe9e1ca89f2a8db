//! Verified core of the Echo audio library: capability routing, the model
//! registry, content-addressed cache identity, and the catalog's decision
//! rules (job queue, analysis recovery, listening continuity, stored-row
//! validation).

pub mod content_hash;
pub mod json;
pub mod text;
pub mod ai;
pub mod bridge;
pub mod cache;
pub mod catalog;
