//! Catalog decision rules: everything the SQLite-backed catalog decides
//! about the rows it reads and writes, independent of the storage engine.

pub mod adjustment;
pub mod analysis;
pub mod analysis_recovery;
pub mod audio_semantic_index;
pub mod audio_space;
pub mod assets;
pub mod delivery_formats;
pub mod derived_artifact;
pub mod error;
pub mod facets;
pub mod generated_audio;
pub mod identity;
pub mod impulse_response;
pub mod inference_run;
pub mod job_queue;
pub mod job_table;
pub mod long_audio;
pub mod schema;
pub mod user_state;
