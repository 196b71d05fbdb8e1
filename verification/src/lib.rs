//! A pull-based operational snapshot of a multi-index search service,
//! rendered in the text exposition format that scraping agents consume.
//!
//! On each scrape, the pipeline checks the feature flag and the caller's
//! access scope, folds the subsystems' statistics into a process-wide gauge
//! store, and serializes the store deterministically.

pub mod aggregate;
pub mod gate;
pub mod laws;
pub mod numfmt;
pub mod registry;
pub mod render;
pub mod stats;
