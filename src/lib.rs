//! Segment intake and deduplication for a live HLS radio stream: change
//! detection over numbered segments, classification of the per-segment
//! station metadata, consolidation of fingerprint matches, and the catalog
//! store of tracks and their repeat sightings.
pub mod audio;
pub mod classifier;
pub mod db;
pub mod emysound;
pub mod error;
pub mod intake;
pub mod matches;
pub mod metadata;
pub mod text;
pub mod tracker;
