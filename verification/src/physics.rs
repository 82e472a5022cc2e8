//! How particles meet the terrain.
pub mod collision;
