//! Verified core of the overlay's data and detection layers.
mod wrappers;
pub mod model;
pub mod text;
pub mod frame;
pub mod atlas;
pub mod csv;
pub mod sheet_meta;
pub mod paths;
pub mod recommend;
pub mod detector;
pub mod telemetry;
pub mod record_db;
pub mod gateway;
pub mod scene_config;
pub mod jacket;
pub mod record_changes;
