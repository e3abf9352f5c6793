//! Region catalog normalisation, hierarchy building, streaming metrics and
//! quality scoring for regional OpenStreetMap extracts.
//!
//! Every quantity that is fractional by nature is held as a scaled integer:
//! coordinates in units of 10⁻⁷ degree, completeness in tenths of a percent,
//! quality scores in hundredths of a point, time in milliseconds since the
//! Unix epoch.

pub mod catalog;
pub mod clock;
pub mod config;
pub mod error;
pub mod geometry;
pub mod hierarchy;
pub mod ids;
pub mod models;
pub mod osm;
pub mod quality;
pub mod search;
pub mod sorting;
pub mod storage;
pub mod text;

pub use error::RiemapError;
