//! The library's error type.

use vstd::prelude::*;
use vstd::string::*;

verus! {

/// Library-wide error. Each variant carries a human-readable detail.
#[derive(Debug)]
pub enum RiemapError {
    OsmProcessing(String),
    Storage(String),
    Network(String),
    Quality(String),
    Config(String),
}

/// What a `RiemapError` holds, with text as character sequences.
pub enum RiemapErrorModel {
    OsmProcessing(Seq<char>),
    Storage(Seq<char>),
    Network(Seq<char>),
    Quality(Seq<char>),
    Config(Seq<char>),
}

impl DeepView for RiemapError {
    type V = RiemapErrorModel;

    open spec fn deep_view(&self) -> RiemapErrorModel {
        match self {
            RiemapError::OsmProcessing(s) => RiemapErrorModel::OsmProcessing(s@),
            RiemapError::Storage(s) => RiemapErrorModel::Storage(s@),
            RiemapError::Network(s) => RiemapErrorModel::Network(s@),
            RiemapError::Quality(s) => RiemapErrorModel::Quality(s@),
            RiemapError::Config(s) => RiemapErrorModel::Config(s@),
        }
    }
}

impl Clone for RiemapError {
    fn clone(&self) -> (r: Self)
        ensures
            r == *self,
    {
        match self {
            RiemapError::OsmProcessing(s) => RiemapError::OsmProcessing(s.clone()),
            RiemapError::Storage(s) => RiemapError::Storage(s.clone()),
            RiemapError::Network(s) => RiemapError::Network(s.clone()),
            RiemapError::Quality(s) => RiemapError::Quality(s.clone()),
            RiemapError::Config(s) => RiemapError::Config(s.clone()),
        }
    }
}

impl RiemapErrorModel {
    /// The text shown for the error: the name of its kind, then the detail.
    pub open spec fn message(self) -> Seq<char> {
        match self {
            RiemapErrorModel::OsmProcessing(s) => "OSM processing error: "@ + s,
            RiemapErrorModel::Storage(s) => "Storage error: "@ + s,
            RiemapErrorModel::Network(s) => "Network error: "@ + s,
            RiemapErrorModel::Quality(s) => "Quality analysis error: "@ + s,
            RiemapErrorModel::Config(s) => "Configuration error: "@ + s,
        }
    }
}

impl RiemapError {
    /// The text shown for the error.
    pub fn message(&self) -> (m: String)
        ensures
            m@ == self.deep_view().message(),
    {
        match self {
            RiemapError::OsmProcessing(s) => String::from_str("OSM processing error: ").concat(
                s.as_str(),
            ),
            RiemapError::Storage(s) => String::from_str("Storage error: ").concat(s.as_str()),
            RiemapError::Network(s) => String::from_str("Network error: ").concat(s.as_str()),
            RiemapError::Quality(s) => String::from_str("Quality analysis error: ").concat(
                s.as_str(),
            ),
            RiemapError::Config(s) => String::from_str("Configuration error: ").concat(s.as_str()),
        }
    }
}

} // verus!
