//! Verified core of a CloudFormation stack diff tool.
//!
//! The library classifies remote-service failures into a typed error,
//! drives bounded exponential-backoff retries, polls a changeset until it
//! reaches a terminal status, and renders the resulting change list.
//! All network, file and process work stays outside the library: callers
//! hand the orchestration functions plain closures for each remote call.

pub mod differ;
pub mod error;
pub mod lifecycle;
pub mod params;
pub mod render;
pub mod retry;
pub mod text;
