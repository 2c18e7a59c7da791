//! Routing and conversion core of a bridge from a publish/subscribe robotics
//! middleware to a visualization and recording backend.
use vstd::prelude::*;

pub mod config;
pub mod converter;
pub mod discovery;
pub mod message;
pub mod names;
pub mod point_cloud;
pub mod registry;
pub mod runtime;
pub mod topology;

verus! {

} // verus!
