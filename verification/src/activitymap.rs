//! Types for working with activity map topologies.
//!
//! This module contains the request and response types needed to interact
//! with `v1/activitymaps/query`. A [`query::Query`] describes a set of
//! traversals over the appliance's topology; the appliance answers with a
//! [`rsp::Response`] holding the edges the traversals found.

pub mod query;
pub mod rsp;

pub use query::{Query, Source, Step, Walk, WalkOrigin};
pub use rsp::{Edge, Response};
