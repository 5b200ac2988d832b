//! Client library for a network-appliance REST API, supporting both a hosted
//! multi-tenant service and directly-addressed appliances.
//!
//! The library centres on the activity-map protocol: a query DSL describing a
//! graph traversal over the appliance's topology, and the indexed graph
//! structure the appliance returns. Queries render to their exact wire text
//! through the [`json`] module, and responses are read back through the same
//! document model.

pub mod activitymap;
pub mod api_key;
pub mod api_response;
pub mod client;
pub mod error;
pub mod json;
pub mod oid;
pub mod query_time;
pub mod text;
pub mod user;
pub mod user_group;

pub use api_key::ApiKey;
pub use error::{Error, RestError};
pub use oid::Oid;
pub use query_time::QueryTime;
pub use user::Username;
pub use user_group::UserGroupId;
