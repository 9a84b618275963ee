//! Live updates for a to-do list: every create or delete of a record is
//! published to a hub, which fans it out to the viewers that are connected,
//! each over its own server-sent event stream.

pub mod history;
pub mod hub;
pub mod models;
pub mod routes;
pub mod session;
pub mod wire;
