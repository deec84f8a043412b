pub mod config;
pub mod delivery;
pub mod dispatch_guarantees;
pub mod dispatcher;
pub mod guarantees;
pub mod hex;
pub mod json;
pub mod laws;
pub mod observer;
pub mod subscriptions;
pub mod types;
