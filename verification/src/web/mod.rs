//! The web API's envelope and the logic of its handlers.

pub mod envelope;
pub mod helpers;
pub mod subscriptions;
