//! Mailing-list subscription core: validated intake, pending-subscriber
//! persistence with confirmation tokens, outbound confirmation email
//! dispatch, and token-based confirmation.

pub mod configuration;
pub mod domain;
pub mod email_client;
pub mod hex;
mod random;
pub mod routes;
pub mod secret;
pub mod startup;
pub mod store;
pub mod urlencoded;
