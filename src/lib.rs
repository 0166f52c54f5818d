//! Reconciliation core of a controller that evicts pods whose running image
//! digest has drifted from the digest the registry currently publishes.

pub mod text;
pub mod image_ref;
pub mod drift;
pub mod credentials;
pub mod reconcile;
pub mod config;
