//! The daemon's logic: what it drives, what it reports, and the proxy state machine.
//!
//! ```text
//! Disconnected --(Wi-Fi up + enabled profile with auto-connect)--> Starting
//! Starting     --(firewall + engine ok)---------> HealthCheck
//! HealthCheck  --(probe ok)---------------------> Active
//! HealthCheck  --(probe failed)-----------------> Failed / Disconnected
//! Active       --(Wi-Fi down / disabled)--------> Stopping -> Disconnected
//! ```

pub mod engine;
pub mod laws;
pub mod machine;
pub mod route;
pub mod snapshot;
pub mod startup;
