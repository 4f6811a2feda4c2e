//! ProxyWiFi: per-Wi-Fi transparent proxying.
//!
//! The library holds the rules of the daemon, its command line and its window:
//! profiles and their store, the proxy state machine, the firewall ruleset, the
//! tunnel set-up, the proxy probes and what the programs show.

pub mod addr;
pub mod cli;
pub mod config;
pub mod dataplane;
pub mod dbus_server;
pub mod dns;
pub mod error;
pub mod models;
pub mod networkmanager;
pub mod profiles;
pub mod saving;
pub mod secrets;
pub mod service;
pub mod table;
pub mod text;
pub mod window;
