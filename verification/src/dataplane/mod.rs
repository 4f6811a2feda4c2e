//! The data plane: a TUN device fed by `tun2socks`, and an `inet proxywifi` nftables
//! table for the kill switch and the leak guards.
//!
//! ```text
//! app -> route 0.0.0.0/1 + 128.0.0.0/1 via pwtun0 -> tun2socks -> proxy -> Internet
//!                                                  (bound to the Wi-Fi interface)
//! ```
//!
//! * Loop prevention: `tun2socks` binds its own sockets to the Wi-Fi interface, so
//!   their route lookup never sees the tunnel routes.
//! * Local networks: the connected subnet's route is more specific than the `/1`
//!   tunnel routes, so that traffic stays direct.
//! * Kill switch: when `tun2socks` dies the device vanishes, traffic falls back to
//!   the Wi-Fi default route, and the table drops what leaves that interface except
//!   what goes to the proxy itself.

pub mod encode;
pub mod firewall;
pub mod leaks;
pub mod nft;
pub mod probe;
pub mod ruleset;
pub mod setup;
pub mod socks5;
pub mod tunnel;
