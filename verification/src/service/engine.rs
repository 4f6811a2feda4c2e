//! What the daemon drives: the proxy engine and the firewall.

use crate::models::{ProxyProfile, ProxyTestResult};
use crate::service::route::RouteContext;
use vstd::prelude::*;

verus! {

/// The transparent-proxy data plane: a TUN device and what forwards it to the proxy.
pub trait ProxyEngine: Send + Sync {
    /// Bring the engine up for `profile`; returns the TUN device's name.
    fn start(&self, profile: &ProxyProfile, route: &RouteContext) -> Result<String, String>;

    /// Tear the engine down; idempotent.
    fn stop(&self) -> Result<(), String>;

    /// Run the connectivity and authentication probes.
    fn test(&self, profile: &ProxyProfile, route: &RouteContext) -> Result<ProxyTestResult, String>;

    /// Whether the data plane is up.
    fn is_running(&self) -> bool;
}

/// An engine that proxies nothing. It reports that it is not running, so that no start of
/// it is taken for a working proxy.
pub struct NoOpProxyEngine;

impl ProxyEngine for NoOpProxyEngine {
    fn start(&self, _profile: &ProxyProfile, _route: &RouteContext) -> (r: Result<String, String>)
        ensures
            r matches Ok(name) && name@.len() == 0,
    {
        Ok(String::new())
    }

    fn stop(&self) -> (r: Result<(), String>)
        ensures
            r is Ok,
    {
        Ok(())
    }

    fn test(&self, _profile: &ProxyProfile, _route: &RouteContext) -> (r: Result<
        ProxyTestResult,
        String,
    >)
        ensures
            r matches Ok(t) && !t.reachable && !t.authentication_ok && !t.tcp_ok && !t.dns_ok
                && !t.ipv4_ok && !t.ipv6_ok && !t.udp_ok && t.external_ip is None
                && crate::models::opt_text(t.error) == Some(
                "proxy engine not implemented in prototype"@,
            ),
    {
        Ok(
            ProxyTestResult {
                reachable: false,
                authentication_ok: false,
                tcp_ok: false,
                dns_ok: false,
                ipv4_ok: false,
                ipv6_ok: false,
                udp_ok: false,
                external_ip: None,
                error: Some("proxy engine not implemented in prototype".to_owned()),
            },
        )
    }

    fn is_running(&self) -> (r: bool)
        ensures
            !r,
    {
        false
    }
}

/// The nftables ruleset that guards the proxy and implements the kill switch.
pub trait FirewallOps: Send + Sync {
    /// Install the rules for `profile`.
    fn apply(&self, profile: &ProxyProfile, route: &RouteContext) -> Result<(), String>;

    /// Remove every rule; idempotent.
    fn remove(&self) -> Result<(), String>;

    /// Arm or disarm the kill switch.
    fn set_kill_switch(&self, armed: bool) -> Result<(), String>;
}

/// A firewall that installs nothing.
pub struct NoOpFirewall;

impl FirewallOps for NoOpFirewall {
    fn apply(&self, _profile: &ProxyProfile, _route: &RouteContext) -> (r: Result<(), String>)
        ensures
            r is Ok,
    {
        Ok(())
    }

    fn remove(&self) -> (r: Result<(), String>)
        ensures
            r is Ok,
    {
        Ok(())
    }

    fn set_kill_switch(&self, _armed: bool) -> (r: Result<(), String>)
        ensures
            r is Ok,
    {
        Ok(())
    }
}

} // verus!
