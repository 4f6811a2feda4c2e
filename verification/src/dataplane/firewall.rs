//! What the firewall has installed, and the scripts that change it.

use crate::dataplane::leaks;
use crate::dataplane::leaks::{Packet, Transport};
use crate::dataplane::ruleset;
use crate::dataplane::ruleset::RulesetParams;
use crate::models::{DnsMode, ProxyProfile};
use crate::service::route::RouteContext;
use vstd::prelude::*;

verus! {

/// The ruleset's parameters for a profile over a route.
pub open spec fn params_of(profile: ProxyProfile, route: RouteContext) -> RulesetParams {
    RulesetParams {
        iface: route.iface,
        proxy_ip: route.proxy_ip,
        proxy_port: profile.proxy.port,
        local: profile.local_network,
        ipv6: profile.routing.ipv6,
        kill_switch: profile.kill_switch.enabled,
        dns_proxied: profile.dns == DnsMode::Proxied,
        udp: profile.udp,
    }
}

/// The ruleset's parameters for a profile over a route.
pub fn ruleset_params(profile: &ProxyProfile, route: &RouteContext) -> (r: RulesetParams)
    ensures
        r == params_of(*profile, *route),
{
    RulesetParams {
        iface: route.iface.clone(),
        proxy_ip: route.proxy_ip.clone(),
        proxy_port: profile.proxy.port,
        local: profile.local_network,
        ipv6: profile.routing.ipv6,
        kill_switch: profile.kill_switch.enabled,
        dns_proxied: profile.dns == DnsMode::Proxied,
        udp: profile.udp,
    }
}

/// A change of the ruleset: the script to load, and the parameters that are installed
/// once it was loaded.
pub struct RulesetChange {
    pub params: RulesetParams,
    pub script: String,
}

/// Whether `c` installs `params`.
pub open spec fn installs(c: RulesetChange, params: RulesetParams, tun: Seq<char>) -> bool {
    c.params == params && c.script@ == ruleset::script_text(params, tun)
}

/// Whether `r` is how the kill switch is armed or disarmed, given what is installed.
pub open spec fn is_switch(
    r: Result<Option<RulesetChange>, String>,
    applied: Option<RulesetParams>,
    armed: bool,
    tun: Seq<char>,
) -> bool {
    match r {
        Ok(Some(c)) => (applied matches Some(p) && ruleset::is_iface(p.iface@) && installs(
            c,
            RulesetParams { kill_switch: armed, ..p },
            tun,
        )),
        Ok(None) => applied is None && !armed,
        Err(_) => match applied {
            None => armed,
            Some(p) => !ruleset::is_iface(p.iface@),
        },
    }
}

/// The installed ruleset's parameters.
pub struct NftRules {
    applied: Option<RulesetParams>,
}

impl View for NftRules {
    type V = Option<RulesetParams>;

    closed spec fn view(&self) -> Option<RulesetParams> {
        self.applied
    }
}

impl NftRules {
    /// Nothing is installed.
    pub fn new() -> (r: NftRules)
        ensures
            r@ is None,
    {
        NftRules { applied: None }
    }

    /// The change that installs the rules for `profile` over `route`; `configured` is
    /// what `PROXYWIFI_TUN_ADDR` holds, if it is set.
    pub fn apply(&self, profile: &ProxyProfile, route: &RouteContext, configured: Option<&str>) -> (r:
        Result<RulesetChange, String>)
        ensures
            r is Ok <==> ruleset::is_iface(route.iface@),
            r matches Ok(c) ==> installs(
                c,
                params_of(*profile, *route),
                ruleset::tun_address(crate::text::opt_str(configured)),
            ),
            r matches Err(why) ==> why@ == ruleset::iface_refused(route.iface@),
    {
        let params = ruleset_params(profile, route);
        match ruleset::render_ruleset(&params, configured) {
            Ok(script) => Ok(RulesetChange { params, script }),
            Err(why) => Err(why),
        }
    }

    /// Note that a change was loaded.
    pub fn loaded(&mut self, change: RulesetChange)
        ensures
            final(self)@ == Some(change.params),
    {
        self.applied = Some(change.params);
    }

    /// Forget the installed ruleset; returns the script that removes it.
    pub fn remove(&mut self) -> (r: String)
        ensures
            final(self)@ is None,
            r@ == ruleset::clear_text(),
    {
        self.applied = None;
        ruleset::clear_script()
    }

    /// The change that arms or disarms the kill switch. Disarming where nothing is
    /// installed takes no change; arming there is refused.
    pub fn set_kill_switch(&self, armed: bool, configured: Option<&str>) -> (r: Result<
        Option<RulesetChange>,
        String,
    >)
        ensures
            is_switch(r, self@, armed, ruleset::tun_address(crate::text::opt_str(configured))),
            match self@ {
                None => if armed {
                    r matches Err(why) && why@
                        == "cannot arm the kill switch: no ruleset has been applied"@
                } else {
                    r matches Ok(None)
                },
                Some(p) => if ruleset::is_iface(p.iface@) {
                    r matches Ok(Some(c)) && installs(
                        c,
                        RulesetParams { kill_switch: armed, ..p },
                        ruleset::tun_address(crate::text::opt_str(configured)),
                    )
                } else {
                    r matches Err(why) && why@ == ruleset::iface_refused(p.iface@)
                },
            },
    {
        match &self.applied {
            Some(p) => {
                let mut params = p.clone();
                params.kill_switch = armed;
                match ruleset::render_ruleset(&params, configured) {
                    Ok(script) => Ok(Some(RulesetChange { params, script })),
                    Err(why) => Err(why),
                }
            },
            None => if armed {
                Err("cannot arm the kill switch: no ruleset has been applied".to_owned())
            } else {
                Ok(None)
            },
        }
    }
}

// ---------------------------------------------------------------------------
// Laws
// ---------------------------------------------------------------------------

/// The ruleset of a profile is for the proxy, the interface and the modes of that profile:
/// the kill switch is on just where the profile wants it, and DNS is redirected just where
/// the profile proxies it.
pub proof fn ruleset_is_for_the_profile(profile: ProxyProfile, route: RouteContext)
    ensures
        ({
            let p = params_of(profile, route);
            &&& p.iface@ == route.iface@
            &&& p.proxy_ip == route.proxy_ip
            &&& p.proxy_port == profile.proxy.port
            &&& p.kill_switch <==> profile.kill_switch.enabled
            &&& p.dns_proxied <==> profile.dns is Proxied
            &&& p.ipv6 <==> profile.routing.ipv6
            &&& p.udp == profile.udp
            &&& p.local == profile.local_network
        }),
{
}

/// Where a profile has the kill switch on, nothing leaves the Wi-Fi interface past its
/// rules but lease renewal, redirected DNS, traffic with the proxy, and the UDP and the
/// local networks that the profile reaches directly.
pub proof fn guarded_profile_does_not_leak(
    profile: ProxyProfile,
    route: RouteContext,
    tun: Seq<char>,
    k: Packet,
)
    requires
        profile.kill_switch.enabled,
        route.iface@ != "lo"@,
        route.iface@ != "pwtun0"@,
        k.oif == route.iface@,
        leaks::let_out(params_of(profile, route), tun, k),
    ensures
        ({
            let to_proxy = leaks::is_proxy(k.to, route.proxy_ip);
            ||| k.transport == Transport::Udp(67)
            ||| k.transport == Transport::Udp(547)
            ||| profile.dns is Proxied && leaks::is_tunnel(k.to, tun) && k.transport
                == Transport::Udp(5335)
            ||| to_proxy && k.transport == Transport::Tcp(profile.proxy.port)
            ||| to_proxy && profile.udp is Proxy && k.transport is Udp
            ||| profile.udp is Direct && k.to is V4 && k.transport is Udp && k.mark == 0x5057
            ||| profile.local_network is Direct && (leaks::is_local_v4(k.to) || leaks::is_local_v6(
                k.to,
            ))
        }),
{
    leaks::kill_switch_holds(params_of(profile, route), tun, k);
}

/// Arming or disarming the kill switch changes the kill switch of what is installed and
/// nothing else of it: the rules that are loaded then end in the one that drops the rest
/// just where it is armed. Where nothing is installed it cannot be armed, and disarming it
/// takes no change.
pub proof fn switching_changes_the_switch_only(
    r: Result<Option<RulesetChange>, String>,
    applied: Option<RulesetParams>,
    armed: bool,
    tun: Seq<char>,
)
    requires
        is_switch(r, applied, armed, tun),
        applied matches Some(p) ==> ruleset::is_iface(p.iface@),
    ensures
        r is Err <==> applied is None && armed,
        r matches Ok(change) ==> (change is Some <==> applied is Some),
        r matches Ok(Some(c)) ==> ({
            let p = applied->0;
            &&& c.params.kill_switch == armed
            &&& c.params == (RulesetParams { kill_switch: armed, ..p })
            &&& c.script@ == ruleset::script_text(c.params, tun)
            &&& ruleset::filter_rules(c.params).contains(ruleset::Rule::KillSwitchDrop) <==> armed
        }),
{
    if let Ok(Some(c)) = r {
        ruleset::modes_bring_their_rules(c.params);
    }
}

} // verus!
