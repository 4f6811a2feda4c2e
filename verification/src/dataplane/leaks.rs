//! What the ruleset lets out: a reading of the rules as nft applies them, and what
//! follows from it for every packet.

use crate::addr;
use crate::addr::ProxyAddr;
use crate::dataplane::ruleset;
use crate::dataplane::ruleset::{Rule, RulesetParams, DIRECT_MARK, DNS_PORT, TUN_NAME};
use crate::models::{LocalNetMode, UdpMode};
use vstd::prelude::*;

verus! {

/// Where a packet goes. An IPv6 destination is given by its first two bytes, which
/// tell the networks that the rules name, and by its printed form.
pub enum Destination {
    V4(u8, u8, u8, u8),
    V6(u8, u8, Seq<char>),
}

/// The transport protocol of a packet, with the destination port.
pub enum Transport {
    Tcp(u16),
    Udp(u16),
    Other,
}

/// A packet as it reaches the output chain.
pub struct Packet {
    /// The interface that it leaves by.
    pub oif: Seq<char>,
    pub to: Destination,
    pub transport: Transport,
    pub mark: u32,
}

/// 10.0.0.0/8, 172.16.0.0/12, 192.168.0.0/16 and 169.254.0.0/16.
pub open spec fn is_local_v4(d: Destination) -> bool {
    d matches Destination::V4(a, b, _, _) && (a == 10 || (a == 172 && 16 <= b < 32) || (a == 192
        && b == 168) || (a == 169 && b == 254))
}

/// fc00::/7 and fe80::/10.
pub open spec fn is_local_v6(d: Destination) -> bool {
    d matches Destination::V6(a, _, _) && (0xfc <= a <= 0xfd || is_link_local(d))
}

/// fe80::/10.
pub open spec fn is_link_local(d: Destination) -> bool {
    d matches Destination::V6(a, b, _) && a == 0xfe && 0x80 <= b < 0xc0
}

/// ff00::/8.
pub open spec fn is_multicast(d: Destination) -> bool {
    d matches Destination::V6(a, _, _) && a == 0xff
}

/// Whether `d` is the proxy.
pub open spec fn is_proxy(d: Destination, proxy: ProxyAddr) -> bool {
    match (d, proxy) {
        (Destination::V4(a, b, c, e), ProxyAddr::V4(w, x, y, z)) => a == w && b == x && c == y && e
            == z,
        (Destination::V6(_, _, printed), ProxyAddr::V6(t)) => printed == t@,
        _ => false,
    }
}

/// Whether `d` is the IPv4 address printed as `tun`.
pub open spec fn is_tunnel(d: Destination, tun: Seq<char>) -> bool {
    d matches Destination::V4(a, b, c, e) && addr::dotted(a, b, c, e) == tun
}

/// Whether a rule applies to a packet.
pub open spec fn applies(rule: Rule, p: RulesetParams, tun: Seq<char>, k: Packet) -> bool {
    match rule {
        Rule::Ipv6DnsDrop => k.oif != "lo"@ && k.to is V6 && k.transport == Transport::Udp(53),
        Rule::LoopbackAccept => k.oif == "lo"@,
        Rule::DhcpAccept => k.oif == p.iface@ && (k.transport == Transport::Udp(67) || k.transport
            == Transport::Udp(547)),
        Rule::ForwarderAccept => is_tunnel(k.to, tun) && k.transport == Transport::Udp(DNS_PORT),
        Rule::UdpReject => k.transport is Udp,
        Rule::Ipv6UdpReject => k.to is V6 && k.transport is Udp,
        Rule::MarkedUdpAccept => k.oif == p.iface@ && k.transport is Udp && k.mark == DIRECT_MARK,
        Rule::TunnelAccept => k.oif == TUN_NAME@,
        Rule::ProxyTcpAccept => k.oif == p.iface@ && is_proxy(k.to, p.proxy_ip) && k.transport
            == Transport::Tcp(p.proxy_port),
        Rule::ProxyUdpAccept => k.oif == p.iface@ && is_proxy(k.to, p.proxy_ip)
            && k.transport is Udp,
        Rule::LocalV4Drop | Rule::LocalV4Accept => k.oif == p.iface@ && is_local_v4(k.to),
        Rule::LocalV6Drop | Rule::LocalV6Accept => k.oif == p.iface@ && is_local_v6(k.to),
        Rule::Ipv6Drop => k.oif == p.iface@ && k.to is V6 && !is_link_local(k.to) && !is_multicast(
            k.to,
        ),
        Rule::KillSwitchDrop => k.oif == p.iface@,
    }
}

/// Whether a rule lets through what it applies to.
pub open spec fn accepts(rule: Rule) -> bool {
    match rule {
        Rule::LoopbackAccept
        | Rule::DhcpAccept
        | Rule::ForwarderAccept
        | Rule::MarkedUdpAccept
        | Rule::TunnelAccept
        | Rule::ProxyTcpAccept
        | Rule::ProxyUdpAccept
        | Rule::LocalV4Accept
        | Rule::LocalV6Accept => true,
        Rule::Ipv6DnsDrop
        | Rule::UdpReject
        | Rule::Ipv6UdpReject
        | Rule::LocalV4Drop
        | Rule::LocalV6Drop
        | Rule::Ipv6Drop
        | Rule::KillSwitchDrop => false,
    }
}

/// What the first rule that applies says of a packet; `None` when none applies.
pub open spec fn decision(rules: Seq<Rule>, p: RulesetParams, tun: Seq<char>, k: Packet) -> Option<
    bool,
>
    decreases rules.len(),
{
    if rules.len() == 0 {
        None
    } else if applies(rules[0], p, tun, k) {
        Some(accepts(rules[0]))
    } else {
        decision(rules.drop_first(), p, tun, k)
    }
}

/// Whether the output chain lets a packet out: the first rule that applies decides,
/// and what no rule applies to passes.
pub open spec fn let_out(p: RulesetParams, tun: Seq<char>, k: Packet) -> bool {
    decision(ruleset::filter_rules(p), p, tun, k) != Some(false)
}

/// Lease renewal over the Wi-Fi interface.
pub open spec fn is_lease_renewal(p: RulesetParams, k: Packet) -> bool {
    k.oif == p.iface@ && (k.transport == Transport::Udp(67) || k.transport == Transport::Udp(547))
}

/// A query that was redirected to the DNS forwarder.
pub open spec fn is_redirected_dns(p: RulesetParams, tun: Seq<char>, k: Packet) -> bool {
    p.dns_proxied && is_tunnel(k.to, tun) && k.transport == Transport::Udp(DNS_PORT)
}

/// Traffic with the proxy: its TCP port, and its UDP relay where UDP is proxied.
pub open spec fn is_proxy_traffic(p: RulesetParams, k: Packet) -> bool {
    is_proxy(k.to, p.proxy_ip) && (k.transport == Transport::Tcp(p.proxy_port) || (p.udp
        == UdpMode::Proxy && k.transport is Udp))
}

/// UDP that was marked for the direct route.
pub open spec fn is_direct_udp(p: RulesetParams, k: Packet) -> bool {
    p.udp == UdpMode::Direct && k.to is V4 && k.transport is Udp && k.mark == DIRECT_MARK
}

/// Traffic for a local network that the profile reaches directly.
pub open spec fn is_local_direct(p: RulesetParams, k: Packet) -> bool {
    p.local == LocalNetMode::Direct && (is_local_v4(k.to) || is_local_v6(k.to))
}

// ---------------------------------------------------------------------------
// Deciding part by part
// ---------------------------------------------------------------------------

spec fn first(a: Option<bool>, b: Option<bool>) -> Option<bool> {
    if a is Some {
        a
    } else {
        b
    }
}

proof fn decision_concat(a: Seq<Rule>, b: Seq<Rule>, p: RulesetParams, tun: Seq<char>, k: Packet)
    ensures
        decision(a + b, p, tun, k) == first(decision(a, p, tun, k), decision(b, p, tun, k)),
    decreases a.len(),
{
    if a.len() == 0 {
        assert(a + b =~= b);
    } else {
        assert((a + b)[0] == a[0]);
        assert((a + b).drop_first() =~= a.drop_first() + b);
        decision_concat(a.drop_first(), b, p, tun, k);
    }
}

spec fn decide(rule: Rule, p: RulesetParams, tun: Seq<char>, k: Packet) -> Option<bool> {
    if applies(rule, p, tun, k) {
        Some(accepts(rule))
    } else {
        None
    }
}

proof fn decision_small(r: Rule, s: Rule, p: RulesetParams, tun: Seq<char>, k: Packet)
    ensures
        decision(seq![r], p, tun, k) == decide(r, p, tun, k),
        decision(seq![r, s], p, tun, k) == first(decide(r, p, tun, k), decide(s, p, tun, k)),
{
    assert(seq![r].drop_first() =~= Seq::<Rule>::empty());
    assert(seq![r, s].drop_first() =~= seq![s]);
    assert(seq![s].drop_first() =~= Seq::<Rule>::empty());
    assert(decision(Seq::<Rule>::empty(), p, tun, k) is None);
    assert(decision(seq![s], p, tun, k) == decide(s, p, tun, k));
}

spec fn decide_if(wanted: bool, rule: Rule, p: RulesetParams, tun: Seq<char>, k: Packet) -> Option<
    bool,
> {
    if wanted {
        decide(rule, p, tun, k)
    } else {
        None
    }
}

/// The chain's decision, rule by rule.
spec fn chain_decision(p: RulesetParams, tun: Seq<char>, k: Packet) -> Option<bool> {
    let guard = decide_if(p.dns_proxied, Rule::Ipv6DnsDrop, p, tun, k);
    let lo = first(guard, decide(Rule::LoopbackAccept, p, tun, k));
    let dhcp = first(lo, decide(Rule::DhcpAccept, p, tun, k));
    let dns = first(dhcp, decide_if(p.dns_proxied, Rule::ForwarderAccept, p, tun, k));
    let block = first(dns, decide_if(p.udp == UdpMode::Block, Rule::UdpReject, p, tun, k));
    let v6 = first(block, decide_if(p.udp == UdpMode::Direct, Rule::Ipv6UdpReject, p, tun, k));
    let marked = first(v6, decide_if(p.udp == UdpMode::Direct, Rule::MarkedUdpAccept, p, tun, k));
    let tunnel = first(marked, decide(Rule::TunnelAccept, p, tun, k));
    let proxy = first(tunnel, decide(Rule::ProxyTcpAccept, p, tun, k));
    let relay = first(proxy, decide_if(p.udp == UdpMode::Proxy, Rule::ProxyUdpAccept, p, tun, k));
    let b4 = first(relay, decide_if(p.local == LocalNetMode::Block, Rule::LocalV4Drop, p, tun, k));
    let b6 = first(b4, decide_if(p.local == LocalNetMode::Block, Rule::LocalV6Drop, p, tun, k));
    let d4 = first(b6, decide_if(p.local == LocalNetMode::Direct, Rule::LocalV4Accept, p, tun, k));
    let d6 = first(d4, decide_if(p.local == LocalNetMode::Direct, Rule::LocalV6Accept, p, tun, k));
    let leak = first(d6, decide_if(!p.ipv6, Rule::Ipv6Drop, p, tun, k));
    first(leak, decide_if(p.kill_switch, Rule::KillSwitchDrop, p, tun, k))
}

proof fn chain_decides(p: RulesetParams, tun: Seq<char>, k: Packet)
    ensures
        decision(ruleset::filter_rules(p), p, tun, k) == chain_decision(p, tun, k),
{
    let none = Seq::<Rule>::empty();
    assert(decision(none, p, tun, k) is None);
    let open = seq![Rule::LoopbackAccept, Rule::DhcpAccept];
    let middle = seq![Rule::TunnelAccept, Rule::ProxyTcpAccept];
    let a = ruleset::dns_guard(p);
    let b = a + open;
    let c = b + ruleset::dns_rules(p);
    let d = c + ruleset::udp_rules(p);
    let e = d + middle;
    let f = e + ruleset::relay_rules(p);
    let g = f + ruleset::local_rules(p);
    decision_concat(a, open, p, tun, k);
    decision_concat(b, ruleset::dns_rules(p), p, tun, k);
    decision_concat(c, ruleset::udp_rules(p), p, tun, k);
    decision_concat(d, middle, p, tun, k);
    decision_concat(e, ruleset::relay_rules(p), p, tun, k);
    decision_concat(f, ruleset::local_rules(p), p, tun, k);
    decision_concat(g, ruleset::last_rules(p), p, tun, k);
    decision_concat(
        if !p.ipv6 {
            seq![Rule::Ipv6Drop]
        } else {
            seq![]
        },
        if p.kill_switch {
            seq![Rule::KillSwitchDrop]
        } else {
            seq![]
        },
        p,
        tun,
        k,
    );
    decision_small(Rule::Ipv6DnsDrop, Rule::Ipv6DnsDrop, p, tun, k);
    decision_small(Rule::LoopbackAccept, Rule::DhcpAccept, p, tun, k);
    decision_small(Rule::ForwarderAccept, Rule::ForwarderAccept, p, tun, k);
    decision_small(Rule::UdpReject, Rule::UdpReject, p, tun, k);
    decision_small(Rule::Ipv6UdpReject, Rule::MarkedUdpAccept, p, tun, k);
    decision_small(Rule::TunnelAccept, Rule::ProxyTcpAccept, p, tun, k);
    decision_small(Rule::ProxyUdpAccept, Rule::ProxyUdpAccept, p, tun, k);
    decision_small(Rule::LocalV4Drop, Rule::LocalV6Drop, p, tun, k);
    decision_small(Rule::LocalV4Accept, Rule::LocalV6Accept, p, tun, k);
    decision_small(Rule::Ipv6Drop, Rule::Ipv6Drop, p, tun, k);
    decision_small(Rule::KillSwitchDrop, Rule::KillSwitchDrop, p, tun, k);
}

// ---------------------------------------------------------------------------
// What holds of every packet
// ---------------------------------------------------------------------------

/// With the kill switch on, what leaves the Wi-Fi interface is lease renewal,
/// redirected DNS, traffic with the proxy, UDP that the profile sends directly, and
/// local networks that the profile reaches directly; nothing else.
pub proof fn kill_switch_holds(p: RulesetParams, tun: Seq<char>, k: Packet)
    requires
        p.kill_switch,
        p.iface@ != "lo"@,
        p.iface@ != TUN_NAME@,
        k.oif == p.iface@,
        let_out(p, tun, k),
    ensures
        is_lease_renewal(p, k) || is_redirected_dns(p, tun, k) || is_proxy_traffic(p, k)
            || is_direct_udp(p, k) || is_local_direct(p, k),
{
    chain_decides(p, tun, k);
}

/// The proxy's TCP port is always reachable over the Wi-Fi interface, wherever the
/// proxy lives and whatever else is blocked.
pub proof fn proxy_is_exempt(p: RulesetParams, tun: Seq<char>, k: Packet)
    requires
        k.oif == p.iface@,
        is_proxy(k.to, p.proxy_ip),
        k.transport == Transport::Tcp(p.proxy_port),
    ensures
        let_out(p, tun, k),
{
    chain_decides(p, tun, k);
}

/// Where UDP is proxied, the proxy's UDP relay is reachable over the Wi-Fi interface
/// (on port 53 only over IPv4 where DNS is proxied).
pub proof fn relay_is_exempt(p: RulesetParams, tun: Seq<char>, k: Packet)
    requires
        p.udp == UdpMode::Proxy,
        k.oif == p.iface@,
        is_proxy(k.to, p.proxy_ip),
        k.transport is Udp,
        !(p.dns_proxied && k.to is V6 && k.transport == Transport::Udp(53)),
    ensures
        let_out(p, tun, k),
{
    chain_decides(p, tun, k);
}

/// Where the tunnel carries no IPv6, what leaves the Wi-Fi interface over IPv6 is
/// link-local or multicast, lease renewal, traffic with the proxy, or a local network
/// that the profile reaches directly.
pub proof fn ipv6_does_not_leak(p: RulesetParams, tun: Seq<char>, k: Packet)
    requires
        !p.ipv6,
        p.iface@ != "lo"@,
        p.iface@ != TUN_NAME@,
        k.oif == p.iface@,
        k.to is V6,
        let_out(p, tun, k),
    ensures
        is_link_local(k.to) || is_multicast(k.to) || is_lease_renewal(p, k) || is_proxy_traffic(p, k)
            || is_local_direct(p, k),
{
    chain_decides(p, tun, k);
}

/// Where DNS is proxied, plain IPv6 DNS leaves by no interface but the loopback.
pub proof fn ipv6_dns_does_not_leak(p: RulesetParams, tun: Seq<char>, k: Packet)
    requires
        p.dns_proxied,
        k.oif != "lo"@,
        k.to is V6,
        k.transport == Transport::Udp(53),
    ensures
        !let_out(p, tun, k),
{
    chain_decides(p, tun, k);
}

/// Where DNS is proxied, redirected queries reach the forwarder, also where other UDP
/// is blocked.
pub proof fn redirected_dns_passes(p: RulesetParams, tun: Seq<char>, k: Packet)
    requires
        is_redirected_dns(p, tun, k),
    ensures
        let_out(p, tun, k),
{
    chain_decides(p, tun, k);
}

/// Where UDP is blocked, none leaves by any interface but the loopback, except lease
/// renewal and redirected DNS.
pub proof fn blocked_udp_does_not_leak(p: RulesetParams, tun: Seq<char>, k: Packet)
    requires
        p.udp == UdpMode::Block,
        k.transport is Udp,
        k.oif != "lo"@,
        let_out(p, tun, k),
    ensures
        is_lease_renewal(p, k) || is_redirected_dns(p, tun, k),
{
    chain_decides(p, tun, k);
}

/// Where local networks are blocked, none is reached over the Wi-Fi interface, except
/// for lease renewal, redirected DNS, the proxy, and UDP marked for the direct route.
pub proof fn blocked_local_does_not_leak(p: RulesetParams, tun: Seq<char>, k: Packet)
    requires
        p.local == LocalNetMode::Block,
        p.iface@ != "lo"@,
        p.iface@ != TUN_NAME@,
        k.oif == p.iface@,
        is_local_v4(k.to) || is_local_v6(k.to),
        let_out(p, tun, k),
    ensures
        is_lease_renewal(p, k) || is_redirected_dns(p, tun, k) || is_proxy_traffic(p, k)
            || is_direct_udp(p, k),
{
    chain_decides(p, tun, k);
}

/// Where local networks are reached directly, they are reached over the Wi-Fi interface,
/// also with the kill switch on, except by the UDP that the profile or the DNS guard
/// rejects.
pub proof fn direct_local_passes(p: RulesetParams, tun: Seq<char>, k: Packet)
    requires
        k.oif == p.iface@,
        is_local_direct(p, k),
        k.transport is Udp ==> p.udp != UdpMode::Block,
        k.transport is Udp && k.to is V6 ==> p.udp != UdpMode::Direct,
        k.transport == Transport::Udp(53) && k.to is V6 ==> !p.dns_proxied,
    ensures
        let_out(p, tun, k),
{
    chain_decides(p, tun, k);
}

/// With the kill switch on, not exempting local networks is the same as blocking them.
pub proof fn proxied_local_is_blocked_local(p: RulesetParams, tun: Seq<char>, k: Packet)
    requires
        p.kill_switch,
    ensures
        let_out(RulesetParams { local: LocalNetMode::Proxy, ..p }, tun, k) == let_out(
            RulesetParams { local: LocalNetMode::Block, ..p },
            tun,
            k,
        ),
{
    chain_decides(RulesetParams { local: LocalNetMode::Proxy, ..p }, tun, k);
    chain_decides(RulesetParams { local: LocalNetMode::Block, ..p }, tun, k);
}

/// Whether the chain that marks UDP marks a packet: IPv4 UDP that is not for a local
/// network, and not DNS where DNS is proxied.
pub open spec fn is_marked(p: RulesetParams, k: Packet) -> bool {
    &&& p.udp == UdpMode::Direct
    &&& k.to is V4
    &&& !is_local_v4(k.to)
    &&& k.transport is Udp
    &&& p.dns_proxied ==> k.transport != Transport::Udp(53)
}

/// A packet behind the chain that marks UDP.
pub open spec fn marked(p: RulesetParams, k: Packet) -> Packet {
    if is_marked(p, k) {
        Packet { mark: DIRECT_MARK, ..k }
    } else {
        k
    }
}

/// Where UDP goes direct, what is marked leaves by the Wi-Fi interface, also with the
/// kill switch on.
pub proof fn direct_udp_passes(p: RulesetParams, tun: Seq<char>, k: Packet)
    requires
        k.oif == p.iface@,
        is_marked(p, k),
    ensures
        let_out(p, tun, marked(p, k)),
{
    chain_decides(p, tun, marked(p, k));
}

/// Where UDP goes direct, IPv6 UDP leaves by no interface but the loopback, except lease
/// renewal.
pub proof fn direct_udp_has_no_ipv6(p: RulesetParams, tun: Seq<char>, k: Packet)
    requires
        p.udp == UdpMode::Direct,
        k.oif != "lo"@,
        k.to is V6,
        k.transport is Udp,
        let_out(p, tun, k),
    ensures
        is_lease_renewal(p, k),
{
    chain_decides(p, tun, k);
}

/// A packet behind the chain that redirects DNS to the forwarder at `tun`.
pub open spec fn redirected(p: RulesetParams, tun: (u8, u8, u8, u8), k: Packet) -> Packet {
    if p.dns_proxied && k.oif != "lo"@ && k.to is V4 && k.transport == Transport::Udp(53) {
        Packet {
            to: Destination::V4(tun.0, tun.1, tun.2, tun.3),
            transport: Transport::Udp(DNS_PORT),
            ..k
        }
    } else {
        k
    }
}

/// Where DNS is proxied, no plain DNS reaches a resolver past the proxy: over IPv4 it is
/// redirected to the forwarder, over IPv6 it is dropped, but for the loopback.
pub proof fn proxied_dns_does_not_leak(p: RulesetParams, tun: (u8, u8, u8, u8), k: Packet)
    requires
        p.dns_proxied,
        k.oif != "lo"@,
        k.transport == Transport::Udp(53),
    ensures
        ({
            let text = addr::dotted(tun.0, tun.1, tun.2, tun.3);
            let after = redirected(p, tun, k);
            if k.to is V4 {
                is_redirected_dns(p, text, after) && let_out(p, text, after)
            } else {
                !let_out(p, text, after)
            }
        }),
{
    let text = addr::dotted(tun.0, tun.1, tun.2, tun.3);
    chain_decides(p, text, redirected(p, tun, k));
}

/// Where DNS goes direct, nothing is intercepted: there is no chain that redirects it and
/// no rule on it.
pub proof fn direct_dns_is_left_alone(p: RulesetParams, tun: (u8, u8, u8, u8), k: Packet)
    requires
        !p.dns_proxied,
    ensures
        redirected(p, tun, k) == k,
        ruleset::dns_chain(p, addr::dotted(tun.0, tun.1, tun.2, tun.3)) == ""@,
        !ruleset::filter_rules(p).contains(Rule::Ipv6DnsDrop),
        !ruleset::filter_rules(p).contains(Rule::ForwarderAccept),
{
}

/// TCP into the tunnel always passes.
pub proof fn tunnel_is_open(p: RulesetParams, tun: Seq<char>, k: Packet)
    requires
        k.oif == TUN_NAME@,
        k.transport is Tcp,
    ensures
        let_out(p, tun, k),
{
    chain_decides(p, tun, k);
}

/// The kill switch is the last rule where it is on, and no rule where it is off.
pub proof fn kill_switch_is_last(p: RulesetParams)
    ensures
        p.kill_switch <==> ruleset::filter_rules(p).contains(Rule::KillSwitchDrop),
        p.kill_switch ==> ruleset::filter_rules(p).last() == Rule::KillSwitchDrop,
{
    let rules = ruleset::filter_rules(p);
    let last = ruleset::last_rules(p);
    if p.kill_switch {
        assert(last.last() == Rule::KillSwitchDrop);
        assert(rules[rules.len() - 1] == last[last.len() - 1]);
    }
}

/// Lease renewal passes over the Wi-Fi interface, whatever else is blocked: DHCP to port 67
/// and DHCPv6 to port 547.
pub proof fn lease_renewal_passes(p: RulesetParams, tun: Seq<char>, k: Packet)
    requires
        k.oif == p.iface@,
        k.transport == Transport::Udp(67) || k.transport == Transport::Udp(547),
    ensures
        let_out(p, tun, k),
{
    chain_decides(p, tun, k);
}

/// What goes to the host itself passes.
pub proof fn loopback_is_open(p: RulesetParams, tun: Seq<char>, k: Packet)
    requires
        k.oif == "lo"@,
    ensures
        let_out(p, tun, k),
{
    chain_decides(p, tun, k);
}

/// Without the kill switch, what is neither UDP, nor IPv6, nor for a local network passes
/// over every interface.
pub proof fn open_chain_lets_tcp_out(p: RulesetParams, tun: Seq<char>, k: Packet)
    requires
        !p.kill_switch,
        k.to is V4,
        !(k.transport is Udp),
        !is_local_v4(k.to),
    ensures
        let_out(p, tun, k),
{
    chain_decides(p, tun, k);
}

/// With the kill switch on, TCP to anywhere but the proxy and the local networks does not
/// leave the Wi-Fi interface.
pub proof fn kill_switch_stops_tcp(p: RulesetParams, tun: Seq<char>, k: Packet)
    requires
        p.kill_switch,
        p.iface@ != "lo"@,
        p.iface@ != TUN_NAME@,
        k.oif == p.iface@,
        k.transport is Tcp,
        !is_proxy(k.to, p.proxy_ip),
        !is_local_v4(k.to) && !is_local_v6(k.to),
    ensures
        !let_out(p, tun, k),
{
    chain_decides(p, tun, k);
}

/// The local IPv4 networks, as ranges of addresses: 10.0.0.0 to 10.255.255.255, 172.16.0.0
/// to 172.31.255.255, 192.168.0.0 to 192.168.255.255, and 169.254.0.0 to 169.254.255.255.
pub proof fn local_networks_are_ranges(a: u8, b: u8, c: u8, d: u8)
    ensures
        ({
            let n = a * 0x1000000 + b * 0x10000 + c * 0x100 + d;
            is_local_v4(Destination::V4(a, b, c, d)) <==> 0x0a000000 <= n <= 0x0affffff || 0xac100000
                <= n <= 0xac1fffff || 0xc0a80000 <= n <= 0xc0a8ffff || 0xa9fe0000 <= n
                <= 0xa9feffff
        }),
{
}

/// The IPv6 networks by the first sixteen bits of an address: fc00::/7, fe80::/10 and
/// ff00::/8.
pub proof fn ipv6_networks_are_ranges(a: u8, b: u8, shown: Seq<char>)
    ensures
        ({
            let (n, to) = (a * 256 + b, Destination::V6(a, b, shown));
            &&& is_link_local(to) <==> 0xfe80 <= n <= 0xfebf
            &&& is_multicast(to) <==> 0xff00 <= n <= 0xffff
            &&& is_local_v6(to) <==> 0xfc00 <= n <= 0xfdff || 0xfe80 <= n <= 0xfebf
        }),
{
}

/// Without the kill switch, link-local and multicast IPv6 passes over every interface unless
/// local networks are blocked, but for UDP: the link needs it.
pub proof fn link_stays_open(p: RulesetParams, tun: Seq<char>, k: Packet)
    requires
        !p.kill_switch,
        p.local != LocalNetMode::Block,
        is_link_local(k.to) || is_multicast(k.to),
        !(k.transport is Udp),
    ensures
        let_out(p, tun, k),
{
    chain_decides(p, tun, k);
}

/// Without the kill switch, IPv6 that the tunnel carries passes, but for UDP and local
/// networks.
pub proof fn carried_ipv6_passes(p: RulesetParams, tun: Seq<char>, k: Packet)
    requires
        !p.kill_switch,
        p.ipv6,
        k.to is V6,
        !is_local_v6(k.to),
        !(k.transport is Udp),
    ensures
        let_out(p, tun, k),
{
    chain_decides(p, tun, k);
}

/// Where UDP is proxied it passes into the tunnel, but for plain IPv6 DNS where DNS is
/// proxied.
pub proof fn proxied_udp_enters_the_tunnel(p: RulesetParams, tun: Seq<char>, k: Packet)
    requires
        p.udp == UdpMode::Proxy,
        k.oif == TUN_NAME@,
        k.transport is Udp,
        !(p.dns_proxied && k.to is V6 && k.transport == Transport::Udp(53)),
    ensures
        let_out(p, tun, k),
{
    chain_decides(p, tun, k);
}

/// Where UDP goes direct, all IPv4 UDP to other than local networks is marked, except DNS
/// where DNS is proxied, and it keeps everything else that it is; nothing is marked where
/// UDP does not go direct.
pub proof fn direct_udp_is_marked(p: RulesetParams, k: Packet, a: u8, b: u8, c: u8, d: u8)
    requires
        k.to == Destination::V4(a, b, c, d),
        a != 10 && a != 169 && a != 172 && a != 192,
        k.transport is Udp,
        k.transport != Transport::Udp(53) || !p.dns_proxied,
    ensures
        p.udp == UdpMode::Direct ==> marked(p, k) == (Packet { mark: 0x5057, ..k }),
        p.udp != UdpMode::Direct ==> marked(p, k) == k,
{
}

/// What is not UDP over IPv4 is never marked.
pub proof fn other_traffic_is_not_marked(p: RulesetParams, k: Packet)
    requires
        k.to is V6 || !(k.transport is Udp),
    ensures
        marked(p, k) == k,
{
}

} // verus!
