//! The nftables ruleset.

use crate::addr;
use crate::addr::ProxyAddr;
use crate::models::{LocalNetMode, UdpMode};
use crate::text;
use vstd::prelude::*;

verus! {

/// Name of the tunnel device.
pub const TUN_NAME: &'static str = "pwtun0";

/// Address of the tunnel; the DNS forwarder listens there.
pub const DEFAULT_TUN_ADDR: &'static str = "198.18.0.1";

/// Port of the DNS forwarder. Not 53: something on the host may already hold it,
/// and the redirect works with any port.
pub const DNS_PORT: u16 = 5335;

/// Packet mark that sends UDP around the tunnel when UDP goes direct.
pub const DIRECT_MARK: u32 = 0x5057;

/// The address of the tunnel: the configured one where it is an IPv4 address.
pub open spec fn tun_address(configured: Option<Seq<char>>) -> Seq<char> {
    match configured {
        Some(a) => if addr::is_dotted(a) {
            a
        } else {
            DEFAULT_TUN_ADDR@
        },
        None => DEFAULT_TUN_ADDR@,
    }
}

/// The address of the tunnel, given what `PROXYWIFI_TUN_ADDR` holds, if it is set.
pub fn tun_addr(configured: Option<&str>) -> (r: String)
    ensures
        r@ == tun_address(text::opt_str(configured)),
{
    if let Some(a) = configured {
        if addr::parse_ipv4(a).is_some() {
            return a.to_owned();
        }
    }
    DEFAULT_TUN_ADDR.to_owned()
}

/// What the ruleset depends on.
#[derive(Debug)]
pub struct RulesetParams {
    /// The Wi-Fi interface.
    pub iface: String,
    pub proxy_ip: ProxyAddr,
    pub proxy_port: u16,
    pub local: LocalNetMode,
    pub ipv6: bool,
    pub kill_switch: bool,
    /// Redirect applications' UDP/53 to the DNS forwarder.
    pub dns_proxied: bool,
    pub udp: UdpMode,
}

impl Clone for RulesetParams {
    fn clone(&self) -> (r: Self)
        ensures
            r == *self,
    {
        RulesetParams {
            iface: self.iface.clone(),
            proxy_ip: self.proxy_ip.clone(),
            proxy_port: self.proxy_port,
            local: self.local,
            ipv6: self.ipv6,
            kill_switch: self.kill_switch,
            dns_proxied: self.dns_proxied,
            udp: self.udp,
        }
    }
}

// ---------------------------------------------------------------------------
// Interface names
// ---------------------------------------------------------------------------

/// A character that an interface name may hold.
pub open spec fn is_iface_char(c: char) -> bool {
    ||| '0' <= c <= '9'
    ||| 'a' <= c <= 'z'
    ||| 'A' <= c <= 'Z'
    ||| c == '_'
    ||| c == '-'
    ||| c == '.'
}

/// Interface names go into rule text, so only what the kernel allows in practice is
/// an interface name: one to fifteen letters, digits, underscores, hyphens and dots.
pub open spec fn is_iface(name: Seq<char>) -> bool {
    1 <= name.len() <= 15 && forall|i: int| 0 <= i < name.len() ==> is_iface_char(#[trigger] name[i])
}

/// Whether `name` is an interface name.
pub fn valid_iface(name: &str) -> (r: bool)
    ensures
        r == is_iface(name@),
{
    let chars = text::chars_of(name);
    if chars.len() < 1 || chars.len() > 15 {
        return false;
    }
    let mut i: usize = 0;
    while i < chars.len()
        invariant
            i <= chars@.len(),
            chars@ == name@,
            forall|j: int| 0 <= j < i ==> is_iface_char(#[trigger] name@[j]),
        decreases chars@.len() - i,
    {
        let c = chars[i];
        if !(('0' <= c && c <= '9') || ('a' <= c && c <= 'z') || ('A' <= c && c <= 'Z') || c == '_'
            || c == '-' || c == '.') {
            assert(!is_iface_char(name@[i as int]));
            return false;
        }
        i += 1;
    }
    true
}

// ---------------------------------------------------------------------------
// Rules
// ---------------------------------------------------------------------------

/// The rules that the output chain can hold.
#[derive(Debug, Clone, Copy, PartialEq, Eq, Structural)]
pub enum Rule {
    /// Plain IPv6 DNS cannot be redirected: it is dropped so that it cannot leak.
    Ipv6DnsDrop,
    LoopbackAccept,
    /// Lease renewal keeps working (DHCPv4 and DHCPv6 clients).
    DhcpAccept,
    /// Redirected DNS reaches the forwarder even where other UDP is rejected.
    ForwarderAccept,
    /// Answers with ICMP, so that QUIC and the like fall back to TCP at once.
    UdpReject,
    /// IPv6 UDP has no direct route and must not leak.
    Ipv6UdpReject,
    /// UDP marked for the direct route.
    MarkedUdpAccept,
    TunnelAccept,
    /// The proxy itself, which may live on the local network.
    ProxyTcpAccept,
    /// The proxy's UDP relay listens on a port that the proxy picks per session.
    ProxyUdpAccept,
    LocalV4Drop,
    LocalV6Drop,
    LocalV4Accept,
    LocalV6Accept,
    /// The tunnel carries IPv4 only: other IPv6 must not leak past it. Link-local and
    /// multicast addresses are still needed for the link to work.
    Ipv6Drop,
    KillSwitchDrop,
}

/// The rules that guard redirected DNS ahead of everything else.
pub open spec fn dns_guard(p: RulesetParams) -> Seq<Rule> {
    if p.dns_proxied {
        seq![Rule::Ipv6DnsDrop]
    } else {
        seq![]
    }
}

/// The rule that lets redirected DNS through.
pub open spec fn dns_rules(p: RulesetParams) -> Seq<Rule> {
    if p.dns_proxied {
        seq![Rule::ForwarderAccept]
    } else {
        seq![]
    }
}

/// The rules on UDP at large.
pub open spec fn udp_rules(p: RulesetParams) -> Seq<Rule> {
    match p.udp {
        UdpMode::Block => seq![Rule::UdpReject],
        UdpMode::Direct => seq![Rule::Ipv6UdpReject, Rule::MarkedUdpAccept],
        UdpMode::Proxy => seq![],
    }
}

/// The rule that exempts the proxy's UDP relay.
pub open spec fn relay_rules(p: RulesetParams) -> Seq<Rule> {
    if p.udp == UdpMode::Proxy {
        seq![Rule::ProxyUdpAccept]
    } else {
        seq![]
    }
}

/// The rules on local networks.
pub open spec fn local_rules(p: RulesetParams) -> Seq<Rule> {
    match p.local {
        LocalNetMode::Block => seq![Rule::LocalV4Drop, Rule::LocalV6Drop],
        LocalNetMode::Direct => seq![Rule::LocalV4Accept, Rule::LocalV6Accept],
        LocalNetMode::Proxy => seq![],
    }
}

/// The rules that end the chain: the IPv6 leak guard and the kill switch.
pub open spec fn last_rules(p: RulesetParams) -> Seq<Rule> {
    (if !p.ipv6 {
        seq![Rule::Ipv6Drop]
    } else {
        seq![]
    }) + (if p.kill_switch {
        seq![Rule::KillSwitchDrop]
    } else {
        seq![]
    })
}

/// The rules of the output chain, in order.
pub open spec fn filter_rules(p: RulesetParams) -> Seq<Rule> {
    dns_guard(p) + seq![Rule::LoopbackAccept, Rule::DhcpAccept] + dns_rules(p) + udp_rules(p) + seq![
        Rule::TunnelAccept,
        Rule::ProxyTcpAccept,
    ] + relay_rules(p) + local_rules(p) + last_rules(p)
}

fn one(rule: Rule) -> (r: Vec<Rule>)
    ensures
        r@ == seq![rule],
{
    let mut r: Vec<Rule> = Vec::new();
    r.push(rule);
    assert(r@ =~= seq![rule]);
    r
}

fn two(first: Rule, second: Rule) -> (r: Vec<Rule>)
    ensures
        r@ == seq![first, second],
{
    let mut r: Vec<Rule> = Vec::new();
    r.push(first);
    r.push(second);
    assert(r@ =~= seq![first, second]);
    r
}

fn one_if(rule: Rule, wanted: bool) -> (r: Vec<Rule>)
    ensures
        r@ == (if wanted {
            seq![rule]
        } else {
            seq![]
        }),
{
    if wanted {
        one(rule)
    } else {
        Vec::new()
    }
}

fn output_udp(p: &RulesetParams) -> (r: Vec<Rule>)
    ensures
        r@ == udp_rules(*p),
{
    match p.udp {
        UdpMode::Block => one(Rule::UdpReject),
        UdpMode::Direct => two(Rule::Ipv6UdpReject, Rule::MarkedUdpAccept),
        UdpMode::Proxy => Vec::new(),
    }
}

fn output_local(p: &RulesetParams) -> (r: Vec<Rule>)
    ensures
        r@ == local_rules(*p),
{
    match p.local {
        LocalNetMode::Block => two(Rule::LocalV4Drop, Rule::LocalV6Drop),
        LocalNetMode::Direct => two(Rule::LocalV4Accept, Rule::LocalV6Accept),
        LocalNetMode::Proxy => Vec::new(),
    }
}

/// The rules of the output chain, in order.
pub fn output_rules(p: &RulesetParams) -> (r: Vec<Rule>)
    ensures
        r@ == filter_rules(*p),
{
    let mut r = one_if(Rule::Ipv6DnsDrop, p.dns_proxied);
    r.append(&mut two(Rule::LoopbackAccept, Rule::DhcpAccept));
    r.append(&mut one_if(Rule::ForwarderAccept, p.dns_proxied));
    r.append(&mut output_udp(p));
    r.append(&mut two(Rule::TunnelAccept, Rule::ProxyTcpAccept));
    r.append(&mut one_if(Rule::ProxyUdpAccept, p.udp == UdpMode::Proxy));
    r.append(&mut output_local(p));
    let mut last = one_if(Rule::Ipv6Drop, !p.ipv6);
    last.append(&mut one_if(Rule::KillSwitchDrop, p.kill_switch));
    r.append(&mut last);
    r
}

/// A rule on what leaves `iface`.
pub open spec fn leaving(iface: Seq<char>, rest: Seq<char>) -> Seq<char> {
    "oifname \""@ + iface + "\" "@ + rest
}

/// The nft keyword for the proxy's address family.
pub open spec fn family(ip: ProxyAddr) -> Seq<char> {
    if ip is V4 {
        "ip"@
    } else {
        "ip6"@
    }
}

/// The text of a rule; `tun` is the address of the tunnel.
pub open spec fn rule_text(rule: Rule, p: RulesetParams, tun: Seq<char>) -> Seq<char> {
    let i = p.iface@;
    match rule {
        Rule::Ipv6DnsDrop => "oifname != \"lo\" meta nfproto ipv6 udp dport 53 drop"@,
        Rule::LoopbackAccept => "oifname \"lo\" accept"@,
        Rule::DhcpAccept => leaving(i, "udp dport { 67, 547 } accept"@),
        Rule::ForwarderAccept => "ip daddr "@ + tun + " udp dport 5335 accept"@,
        Rule::UdpReject => "meta l4proto udp reject"@,
        Rule::Ipv6UdpReject => "meta nfproto ipv6 meta l4proto udp reject"@,
        Rule::MarkedUdpAccept => leaving(i, "meta l4proto udp meta mark 0x5057 accept"@),
        Rule::TunnelAccept => leaving(TUN_NAME@, "accept"@),
        Rule::ProxyTcpAccept => leaving(
            i,
            family(p.proxy_ip) + " daddr "@ + p.proxy_ip.name() + " tcp dport "@
                + text::decimal_text(p.proxy_port as nat) + " accept"@,
        ),
        Rule::ProxyUdpAccept => leaving(
            i,
            family(p.proxy_ip) + " daddr "@ + p.proxy_ip.name() + " meta l4proto udp accept"@,
        ),
        Rule::LocalV4Drop => leaving(
            i,
            "ip daddr { 10.0.0.0/8, 172.16.0.0/12, 192.168.0.0/16, 169.254.0.0/16 } drop"@,
        ),
        Rule::LocalV6Drop => leaving(i, "ip6 daddr { fc00::/7, fe80::/10 } drop"@),
        Rule::LocalV4Accept => leaving(
            i,
            "ip daddr { 10.0.0.0/8, 172.16.0.0/12, 192.168.0.0/16, 169.254.0.0/16 } accept"@,
        ),
        Rule::LocalV6Accept => leaving(i, "ip6 daddr { fc00::/7, fe80::/10 } accept"@),
        Rule::Ipv6Drop => leaving(i, "ip6 daddr != { fe80::/10, ff00::/8 } drop"@),
        Rule::KillSwitchDrop => leaving(i, "drop"@),
    }
}

/// A rule on what leaves `iface`.
fn leaving_rule(iface: &str, rest: &str) -> (r: String)
    ensures
        r@ == leaving(iface@, rest@),
{
    let mut r = "oifname \"".to_owned();
    r.append(iface);
    r.append("\" ");
    r.append(rest);
    r
}

/// What a rule on the proxy's address says before its protocol.
fn to_proxy(p: &RulesetParams) -> (r: String)
    ensures
        r@ == family(p.proxy_ip) + " daddr "@ + p.proxy_ip.name(),
{
    let mut r = if p.proxy_ip.is_ipv4() {
        "ip".to_owned()
    } else {
        "ip6".to_owned()
    };
    r.append(" daddr ");
    r.append(p.proxy_ip.text().as_str());
    r
}

/// The text of a rule; `tun` is the address of the tunnel.
pub fn render_rule(rule: Rule, p: &RulesetParams, tun: &str) -> (r: String)
    ensures
        r@ == rule_text(rule, *p, tun@),
{
    let i = p.iface.as_str();
    match rule {
        Rule::Ipv6DnsDrop => "oifname != \"lo\" meta nfproto ipv6 udp dport 53 drop".to_owned(),
        Rule::LoopbackAccept => "oifname \"lo\" accept".to_owned(),
        Rule::DhcpAccept => leaving_rule(i, "udp dport { 67, 547 } accept"),
        Rule::ForwarderAccept => {
            let mut r = "ip daddr ".to_owned();
            r.append(tun);
            r.append(" udp dport 5335 accept");
            r
        },
        Rule::UdpReject => "meta l4proto udp reject".to_owned(),
        Rule::Ipv6UdpReject => "meta nfproto ipv6 meta l4proto udp reject".to_owned(),
        Rule::MarkedUdpAccept => leaving_rule(i, "meta l4proto udp meta mark 0x5057 accept"),
        Rule::TunnelAccept => leaving_rule(TUN_NAME, "accept"),
        Rule::ProxyTcpAccept => {
            let mut rest = to_proxy(p);
            rest.append(" tcp dport ");
            rest.append(text::decimal(p.proxy_port as u64).as_str());
            rest.append(" accept");
            leaving_rule(i, rest.as_str())
        },
        Rule::ProxyUdpAccept => {
            let mut rest = to_proxy(p);
            rest.append(" meta l4proto udp accept");
            leaving_rule(i, rest.as_str())
        },
        Rule::LocalV4Drop => leaving_rule(
            i,
            "ip daddr { 10.0.0.0/8, 172.16.0.0/12, 192.168.0.0/16, 169.254.0.0/16 } drop",
        ),
        Rule::LocalV6Drop => leaving_rule(i, "ip6 daddr { fc00::/7, fe80::/10 } drop"),
        Rule::LocalV4Accept => leaving_rule(
            i,
            "ip daddr { 10.0.0.0/8, 172.16.0.0/12, 192.168.0.0/16, 169.254.0.0/16 } accept",
        ),
        Rule::LocalV6Accept => leaving_rule(i, "ip6 daddr { fc00::/7, fe80::/10 } accept"),
        Rule::Ipv6Drop => leaving_rule(i, "ip6 daddr != { fe80::/10, ff00::/8 } drop"),
        Rule::KillSwitchDrop => leaving_rule(i, "drop"),
    }
}

// ---------------------------------------------------------------------------
// The script
// ---------------------------------------------------------------------------

/// The lines of the output chain.
pub open spec fn body_text(rules: Seq<Rule>, p: RulesetParams, tun: Seq<char>) -> Seq<char>
    decreases rules.len(),
{
    if rules.len() == 0 {
        Seq::empty()
    } else {
        body_text(rules.drop_last(), p, tun) + "        "@ + rule_text(rules.last(), p, tun) + "\n"@
    }
}

/// The chain that marks UDP for the direct route. DNS that is redirected is left out.
pub open spec fn mark_chain(p: RulesetParams) -> Seq<char> {
    if p.udp == UdpMode::Direct {
        "    chain udp_direct {\n        type route hook output priority -150; policy accept;\n        meta nfproto ipv4 ip daddr != { 10.0.0.0/8, 172.16.0.0/12, 192.168.0.0/16, 169.254.0.0/16 } "@
            + (if p.dns_proxied {
            "udp dport != 53 "@
        } else {
            ""@
        }) + "meta l4proto udp meta mark set 0x5057\n    }\n"@
    } else {
        ""@
    }
}

/// The chain that redirects DNS to the forwarder. It leaves alone what goes to a stub
/// resolver on the host; the stub's own queries are caught.
pub open spec fn dns_chain(p: RulesetParams, tun: Seq<char>) -> Seq<char> {
    if p.dns_proxied {
        "    chain dns {\n        type nat hook output priority -100; policy accept;\n        oifname != \"lo\" meta nfproto ipv4 udp dport 53 dnat ip to "@
            + tun + ":5335\n    }\n"@
    } else {
        ""@
    }
}

/// Adding, then deleting the table succeeds whether or not it exists.
pub open spec fn clear_text() -> Seq<char> {
    "add table inet proxywifi\ndelete table inet proxywifi\n"@
}

/// The whole script: drop any previous table, then define this one.
pub open spec fn script_text(p: RulesetParams, tun: Seq<char>) -> Seq<char> {
    clear_text() + "table inet proxywifi {\n"@ + mark_chain(p) + dns_chain(p, tun)
        + "    chain output {\n        type filter hook output priority 0; policy accept;\n"@
        + body_text(filter_rules(p), p, tun) + "    }\n}\n"@
}

/// Why the interface name `name` is refused.
pub open spec fn iface_refused(name: Seq<char>) -> Seq<char> {
    iface_refusal_text(text::debug_text(name))
}

/// Why an interface name is refused, given the name as it is shown in an error.
pub open spec fn iface_refusal_text(shown: Seq<char>) -> Seq<char> {
    "refusing unusual interface name "@ + shown
}

/// Why an interface name is refused, given the name as it is shown in an error.
pub fn iface_refusal(shown: &str) -> (r: String)
    ensures
        r@ == iface_refusal_text(shown@),
{
    let mut r = "refusing unusual interface name ".to_owned();
    r.append(shown);
    r
}

/// Why the interface name `name` is refused.
pub fn refuse_iface(name: &str) -> (r: String)
    ensures
        r@ == iface_refused(name@),
{
    iface_refusal(text::debug(name).as_str())
}

fn render_marks(p: &RulesetParams) -> (r: String)
    ensures
        r@ == mark_chain(*p),
{
    if p.udp == UdpMode::Direct {
        let mut r =
            "    chain udp_direct {\n        type route hook output priority -150; policy accept;\n        meta nfproto ipv4 ip daddr != { 10.0.0.0/8, 172.16.0.0/12, 192.168.0.0/16, 169.254.0.0/16 } ".to_owned();
        if p.dns_proxied {
            r.append("udp dport != 53 ");
        } else {
            r.append("");
        }
        r.append("meta l4proto udp meta mark set 0x5057\n    }\n");
        r
    } else {
        "".to_owned()
    }
}

fn render_dns(p: &RulesetParams, tun: &str) -> (r: String)
    ensures
        r@ == dns_chain(*p, tun@),
{
    if p.dns_proxied {
        let mut r =
            "    chain dns {\n        type nat hook output priority -100; policy accept;\n        oifname != \"lo\" meta nfproto ipv4 udp dport 53 dnat ip to ".to_owned();
        r.append(tun);
        r.append(":5335\n    }\n");
        r
    } else {
        "".to_owned()
    }
}

fn render_body(p: &RulesetParams, tun: &str) -> (r: String)
    ensures
        r@ == body_text(filter_rules(*p), *p, tun@),
{
    let rules = output_rules(p);
    let mut r = String::new();
    let mut i: usize = 0;
    assert(rules@.take(0) =~= Seq::<Rule>::empty());
    assert(r@ =~= Seq::<char>::empty());
    while i < rules.len()
        invariant
            i <= rules@.len(),
            r@ == body_text(rules@.take(i as int), *p, tun@),
        decreases rules@.len() - i,
    {
        proof {
            let seen = rules@.take(i + 1);
            assert(seen.drop_last() =~= rules@.take(i as int));
            assert(seen.last() == rules@[i as int]);
        }
        r.append("        ");
        r.append(render_rule(rules[i], p, tun).as_str());
        r.append("\n");
        i += 1;
    }
    assert(rules@.take(i as int) =~= rules@);
    r
}

/// The script that installs the ruleset, dropping any previous one; `configured` is
/// what `PROXYWIFI_TUN_ADDR` holds, if it is set.
pub fn render_ruleset(p: &RulesetParams, configured: Option<&str>) -> (r: Result<String, String>)
    ensures
        r is Ok <==> is_iface(p.iface@),
        r matches Ok(script) ==> script@ == script_text(*p, tun_address(text::opt_str(configured))),
        r matches Err(why) ==> why@ == iface_refused(p.iface@),
{
    if !valid_iface(p.iface.as_str()) {
        return Err(refuse_iface(p.iface.as_str()));
    }
    let tun = tun_addr(configured);
    let mut r = "add table inet proxywifi\ndelete table inet proxywifi\n".to_owned();
    r.append("table inet proxywifi {\n");
    r.append(render_marks(p).as_str());
    r.append(render_dns(p, tun.as_str()).as_str());
    r.append("    chain output {\n        type filter hook output priority 0; policy accept;\n");
    r.append(render_body(p, tun.as_str()).as_str());
    r.append("    }\n}\n");
    Ok(r)
}

/// The script that removes the table, whether or not it exists.
pub fn clear_script() -> (r: String)
    ensures
        r@ == clear_text(),
{
    "add table inet proxywifi\ndelete table inet proxywifi\n".to_owned()
}

// ---------------------------------------------------------------------------
// Laws
// ---------------------------------------------------------------------------

/// Whether `s` is a single word to nft: it holds nothing that ends a word, a quoted name,
/// a rule or a block, and starts no comment.
pub open spec fn is_word(s: Seq<char>) -> bool {
    s.len() > 0 && forall|i: int| 0 <= i < s.len() ==> is_word_char(#[trigger] s[i])
}

/// A letter, a digit, an underscore, a hyphen, a dot or a colon.
pub open spec fn is_word_char(c: char) -> bool {
    is_iface_char(c) || c == ':'
}

/// A dotted address is a single word.
pub proof fn dotted_is_a_word(a: u8, b: u8, c: u8, d: u8)
    ensures
        is_word(addr::dotted(a, b, c, d)),
{
    addr::decimal_reads_back(a as nat);
    addr::decimal_reads_back(b as nat);
    addr::decimal_reads_back(c as nat);
    addr::decimal_reads_back(d as nat);
    let s = addr::dotted(a, b, c, d);
    assert forall|i: int| 0 <= i < s.len() implies is_word_char(#[trigger] s[i]) by {
        let w = text::decimal_text(a as nat).push('.');
        let x = w + text::decimal_text(b as nat).push('.');
        let y = x + text::decimal_text(c as nat).push('.');
        if i < w.len() {
            assert(s[i] == w[i]);
            assert(i < w.len() - 1 ==> addr::is_digit(text::decimal_text(a as nat)[i]));
        } else if i < x.len() {
            let j = i - w.len();
            assert(s[i] == text::decimal_text(b as nat).push('.')[j]);
            assert(i < x.len() - 1 ==> addr::is_digit(text::decimal_text(b as nat)[j]));
        } else if i < y.len() {
            let j = i - x.len();
            assert(s[i] == text::decimal_text(c as nat).push('.')[j]);
            assert(i < y.len() - 1 ==> addr::is_digit(text::decimal_text(c as nat)[j]));
        } else {
            assert(addr::is_digit(text::decimal_text(d as nat)[i - y.len()]));
        }
    }
}

/// What a script takes from outside stays a single word in it: the interface name where
/// it is accepted, the proxy's address, and the address of the tunnel, whatever is
/// configured. So none of them can add a rule or change one.
pub proof fn names_stay_words(p: RulesetParams, configured: Option<Seq<char>>)
    requires
        is_iface(p.iface@),
        p.proxy_ip.wf(),
    ensures
        is_word(p.iface@),
        is_word(p.proxy_ip.name()),
        is_word(tun_address(configured)),
{
    if let ProxyAddr::V4(a, b, c, d) = p.proxy_ip {
        dotted_is_a_word(a, b, c, d);
    }
    let tun = tun_address(configured);
    if configured is Some && addr::is_dotted(configured->0) {
        let (a, b, c, d) = choose|a: u8, b: u8, c: u8, d: u8|
            tun == #[trigger] addr::dotted(a, b, c, d);
        dotted_is_a_word(a, b, c, d);
    } else {
        reveal_strlit("198.18.0.1");
        assert(tun =~= seq!['1', '9', '8', '.', '1', '8', '.', '0', '.', '1']);
    }
}

/// The address of the tunnel is the configured one, where that is an IPv4 address, and the
/// same one in every other case.
pub proof fn configured_address_is_used(a: u8, b: u8, c: u8, d: u8, other: Seq<char>)
    ensures
        tun_address(Some(addr::dotted(a, b, c, d))) == addr::dotted(a, b, c, d),
        !addr::is_dotted(other) ==> tun_address(Some(other)) == "198.18.0.1"@,
        tun_address(None) == "198.18.0.1"@,
{
    assert(addr::is_dotted(addr::dotted(a, b, c, d)));
}

/// An interface name is accepted just where it has one to fifteen characters, each an ASCII
/// letter or digit, an underscore, a hyphen or a dot.
pub proof fn interface_names_are_plain(name: Seq<char>)
    ensures
        is_iface(name) <==> 0 < name.len() < 16 && forall|i: int|
            0 <= i < name.len() ==> {
                let c = #[trigger] name[i];
                'a' <= c <= 'z' || 'A' <= c <= 'Z' || '0' <= c <= '9' || c == '_' || c == '-' || c
                    == '.'
            },
{
}

/// Whether the rules of a mode are in the chain is up to the mode alone: UDP is rejected
/// just where it is blocked, local networks are dropped just where they are blocked and let
/// through just where they are reached directly, and IPv6 is dropped just where the tunnel
/// does not carry it.
pub proof fn modes_bring_their_rules(p: RulesetParams)
    ensures
        filter_rules(p).contains(Rule::UdpReject) <==> p.udp is Block,
        filter_rules(p).contains(Rule::MarkedUdpAccept) <==> p.udp is Direct,
        filter_rules(p).contains(Rule::Ipv6UdpReject) <==> p.udp is Direct,
        filter_rules(p).contains(Rule::ProxyUdpAccept) <==> p.udp is Proxy,
        filter_rules(p).contains(Rule::LocalV4Drop) <==> p.local is Block,
        filter_rules(p).contains(Rule::LocalV6Drop) <==> p.local is Block,
        filter_rules(p).contains(Rule::LocalV4Accept) <==> p.local is Direct,
        filter_rules(p).contains(Rule::LocalV6Accept) <==> p.local is Direct,
        filter_rules(p).contains(Rule::Ipv6Drop) <==> !p.ipv6,
        filter_rules(p).contains(Rule::KillSwitchDrop) <==> p.kill_switch,
        filter_rules(p).contains(Rule::Ipv6DnsDrop) <==> p.dns_proxied,
        filter_rules(p).contains(Rule::ForwarderAccept) <==> p.dns_proxied,
{
    rule_stands_in(Rule::UdpReject, p);
    rule_stands_in(Rule::MarkedUdpAccept, p);
    rule_stands_in(Rule::Ipv6UdpReject, p);
    rule_stands_in(Rule::ProxyUdpAccept, p);
    rule_stands_in(Rule::LocalV4Drop, p);
    rule_stands_in(Rule::LocalV6Drop, p);
    rule_stands_in(Rule::LocalV4Accept, p);
    rule_stands_in(Rule::LocalV6Accept, p);
    rule_stands_in(Rule::Ipv6Drop, p);
    rule_stands_in(Rule::KillSwitchDrop, p);
    rule_stands_in(Rule::Ipv6DnsDrop, p);
    rule_stands_in(Rule::ForwarderAccept, p);
}

proof fn in_either(a: Seq<Rule>, b: Seq<Rule>, rule: Rule)
    ensures
        (a + b).contains(rule) <==> a.contains(rule) || b.contains(rule),
{
    if a.contains(rule) {
        let i = choose|i: int| 0 <= i < a.len() && a[i] == rule;
        assert((a + b)[i] == rule);
    }
    if b.contains(rule) {
        let i = choose|i: int| 0 <= i < b.len() && b[i] == rule;
        assert((a + b)[a.len() + i] == rule);
    }
    if (a + b).contains(rule) {
        let i = choose|i: int| 0 <= i < (a + b).len() && (a + b)[i] == rule;
        if i < a.len() {
            assert(a[i] == rule);
        } else {
            assert(b[i - a.len()] == rule);
        }
    }
}

proof fn rule_stands_in(rule: Rule, p: RulesetParams)
    ensures
        filter_rules(p).contains(rule) <==> dns_guard(p).contains(rule) || seq![
            Rule::LoopbackAccept,
            Rule::DhcpAccept,
        ].contains(rule) || dns_rules(p).contains(rule) || udp_rules(p).contains(rule) || seq![
            Rule::TunnelAccept,
            Rule::ProxyTcpAccept,
        ].contains(rule) || relay_rules(p).contains(rule) || local_rules(p).contains(rule)
            || last_rules(p).contains(rule),
        few(dns_guard(p), rule) && few(dns_rules(p), rule) && few(udp_rules(p), rule) && few(
            relay_rules(p),
            rule,
        ) && few(local_rules(p), rule) && few(last_rules(p), rule),
        few(seq![Rule::LoopbackAccept, Rule::DhcpAccept], rule),
        few(seq![Rule::TunnelAccept, Rule::ProxyTcpAccept], rule),
{
    let a = dns_guard(p);
    let b = a + seq![Rule::LoopbackAccept, Rule::DhcpAccept];
    let c = b + dns_rules(p);
    let d = c + udp_rules(p);
    let e = d + seq![Rule::TunnelAccept, Rule::ProxyTcpAccept];
    let f = e + relay_rules(p);
    let g = f + local_rules(p);
    in_either(a, seq![Rule::LoopbackAccept, Rule::DhcpAccept], rule);
    in_either(b, dns_rules(p), rule);
    in_either(c, udp_rules(p), rule);
    in_either(d, seq![Rule::TunnelAccept, Rule::ProxyTcpAccept], rule);
    in_either(e, relay_rules(p), rule);
    in_either(f, local_rules(p), rule);
    in_either(g, last_rules(p), rule);
}

/// Whether a list of at most two rules holds a rule, said of each place in it.
spec fn few(rules: Seq<Rule>, rule: Rule) -> bool {
    rules.contains(rule) <==> rules.len() > 0 && rules[0] == rule || rules.len() > 1 && rules[1] == rule
}

} // verus!
