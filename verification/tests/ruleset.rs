use proxywifi::addr::{parse_ipv4, ProxyAddr};
use proxywifi::dataplane::firewall::NftRules;
use proxywifi::dataplane::ruleset::{
    clear_script, iface_refusal, output_rules, render_ruleset, tun_addr, valid_iface, Rule,
    RulesetParams,
};
use proxywifi::models::{
    AuthMethod, DnsMode, IpVersionConfig, KillSwitchConfig, LocalNetMode, ProxyConfig, ProxyProfile,
    ProxyType, UdpMode,
};
use proxywifi::service::route::RouteContext;

fn params(local: LocalNetMode, ipv6: bool, kill_switch: bool) -> RulesetParams {
    RulesetParams {
        iface: "wlan0".into(),
        proxy_ip: parse_ipv4("10.0.0.1").unwrap(),
        proxy_port: 1080,
        local,
        ipv6,
        kill_switch,
        dns_proxied: true,
        udp: UdpMode::Proxy,
    }
}

fn profile() -> ProxyProfile {
    ProxyProfile {
        connection_uuid: "uuid-a".to_string(),
        label: None,
        enabled: true,
        proxy: ProxyConfig {
            proxy_type: ProxyType::Socks5,
            host: "10.0.0.1".to_string(),
            port: 1080,
            authentication: AuthMethod::NoAuth,
            secret_id: None,
        },
        dns: DnsMode::Proxied,
        routing: IpVersionConfig::default(),
        udp: UdpMode::default(),
        local_network: LocalNetMode::default(),
        kill_switch: KillSwitchConfig::default(),
        auto_connect: true,
    }
}

#[test]
fn kill_switch_drops_last_and_proxy_is_exempt_first() {
    let r = render_ruleset(&params(LocalNetMode::Direct, false, true), None).unwrap();
    let proxy = r.find("ip daddr 10.0.0.1 tcp dport 1080 accept").unwrap();
    let drop = r.rfind(r#"oifname "wlan0" drop"#).unwrap();
    assert!(proxy < drop);
    assert!(
        !render_ruleset(&params(LocalNetMode::Direct, true, false), None)
            .unwrap()
            .contains(r#"oifname "wlan0" drop"#)
    );
}

#[test]
fn udp_relay_of_the_proxy_is_exempt_from_the_kill_switch() {
    let r = render_ruleset(&params(LocalNetMode::Direct, false, true), None).unwrap();
    let relay = r.find("ip daddr 10.0.0.1 meta l4proto udp accept").unwrap();
    assert!(relay < r.rfind(r#"oifname "wlan0" drop"#).unwrap());
}

#[test]
fn redirected_dns_is_accepted_before_the_udp_reject() {
    let mut p = params(LocalNetMode::Direct, false, true);
    p.udp = UdpMode::Block;
    let r = render_ruleset(&p, None).unwrap();
    let dns = r.find("ip daddr 198.18.0.1 udp dport 5335 accept").unwrap();
    assert!(dns < r.find("meta l4proto udp reject").unwrap());
}

#[test]
fn hostile_interface_names_are_refused() {
    let mut p = params(LocalNetMode::Direct, false, true);
    p.iface = "wlan0\" accept #".into();
    assert!(render_ruleset(&p, None).is_err());
}

#[test]
fn whole_script_is_rendered() {
    let r = render_ruleset(&params(LocalNetMode::Direct, false, true), None).unwrap();
    assert_eq!(
        r,
        "add table inet proxywifi\n\
         delete table inet proxywifi\n\
         table inet proxywifi {\n\
         \x20   chain dns {\n\
         \x20       type nat hook output priority -100; policy accept;\n\
         \x20       oifname != \"lo\" meta nfproto ipv4 udp dport 53 dnat ip to 198.18.0.1:5335\n\
         \x20   }\n\
         \x20   chain output {\n\
         \x20       type filter hook output priority 0; policy accept;\n\
         \x20       oifname != \"lo\" meta nfproto ipv6 udp dport 53 drop\n\
         \x20       oifname \"lo\" accept\n\
         \x20       oifname \"wlan0\" udp dport { 67, 547 } accept\n\
         \x20       ip daddr 198.18.0.1 udp dport 5335 accept\n\
         \x20       oifname \"pwtun0\" accept\n\
         \x20       oifname \"wlan0\" ip daddr 10.0.0.1 tcp dport 1080 accept\n\
         \x20       oifname \"wlan0\" ip daddr 10.0.0.1 meta l4proto udp accept\n\
         \x20       oifname \"wlan0\" ip daddr { 10.0.0.0/8, 172.16.0.0/12, 192.168.0.0/16, 169.254.0.0/16 } accept\n\
         \x20       oifname \"wlan0\" ip6 daddr { fc00::/7, fe80::/10 } accept\n\
         \x20       oifname \"wlan0\" ip6 daddr != { fe80::/10, ff00::/8 } drop\n\
         \x20       oifname \"wlan0\" drop\n\
         \x20   }\n\
         }\n"
    );
}

#[test]
fn direct_udp_is_marked_and_blocked_local_networks_are_dropped() {
    let mut p = params(LocalNetMode::Block, true, false);
    p.udp = UdpMode::Direct;
    p.dns_proxied = false;
    p.proxy_ip = ProxyAddr::v6("2001:db8::1".to_string()).unwrap();
    let r = render_ruleset(&p, None).unwrap();
    assert_eq!(
        r,
        "add table inet proxywifi\n\
         delete table inet proxywifi\n\
         table inet proxywifi {\n\
         \x20   chain udp_direct {\n\
         \x20       type route hook output priority -150; policy accept;\n\
         \x20       meta nfproto ipv4 ip daddr != { 10.0.0.0/8, 172.16.0.0/12, 192.168.0.0/16, 169.254.0.0/16 } meta l4proto udp meta mark set 0x5057\n\
         \x20   }\n\
         \x20   chain output {\n\
         \x20       type filter hook output priority 0; policy accept;\n\
         \x20       oifname \"lo\" accept\n\
         \x20       oifname \"wlan0\" udp dport { 67, 547 } accept\n\
         \x20       meta nfproto ipv6 meta l4proto udp reject\n\
         \x20       oifname \"wlan0\" meta l4proto udp meta mark 0x5057 accept\n\
         \x20       oifname \"pwtun0\" accept\n\
         \x20       oifname \"wlan0\" ip6 daddr 2001:db8::1 tcp dport 1080 accept\n\
         \x20       oifname \"wlan0\" ip daddr { 10.0.0.0/8, 172.16.0.0/12, 192.168.0.0/16, 169.254.0.0/16 } drop\n\
         \x20       oifname \"wlan0\" ip6 daddr { fc00::/7, fe80::/10 } drop\n\
         \x20   }\n\
         }\n"
    );
    p.dns_proxied = true;
    assert!(render_ruleset(&p, None)
        .unwrap()
        .contains("udp dport != 53 meta l4proto udp meta mark set 0x5057"));
}

#[test]
fn interface_names_are_checked() {
    assert!(valid_iface("wlan0"));
    assert!(valid_iface("wlp3s0.10_a-b"));
    assert!(valid_iface("abcdefghijklmno"));
    assert!(!valid_iface("abcdefghijklmnop"));
    assert!(!valid_iface(""));
    assert!(!valid_iface("wl an0"));
    assert!(!valid_iface("wlän0"));
    let mut p = params(LocalNetMode::Direct, false, true);
    p.iface = "a\"b".into();
    assert_eq!(
        render_ruleset(&p, None).unwrap_err(),
        "refusing unusual interface name \"a\\\"b\""
    );
    assert_eq!(
        iface_refusal("\"x\""),
        "refusing unusual interface name \"x\""
    );
}

#[test]
fn tunnel_address_is_configurable() {
    assert_eq!(tun_addr(None), "198.18.0.1");
    assert_eq!(tun_addr(Some("10.77.0.1")), "10.77.0.1");
    assert_eq!(tun_addr(Some("255.255.255.255")), "255.255.255.255");
    for bad in [
        "", "10.77.0", "10.77.0.1.2", "10.77.0.256", "10.77.00.1", " 10.77.0.1", "::1", "a.b.c.d",
        "10..0.1", "1000.0.0.1", "+1.0.0.1",
    ] {
        assert_eq!(tun_addr(Some(bad)), "198.18.0.1", "{bad}");
    }
    let r = render_ruleset(
        &params(LocalNetMode::Direct, false, true),
        Some("10.77.0.1"),
    )
    .unwrap();
    assert!(r.contains("dnat ip to 10.77.0.1:5335"));
    assert!(r.contains("ip daddr 10.77.0.1 udp dport 5335 accept"));
}

#[test]
fn addresses_are_printed() {
    let v4 = parse_ipv4("192.168.0.12").unwrap();
    assert!(v4.is_ipv4());
    assert_eq!(v4.text(), "192.168.0.12");
    let v6 = ProxyAddr::v6("fe80::1".to_string()).unwrap();
    assert!(!v6.is_ipv4());
    assert_eq!(v6.text(), "fe80::1");
    assert!(ProxyAddr::v6("fe80::1 accept".to_string()).is_none());
    assert!(ProxyAddr::v6(String::new()).is_none());
}

#[test]
fn rules_are_in_order() {
    let rules = output_rules(&params(LocalNetMode::Proxy, true, true));
    assert_eq!(
        rules,
        vec![
            Rule::Ipv6DnsDrop,
            Rule::LoopbackAccept,
            Rule::DhcpAccept,
            Rule::ForwarderAccept,
            Rule::TunnelAccept,
            Rule::ProxyTcpAccept,
            Rule::ProxyUdpAccept,
            Rule::KillSwitchDrop,
        ]
    );
}

#[test]
fn firewall_remembers_what_it_installed() {
    let route = RouteContext {
        iface: "wlan0".to_string(),
        proxy_ip: parse_ipv4("10.0.0.1").unwrap(),
    };
    let mut rules = NftRules::new();
    assert!(rules.set_kill_switch(false, None).unwrap().is_none());
    assert_eq!(
        rules.set_kill_switch(true, None).err().unwrap(),
        "cannot arm the kill switch: no ruleset has been applied"
    );

    let change = rules.apply(&profile(), &route, None).ok().unwrap();
    assert!(change.script.contains("oifname \"wlan0\" drop"));
    rules.loaded(change);
    let off = rules.set_kill_switch(false, None).ok().unwrap().unwrap();
    assert!(!off.script.contains("oifname \"wlan0\" drop"));
    rules.loaded(off);
    let on = rules.set_kill_switch(true, None).ok().unwrap().unwrap();
    assert!(on.script.contains("oifname \"wlan0\" drop"));

    assert_eq!(rules.remove(), clear_script());
    assert_eq!(
        clear_script(),
        "add table inet proxywifi\ndelete table inet proxywifi\n"
    );
    assert!(rules.set_kill_switch(true, None).is_err());

    let hostile = RouteContext {
        iface: "a b".to_string(),
        proxy_ip: parse_ipv4("10.0.0.1").unwrap(),
    };
    assert!(rules.apply(&profile(), &hostile, None).is_err());
}
