//! Building and tearing down the tunnel around `tun2socks`.

use crate::addr;
use crate::addr::ProxyAddr;
use crate::config;
use crate::config::FilePath;
use crate::dataplane::encode;
use crate::dataplane::leaks::Destination;
use crate::dataplane::nft;
use crate::dataplane::probe::Credentials;
use crate::dataplane::ruleset;
use crate::dataplane::ruleset::TUN_NAME;
use crate::models::ProxyProfile;
use crate::service::route::{RouteContext, RouteView};
use crate::text;
use vstd::prelude::*;

verus! {

/// How often the daemon looks for the device that `tun2socks` creates.
pub const LINK_ATTEMPTS: u32 = 30;

// ---------------------------------------------------------------------------
// tun2socks
// ---------------------------------------------------------------------------

/// The permission bits of the configuration of `tun2socks`. It holds the password of the
/// proxy, so it is for its owner only.
pub const CONFIG_MODE: u32 = 0o600;

/// Where the configuration of `tun2socks` is written, given the runtime directory.
pub fn config_path(run_dir: &FilePath) -> (r: FilePath)
    ensures
        r@ == config::entry(run_dir@, "tun2socks.yaml"@),
{
    run_dir.join("tun2socks.yaml")
}

/// The arguments of `tun2socks`, as the system takes them: they name its configuration and
/// say nothing else. Anyone can read the arguments of a process, so the password of the
/// proxy stands in the configuration alone.
pub fn engine_args(config: &FilePath) -> (r: Vec<FilePath>)
    ensures
        config::paths_view(r@) == seq![config::bytes_of("-config"@), config@],
{
    let flag = FilePath::of("-config");
    let r: Vec<FilePath> = vec![flag, config.clone()];
    assert(config::paths_view(r@) =~= seq![config::bytes_of("-config"@), config@]);
    r
}

// ---------------------------------------------------------------------------
// Commands
// ---------------------------------------------------------------------------

/// The texts of a list of string slices.
pub open spec fn strs(v: Seq<&str>) -> Seq<Seq<char>> {
    v.map_values(|s: &str| s@)
}

/// The arguments of a command.
fn args(parts: Vec<&str>) -> (r: Vec<String>)
    ensures
        text::texts(r@) == strs(parts@),
{
    let mut r: Vec<String> = Vec::new();
    let mut i: usize = 0;
    while i < parts.len()
        invariant
            i <= parts@.len(),
            r@.len() == i,
            forall|j: int| 0 <= j < i ==> (#[trigger] r@[j])@ == parts@[j]@,
        decreases parts@.len() - i,
    {
        r.push(parts[i].to_owned());
        i += 1;
    }
    assert(text::texts(r@) =~= strs(parts@));
    r
}

/// The `ip` commands that give the device its address and send both halves of the IPv4
/// address space into it.
pub open spec fn v4_commands(tun: Seq<char>) -> Seq<Seq<Seq<char>>> {
    seq![
        seq!["addr"@, "add"@, tun + "/30"@, "dev"@, TUN_NAME@],
        seq!["link"@, "set"@, TUN_NAME@, "up"@],
        seq!["route"@, "add"@, "0.0.0.0/1"@, "dev"@, TUN_NAME@],
        seq!["route"@, "add"@, "128.0.0.0/1"@, "dev"@, TUN_NAME@],
    ]
}

/// The same for IPv6.
pub open spec fn v6_commands() -> Seq<Seq<Seq<char>>> {
    seq![
        seq!["-6"@, "addr"@, "add"@, "fd00:5057::1/64"@, "dev"@, TUN_NAME@],
        seq!["-6"@, "route"@, "add"@, "::/1"@, "dev"@, TUN_NAME@],
        seq!["-6"@, "route"@, "add"@, "8000::/1"@, "dev"@, TUN_NAME@],
    ]
}

/// The commands that every tunnel takes.
pub open spec fn tunnel_commands(tun: Seq<char>, ipv6: bool) -> Seq<Seq<Seq<char>>> {
    v4_commands(tun) + if ipv6 {
        v6_commands()
    } else {
        seq![]
    }
}

/// The commands that route marked UDP around the tunnel, over `iface` and through
/// `gateway` where its default route has one.
pub open spec fn direct_commands(iface: Seq<char>, gateway: Option<Seq<char>>) -> Seq<
    Seq<Seq<char>>,
> {
    seq![
        seq!["route"@, "replace"@, "default"@] + (match gateway {
            Some(g) => seq!["via"@, g],
            None => seq![],
        }) + seq!["dev"@, iface, "table"@, "20567"@],
        seq!["rule"@, "add"@, "fwmark"@, "0x5057"@, "lookup"@, "20567"@, "priority"@, "20567"@],
    ]
}

fn list_v4_commands(tun: &str) -> (r: Vec<Vec<String>>)
    ensures
        text::rows(r@) == v4_commands(tun@),
{
    let mut net = tun.to_owned();
    net.append("/30");
    let a = args(vec!["addr", "add", net.as_str(), "dev", TUN_NAME]);
    let b = args(vec!["link", "set", TUN_NAME, "up"]);
    let c = args(vec!["route", "add", "0.0.0.0/1", "dev", TUN_NAME]);
    let d = args(vec!["route", "add", "128.0.0.0/1", "dev", TUN_NAME]);
    proof {
        assert(text::texts(a@) =~= seq!["addr"@, "add"@, tun@ + "/30"@, "dev"@, TUN_NAME@]);
        assert(text::texts(b@) =~= seq!["link"@, "set"@, TUN_NAME@, "up"@]);
        assert(text::texts(c@) =~= seq!["route"@, "add"@, "0.0.0.0/1"@, "dev"@, TUN_NAME@]);
        assert(text::texts(d@) =~= seq!["route"@, "add"@, "128.0.0.0/1"@, "dev"@, TUN_NAME@]);
    }
    let r: Vec<Vec<String>> = vec![a, b, c, d];
    assert(text::rows(r@) =~= v4_commands(tun@));
    r
}

fn list_v6_commands() -> (r: Vec<Vec<String>>)
    ensures
        text::rows(r@) == v6_commands(),
{
    let a = args(vec!["-6", "addr", "add", "fd00:5057::1/64", "dev", TUN_NAME]);
    let b = args(vec!["-6", "route", "add", "::/1", "dev", TUN_NAME]);
    let c = args(vec!["-6", "route", "add", "8000::/1", "dev", TUN_NAME]);
    proof {
        assert(text::texts(a@) =~= seq![
            "-6"@,
            "addr"@,
            "add"@,
            "fd00:5057::1/64"@,
            "dev"@,
            TUN_NAME@,
        ]);
        assert(text::texts(b@) =~= seq!["-6"@, "route"@, "add"@, "::/1"@, "dev"@, TUN_NAME@]);
        assert(text::texts(c@) =~= seq!["-6"@, "route"@, "add"@, "8000::/1"@, "dev"@, TUN_NAME@]);
    }
    let r: Vec<Vec<String>> = vec![a, b, c];
    assert(text::rows(r@) =~= v6_commands());
    r
}

/// The commands that every tunnel takes.
pub(crate) fn list_tunnel_commands(tun: &str, ipv6: bool) -> (r: Vec<Vec<String>>)
    ensures
        text::rows(r@) == tunnel_commands(tun@, ipv6),
{
    let mut r = list_v4_commands(tun);
    let ghost first = r@;
    if ipv6 {
        let mut more = list_v6_commands();
        let ghost second = more@;
        r.append(&mut more);
        assert(text::rows(first + second) =~= text::rows(first) + text::rows(second));
    } else {
        assert(v4_commands(tun@) + Seq::<Seq<Seq<char>>>::empty() =~= v4_commands(tun@));
    }
    r
}

/// The commands that route marked UDP around the tunnel.
pub(crate) fn list_direct_commands(iface: &str, gateway: Option<&String>) -> (r: Vec<Vec<String>>)
    ensures
        text::rows(r@) == direct_commands(
            iface@,
            match gateway {
                Some(g) => Some(g@),
                None => None,
            },
        ),
{
    let route = match gateway {
        Some(g) => args(
            vec![
                "route", "replace", "default", "via", g.as_str(), "dev", iface, "table", "20567",
            ],
        ),
        None => args(vec!["route", "replace", "default", "dev", iface, "table", "20567"]),
    };
    let rule = args(
        vec!["rule", "add", "fwmark", "0x5057", "lookup", "20567", "priority", "20567"],
    );
    let ghost via = match gateway {
        Some(g) => seq!["via"@, g@],
        None => seq![],
    };
    proof {
        assert(text::texts(route@) =~= seq!["route"@, "replace"@, "default"@] + via + seq![
            "dev"@,
            iface@,
            "table"@,
            "20567"@,
        ]);
        assert(text::texts(rule@) =~= seq![
            "rule"@,
            "add"@,
            "fwmark"@,
            "0x5057"@,
            "lookup"@,
            "20567"@,
            "priority"@,
            "20567"@,
        ]);
    }
    let r: Vec<Vec<String>> = vec![route, rule];
    assert(text::rows(r@) =~= direct_commands(
        iface@,
        match gateway {
            Some(g) => Some(g@),
            None => None,
        },
    ));
    r
}

/// The `ip` commands that remove what a dead tunnel may have left behind. The device
/// and its routes vanish with `tun2socks`; each of these may fail.
pub open spec fn teardown() -> Seq<Seq<Seq<char>>> {
    seq![
        seq!["link"@, "del"@, TUN_NAME@],
        seq!["rule"@, "del"@, "priority"@, "20567"@],
        seq!["route"@, "flush"@, "table"@, "20567"@],
    ]
}

/// The `ip` commands that remove what a dead tunnel may have left behind.
pub fn teardown_commands() -> (r: Vec<Vec<String>>)
    ensures
        text::rows(r@) == teardown(),
{
    let a = args(vec!["link", "del", TUN_NAME]);
    let b = args(vec!["rule", "del", "priority", "20567"]);
    let c = args(vec!["route", "flush", "table", "20567"]);
    proof {
        assert(text::texts(a@) =~= seq!["link"@, "del"@, TUN_NAME@]);
        assert(text::texts(b@) =~= seq!["rule"@, "del"@, "priority"@, "20567"@]);
        assert(text::texts(c@) =~= seq!["route"@, "flush"@, "table"@, "20567"@]);
    }
    let r: Vec<Vec<String>> = vec![a, b, c];
    assert(text::rows(r@) =~= teardown());
    r
}

/// The `ip` command that succeeds once the device exists.
pub fn show_link_command() -> (r: Vec<String>)
    ensures
        text::texts(r@) == seq!["link"@, "show"@, "dev"@, TUN_NAME@],
{
    let r = args(vec!["link", "show", "dev", TUN_NAME]);
    assert(text::texts(r@) =~= seq!["link"@, "show"@, "dev"@, TUN_NAME@]);
    r
}

/// The `ip` command that prints the default route of `iface`.
pub fn show_route_command(iface: &str) -> (r: Vec<String>)
    ensures
        text::texts(r@) == seq!["route"@, "show"@, "default"@, "dev"@, iface@],
{
    let r = args(vec!["route", "show", "default", "dev", iface]);
    assert(text::texts(r@) =~= seq!["route"@, "show"@, "default"@, "dev"@, iface@]);
    r
}

/// The word after the first `key` of a list of words.
pub open spec fn word_after(words: Seq<Seq<char>>, key: Seq<char>) -> Option<Seq<char>>
    decreases words.len(),
{
    if words.len() == 0 {
        None
    } else if words[0] == key {
        if words.len() > 1 {
            Some(words[1])
        } else {
            None
        }
    } else {
        word_after(words.drop_first(), key)
    }
}

/// The gateway in the text of a default route: the word after `via`.
pub fn gateway_in(routes: &str) -> (r: Option<String>)
    ensures
        crate::models::opt_text(r) == word_after(text::words_text(routes@), "via"@),
{
    let words = text::split_whitespace(routes);
    let ghost all = text::texts(words@);
    assert(all.len() == words@.len());
    assert(all.skip(0) =~= all);
    let mut i: usize = 0;
    while i < words.len()
        invariant
            i <= words@.len(),
            all == text::texts(words@),
            all == text::words_text(routes@),
            word_after(all, "via"@) == word_after(all.skip(i as int), "via"@),
        decreases words@.len() - i,
    {
        proof {
            assert(all.skip(i as int)[0] == words@[i as int]@);
            assert(all.skip(i as int).drop_first() =~= all.skip(i + 1));
        }
        if text::same_text(words[i].as_str(), "via") {
            if i < words.len() - 1 {
                assert(all.skip(i as int)[1] == words@[i + 1]@);
                return Some(words[i + 1].clone());
            }
            return None;
        }
        i += 1;
    }
    None
}

/// The gateway of a default route, given what `ip` printed.
pub fn gateway_of(output: &[u8]) -> (r: Option<String>)
    ensures
        crate::models::opt_text(r) == word_after(
            text::words_text(text::shown_text(output@)),
            "via"@,
        ),
{
    let routes = text::decode(output);
    gateway_in(routes.as_str())
}

/// Why a command that ran counts as failed.
pub open spec fn failure_text(program: Seq<char>, args: Seq<Seq<char>>, stderr: Seq<char>) -> Seq<
    char,
> {
    program + " "@ + text::joined(args, " "@) + " failed: "@ + text::trimmed(stderr)
}

/// Why a command that ran counts as failed, given the text that it printed.
pub fn command_failure_text(program: &str, args: &Vec<String>, stderr: &str) -> (r: String)
    ensures
        r@ == failure_text(program@, text::texts(args@), stderr@),
{
    let mut r = program.to_owned();
    r.append(" ");
    r.append(text::join(args, " ").as_str());
    r.append(" failed: ");
    r.append(text::trim(stderr).as_str());
    r
}

/// Why a command that ran counts as failed, given what it printed.
pub fn command_failure(program: &str, args: &Vec<String>, stderr: &[u8]) -> (r: String)
    ensures
        r@ == failure_text(program@, text::texts(args@), text::shown_text(stderr@)),
{
    let printed = text::decode(stderr);
    command_failure_text(program, args, printed.as_str())
}

/// Why a command could not be run.
pub fn spawn_failure(program: &str, error: &str) -> (r: String)
    ensures
        r@ == "could not run "@ + program@ + ": "@ + error@,
{
    let mut r = "could not run ".to_owned();
    r.append(program);
    r.append(": ");
    r.append(error);
    r
}

// ---------------------------------------------------------------------------
// The configuration of tun2socks
// ---------------------------------------------------------------------------

/// The credentials in a proxy URL.
pub open spec fn url_auth(creds: Option<Credentials>) -> Seq<char> {
    match creds {
        Some(c) => encode::pct_text(vstd::utf8::encode_utf8(c.username@)) + ":"@ + encode::pct_text(
            vstd::utf8::encode_utf8(c.password@),
        ) + "@"@,
        None => ""@,
    }
}

/// An address in a proxy URL.
pub open spec fn url_host(ip: ProxyAddr) -> Seq<char> {
    if ip is V4 {
        ip.name()
    } else {
        "["@ + ip.name() + "]"@
    }
}

/// The configuration of `tun2socks`. It, and no command line, carries the password.
pub open spec fn config_text(profile: ProxyProfile, route: RouteView, creds: Option<Credentials>) -> Seq<
    char,
> {
    "device: tun://"@ + TUN_NAME@ + "\nproxy: "@ + profile.proxy.proxy_type.name() + "://"@
        + url_auth(creds) + url_host(route.proxy_ip) + ":"@ + text::decimal_text(
        profile.proxy.port as nat,
    ) + "\ninterface: "@ + route.iface + "\nloglevel: info\n"@
}

fn render_auth(creds: Option<&Credentials>) -> (r: String)
    ensures
        r@ == url_auth(
            match creds {
                Some(c) => Some(*c),
                None => None,
            },
        ),
{
    match creds {
        Some(c) => {
            let mut r = encode::pct(c.username.as_str());
            r.append(":");
            r.append(encode::pct(c.password.as_str()).as_str());
            r.append("@");
            r
        },
        None => "".to_owned(),
    }
}

fn render_host(ip: &ProxyAddr) -> (r: String)
    ensures
        r@ == url_host(*ip),
{
    if ip.is_ipv4() {
        ip.text()
    } else {
        let mut r = "[".to_owned();
        r.append(ip.text().as_str());
        r.append("]");
        r
    }
}

/// The configuration of `tun2socks`; refused for an unusual interface name.
pub fn render_config(profile: &ProxyProfile, route: &RouteContext, creds: Option<&Credentials>) -> (r:
    Result<String, String>)
    ensures
        r is Ok <==> ruleset::is_iface(route.iface@),
        r matches Ok(yaml) ==> yaml@ == config_text(
            *profile,
            route@,
            match creds {
                Some(c) => Some(*c),
                None => None,
            },
        ),
        r matches Err(why) ==> why@ == ruleset::iface_refused(route.iface@),
{
    if !ruleset::valid_iface(route.iface.as_str()) {
        return Err(ruleset::refuse_iface(route.iface.as_str()));
    }
    let mut r = "device: tun://".to_owned();
    r.append(TUN_NAME);
    r.append("\nproxy: ");
    r.append(profile.proxy.proxy_type.text().as_str());
    r.append("://");
    r.append(render_auth(creds).as_str());
    r.append(render_host(&route.proxy_ip).as_str());
    r.append(":");
    r.append(text::decimal(profile.proxy.port as u64).as_str());
    r.append("\ninterface: ");
    r.append(route.iface.as_str());
    r.append("\nloglevel: info\n");
    Ok(r)
}

// ---------------------------------------------------------------------------
// Laws
// ---------------------------------------------------------------------------

proof fn first_bit(a: nat, b: nat)
    requires
        a < 256,
        b < 256,
    ensures
        (a * 256 + b) / 0x8000 == a / 128,
{
}

proof fn halves(to: Destination)
    ensures
        nft::is_at("0.0.0.0/1"@, to) <==> (to matches Destination::V4(a, _, _, _) && a < 128),
        nft::is_at("128.0.0.0/1"@, to) <==> (to matches Destination::V4(a, _, _, _) && a >= 128),
        nft::is_at("::/1"@, to) <==> (to matches Destination::V6(a, _, _) && a < 128),
        nft::is_at("8000::/1"@, to) <==> (to matches Destination::V6(a, _, _) && a >= 128),
{
    reveal_with_fuel(text::decimal_text, 4);
    reveal_with_fuel(nft::two_to, 32);
    reveal_with_fuel(nft::hex_number, 5);
    reveal_strlit("0.0.0.0/1");
    reveal_strlit("128.0.0.0/1");
    reveal_strlit("::/1");
    reveal_strlit("8000::/1");
    reveal_strlit("8000");
    assert("0.0.0.0/1"@ =~= addr::dotted(0, 0, 0, 0).push('/') + text::decimal_text(1));
    assert("128.0.0.0/1"@ =~= addr::dotted(128, 0, 0, 0).push('/') + text::decimal_text(1));
    let none = Seq::<char>::empty();
    assert("::/1"@ =~= none + seq![':', ':', '/'] + text::decimal_text(1));
    assert("8000::/1"@ =~= "8000"@ + seq![':', ':', '/'] + text::decimal_text(1));
    nft::network_v4(0, 0, 0, 0, 1, to);
    nft::network_v4(128, 0, 0, 0, 1, to);
    nft::network_v6(none, 1, to);
    nft::network_v6("8000"@, 1, to);
    assert(nft::two_to(31) == 0x80000000);
    assert(nft::two_to(15) == 0x8000);
    assert(nft::hex_number("8000"@) == 0x8000);
    assert(nft::hex_number(none) == 0);
    if let Destination::V4(a, b, c, d) = to {
        let n = nft::number_of(a as nat, b as nat, c as nat, d as nat);
        assert(n / nft::two_to(31) == n / 0x80000000);
        assert(n / 0x80000000 == a as nat / 128);
        assert(nft::number_of(0, 0, 0, 0) / nft::two_to(31) == 0);
        assert(nft::number_of(128, 0, 0, 0) / nft::two_to(31) == nft::number_of(128, 0, 0, 0)
            / 0x80000000);
    }
    if let Destination::V6(a, b, _) = to {
        let n = a as nat * 256 + b as nat;
        assert(n / nft::two_to(15) == n / 0x8000);
        first_bit(a as nat, b as nat);
        assert(0nat / nft::two_to(15) == 0nat / 0x8000);
        assert(0x8000nat / nft::two_to(15) == 0x8000nat / 0x8000);
    }
}

/// Every IPv4 address has just one of the routes into the tunnel, and, where the tunnel
/// carries IPv6, so has every IPv6 address.
pub proof fn every_address_goes_into_the_tunnel(tun: Seq<char>, to: Destination)
    ensures
        ({
            let commands = tunnel_commands(tun, true);
            &&& commands[2] == seq!["route"@, "add"@, commands[2][2], "dev"@, "pwtun0"@]
            &&& commands[3] == seq!["route"@, "add"@, commands[3][2], "dev"@, "pwtun0"@]
            &&& commands[5] == seq!["-6"@, "route"@, "add"@, commands[5][3], "dev"@, "pwtun0"@]
            &&& commands[6] == seq!["-6"@, "route"@, "add"@, commands[6][3], "dev"@, "pwtun0"@]
            &&& to is V4 ==> nft::is_at(commands[2][2], to) != nft::is_at(commands[3][2], to)
            &&& to is V6 ==> nft::is_at(commands[5][3], to) != nft::is_at(commands[6][3], to)
            &&& tunnel_commands(tun, false) == commands.take(4)
        }),
{
    halves(to);
    let commands = tunnel_commands(tun, true);
    assert(commands[5] == v6_commands()[1]);
    assert(commands[6] == v6_commands()[2]);
    assert(tunnel_commands(tun, false) =~= commands.take(4));
}

/// The device gets the address of the tunnel and is brought up before anything is routed
/// into it.
pub proof fn device_is_up_before_the_routes(tun: Seq<char>)
    ensures
        v4_commands(tun)[0] == seq!["addr"@, "add"@, v4_commands(tun)[0][2], "dev"@, "pwtun0"@],
        tun.is_prefix_of(v4_commands(tun)[0][2]),
        v4_commands(tun)[1] == seq!["link"@, "set"@, "pwtun0"@, "up"@],
{
    assert(v4_commands(tun)[0][2].take(tun.len() as int) =~= tun);
}

/// The word after a key is the one behind its first place; there is none where the key
/// stands nowhere, or last.
pub proof fn word_after_is_behind_the_first(words: Seq<Seq<char>>, key: Seq<char>, i: int)
    requires
        0 <= i <= words.len(),
        forall|j: int| 0 <= j < i ==> #[trigger] words[j] != key,
        i < words.len() ==> words[i] == key,
    ensures
        word_after(words, key) == (if i + 1 < words.len() {
            Some(words[i + 1])
        } else {
            None
        }),
    decreases i,
{
    if i > 0 {
        let rest = words.drop_first();
        assert(words[0] != key);
        assert forall|j: int| 0 <= j < i - 1 implies #[trigger] rest[j] != key by {
            assert(rest[j] == words[j + 1]);
        }
        word_after_is_behind_the_first(rest, key, i - 1);
    }
}

/// UDP with the mark of the direct route is looked up in a table of its own, whose default
/// route leads over the interface, through its gateway where it has one; tearing down
/// empties that table and removes that rule.
pub proof fn marked_udp_has_its_own_table(iface: Seq<char>, gateway: Option<Seq<char>>)
    ensures
        ({
            let route = direct_commands(iface, gateway)[0];
            let rule = direct_commands(iface, gateway)[1];
            let n = route.len() as int;
            &&& route[0] == "route"@ && route[2] == "default"@
            &&& gateway is Some ==> route[3] == "via"@ && route[4] == gateway->0
            &&& gateway is None ==> n == 7
            &&& gateway is Some ==> n == 9
            &&& route[n - 4] == "dev"@ && route[n - 3] == iface
            &&& route[n - 2] == "table"@
            &&& rule[0] == "rule"@ && rule[1] == "add"@ && rule[2] == "fwmark"@
            &&& nft::prefixed_number(rule[3]) == Some(ruleset::DIRECT_MARK as nat)
            &&& rule[4] == "lookup"@ && rule[5] == route[n - 1]
            &&& rule[6] == "priority"@
            &&& teardown()[1] == seq!["rule"@, "del"@, "priority"@, rule[7]]
            &&& teardown()[2] == seq!["route"@, "flush"@, "table"@, route[n - 1]]
            &&& teardown()[0] == seq!["link"@, "del"@, "pwtun0"@]
        }),
{
    reveal_strlit("0x5057");
    reveal_with_fuel(nft::hex_number, 5);
    let route = direct_commands(iface, gateway)[0];
    let n = route.len() as int;
    assert(route[n - 4] == "dev"@ && route[n - 3] == iface && route[n - 2] == "table"@);
    assert(route[n - 1] == "20567"@);
}

/// The configuration names the device, the proxy's protocol, address and port, and the
/// interface; where there are credentials, what stands before and behind the colon in the
/// proxy's URL stands for the user name and for the password, and holds no delimiter.
pub proof fn config_names_the_proxy(profile: ProxyProfile, route: RouteView, c: Credentials)
    ensures
        ({
            let scheme = if profile.proxy.proxy_type is Http {
                "http://"@
            } else {
                "socks5://"@
            };
            let host = if route.proxy_ip is V4 {
                route.proxy_ip.name()
            } else {
                seq!['['] + route.proxy_ip.name() + seq![']']
            };
            let head = "device: tun://pwtun0\nproxy: "@ + scheme;
            let tail = host + seq![':'] + text::decimal_text(profile.proxy.port as nat)
                + "\ninterface: "@ + route.iface + "\nloglevel: info\n"@;
            &&& config_text(profile, route, None) == head + tail
            &&& exists|user: Seq<char>, pass: Seq<char>|
                config_text(profile, route, Some(c)) == head + user + seq![':'] + pass + seq!['@']
                    + tail && #[trigger] is_encoded(user, c.username@) && #[trigger] is_encoded(
                    pass,
                    c.password@,
                )
        }),
{
    reveal_strlit("http://");
    reveal_strlit("socks5://");
    reveal_strlit("http");
    reveal_strlit("socks5");
    reveal_strlit("://");
    reveal_strlit(":");
    reveal_strlit("@");
    reveal_strlit("[");
    reveal_strlit("]");
    reveal_strlit("");
    reveal_strlit("pwtun0");
    reveal_strlit("device: tun://");
    reveal_strlit("\nproxy: ");
    reveal_strlit("device: tun://pwtun0\nproxy: ");
    let scheme = if profile.proxy.proxy_type is Http {
        "http://"@
    } else {
        "socks5://"@
    };
    let host = if route.proxy_ip is V4 {
        route.proxy_ip.name()
    } else {
        seq!['['] + route.proxy_ip.name() + seq![']']
    };
    let head = "device: tun://pwtun0\nproxy: "@ + scheme;
    let tail = host + seq![':'] + text::decimal_text(profile.proxy.port as nat) + "\ninterface: "@
        + route.iface + "\nloglevel: info\n"@;
    let user = encode::pct_text(vstd::utf8::encode_utf8(c.username@));
    let pass = encode::pct_text(vstd::utf8::encode_utf8(c.password@));
    assert(url_host(route.proxy_ip) =~= host);
    assert(profile.proxy.proxy_type.name() + "://"@ =~= scheme);
    assert(config_text(profile, route, None) =~= head + tail);
    assert(config_text(profile, route, Some(c)) =~= head + user + seq![':'] + pass + seq!['@']
        + tail);
    encoded(c.username@);
    encoded(c.password@);
    assert(is_encoded(user, c.username@) && is_encoded(pass, c.password@));
}

/// Whether `s` stands for `plain` in a URL and holds nothing that ends a part of one.
pub open spec fn is_encoded(s: Seq<char>, plain: Seq<char>) -> bool {
    &&& encode::pct_decode(s) == vstd::utf8::encode_utf8(plain)
    &&& forall|i: int|
        0 <= i < s.len() ==> #[trigger] s[i] != ':' && s[i] != '@' && s[i] != '/' && s[i] != '\n'
}

proof fn encoded(plain: Seq<char>)
    ensures
        is_encoded(encode::pct_text(vstd::utf8::encode_utf8(plain)), plain),
{
    let bytes = vstd::utf8::encode_utf8(plain);
    let s = encode::pct_text(bytes);
    encode::pct_reads_back(bytes);
    assert forall|i: int| 0 <= i < s.len() implies #[trigger] s[i] != ':' && s[i] != '@' && s[i]
        != '/' && s[i] != '\n' by {
        encode::pct_protects_delimiters(bytes, i);
    }
}

/// What is said of a command that failed begins with the program and ends with what it
/// printed, without the white space around it.
pub proof fn failures_say_what_was_printed(program: Seq<char>, args: Seq<Seq<char>>, stderr: Seq<char>)
    ensures
        program.is_prefix_of(failure_text(program, args, stderr)),
        text::trimmed(stderr).is_suffix_of(failure_text(program, args, stderr)),
{
    let all = failure_text(program, args, stderr);
    let printed = text::trimmed(stderr);
    assert(all.take(program.len() as int) =~= program);
    assert(all.skip(all.len() - printed.len()) =~= printed);
}

/// The network of the device is the four addresses around that of the tunnel.
pub proof fn device_has_a_network_of_four(a: u8, b: u8, c: u8, d: u8, to: Destination)
    ensures
        ({
            let net = v4_commands(addr::dotted(a, b, c, d))[0][2];
            nft::is_at(net, to) <==> (to matches Destination::V4(w, x, y, z) && (w, x, y, z / 4) == (
                a,
                b,
                c,
                d / 4,
            ))
        }),
{
    let tun = addr::dotted(a, b, c, d);
    reveal_strlit("/30");
    reveal_with_fuel(text::decimal_text, 3);
    reveal_with_fuel(nft::two_to, 3);
    assert(tun + "/30"@ =~= tun.push('/') + text::decimal_text(30));
    nft::network_v4(a, b, c, d, 30, to);
    assert(nft::two_to(2) == 4);
    if let Destination::V4(w, x, y, z) = to {
        quarter(w as nat, x as nat, y as nat, z as nat, a as nat, b as nat, c as nat, d as nat);
    }
}

proof fn quarter(w: nat, x: nat, y: nat, z: nat, a: nat, b: nat, c: nat, d: nat)
    requires
        w < 256 && x < 256 && y < 256 && z < 256,
        a < 256 && b < 256 && c < 256 && d < 256,
    ensures
        nft::number_of(w, x, y, z) / nft::two_to(2) == nft::number_of(a, b, c, d) / nft::two_to(2)
            <==> w == a && x == b && y == c && z / 4 == d / 4,
{
    reveal_with_fuel(nft::two_to, 3);
    let (m, n) = (nft::number_of(w, x, y, z), nft::number_of(a, b, c, d));
    assert(nft::two_to(2) == 4);
    assert(m / nft::two_to(2) == m / 4);
    assert(n / nft::two_to(2) == n / 4);
    assert(m / 4 == w * 0x400000 + x * 0x4000 + y * 0x40 + z / 4);
    assert(n / 4 == a * 0x400000 + b * 0x4000 + c * 0x40 + d / 4);
}

} // verus!
