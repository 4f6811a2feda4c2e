//! `proxywifi profiles`.

use crate::cli::grid;
use crate::cli::options;
use crate::cli::status;
use crate::error::Error;
use crate::models;
use crate::models::{
    AuthMethod, DnsMode, IpVersionConfig, KillSwitchConfig, LocalNetMode, ProxyConfig, ProxyProfile,
    ProxyType, UdpMode,
};
use crate::profiles;
use crate::profiles::{ProfileStore, StoreView};
use crate::text;
use vstd::prelude::*;

verus! {

/// Why a command failed.
#[derive(Debug)]
pub enum CommandError {
    Refused(String),
    /// The store refused it.
    Store(Error),
}

/// Whether a command was refused for this reason.
pub open spec fn is_refusal(e: CommandError, why: Seq<char>) -> bool {
    e matches CommandError::Refused(w) && w@ == why
}

// ---------------------------------------------------------------------------
// Listing
// ---------------------------------------------------------------------------

/// Whether profiles are ordered by the uuid of their connection.
pub open spec fn is_ordered(list: Seq<ProxyProfile>) -> bool {
    forall|i: int, j: int|
        0 <= i < j < list.len() ==> text::text_before(
            (#[trigger] list[i]).connection_uuid@,
            (#[trigger] list[j]).connection_uuid@,
        )
}

/// Whether `list` holds each of the profiles once, ordered by uuid.
pub open spec fn is_listing(list: Seq<ProxyProfile>, m: Map<Seq<char>, ProxyProfile>) -> bool {
    is_ordered(list) && profiles::indexed(list) == m
}

/// The profiles ordered by the uuid of their connection.
pub open spec fn listing(m: Map<Seq<char>, ProxyProfile>) -> Seq<ProxyProfile> {
    choose|list: Seq<ProxyProfile>| is_listing(list, m)
}

proof fn ordered_is_unique(list: Seq<ProxyProfile>)
    requires
        is_ordered(list),
    ensures
        profiles::unique(list),
{
    assert forall|i: int, j: int| 0 <= i < j < list.len() implies (
    #[trigger] list[i]).connection_uuid@ != (#[trigger] list[j]).connection_uuid@ by {
        let a = vstd::utf8::encode_utf8(list[i].connection_uuid@);
        text::bytes_before_is_strict(a, a);
    }
}

/// Whether two lists hold the same profiles.
spec fn same_members(a: Seq<ProxyProfile>, b: Seq<ProxyProfile>) -> bool {
    &&& forall|i: int| 0 <= i < a.len() ==> b.contains(#[trigger] a[i])
    &&& forall|j: int| 0 <= j < b.len() ==> a.contains(#[trigger] b[j])
}

proof fn same_order_same_list(a: Seq<ProxyProfile>, b: Seq<ProxyProfile>)
    requires
        is_ordered(a),
        is_ordered(b),
        same_members(a, b),
    ensures
        a == b,
    decreases a.len(),
{
    if a.len() == 0 {
        if b.len() > 0 {
            assert(a.contains(b[0]));
        }
        assert(a =~= b);
    } else {
        assert(b.contains(a[0]));
        let j = choose|j: int| 0 <= j < b.len() && b[j] == a[0];
        assert(a.contains(b[0]));
        let k = choose|k: int| 0 <= k < a.len() && a[k] == b[0];
        let (x, y) = (
            vstd::utf8::encode_utf8(a[0].connection_uuid@),
            vstd::utf8::encode_utf8(b[0].connection_uuid@),
        );
        if j > 0 {
            assert(text::text_before(b[0].connection_uuid@, b[j].connection_uuid@));
            if k > 0 {
                assert(text::text_before(a[0].connection_uuid@, a[k].connection_uuid@));
            }
            text::bytes_before_is_strict(x, y);
        }
        assert(a[0] == b[0]);
        let (p, q) = (a.drop_first(), b.drop_first());
        assert forall|i: int| 0 <= i < p.len() implies q.contains(#[trigger] p[i]) by {
            assert(p[i] == a[i + 1]);
            assert(b.contains(a[i + 1]));
            let m = choose|m: int| 0 <= m < b.len() && b[m] == a[i + 1];
            if m == 0 {
                assert(text::text_before(a[0].connection_uuid@, a[i + 1].connection_uuid@));
                text::bytes_before_is_strict(x, x);
            } else {
                assert(q[m - 1] == b[m]);
            }
        }
        assert forall|i: int| 0 <= i < q.len() implies p.contains(#[trigger] q[i]) by {
            assert(q[i] == b[i + 1]);
            assert(a.contains(b[i + 1]));
            let m = choose|m: int| 0 <= m < a.len() && a[m] == b[i + 1];
            if m == 0 {
                assert(text::text_before(b[0].connection_uuid@, b[i + 1].connection_uuid@));
                text::bytes_before_is_strict(x, x);
            } else {
                assert(p[m - 1] == a[m]);
            }
        }
        assert forall|s: int, t: int| 0 <= s < t < p.len() implies text::text_before(
            (#[trigger] p[s]).connection_uuid@,
            (#[trigger] p[t]).connection_uuid@,
        ) by {
            assert(p[s] == a[s + 1] && p[t] == a[t + 1]);
        }
        assert forall|s: int, t: int| 0 <= s < t < q.len() implies text::text_before(
            (#[trigger] q[s]).connection_uuid@,
            (#[trigger] q[t]).connection_uuid@,
        ) by {
            assert(q[s] == b[s + 1] && q[t] == b[t + 1]);
        }
        same_order_same_list(p, q);
        assert(a =~= seq![a[0]] + p);
        assert(b =~= seq![b[0]] + q);
    }
}

/// Profiles have only one listing.
pub proof fn listing_is_the_only_one(list: Seq<ProxyProfile>, m: Map<Seq<char>, ProxyProfile>)
    requires
        is_listing(list, m),
    ensures
        list == listing(m),
{
    let other = listing(m);
    ordered_is_unique(list);
    ordered_is_unique(other);
    profiles::indexed_entries(list);
    profiles::indexed_entries(other);
    assert forall|i: int| 0 <= i < list.len() implies other.contains(#[trigger] list[i]) by {
        assert(m.contains_key(list[i].connection_uuid@));
        let j = choose|j: int|
            0 <= j < other.len() && (#[trigger] other[j]).connection_uuid@
                == list[i].connection_uuid@;
        assert(other[j] == list[i]);
    }
    assert forall|i: int| 0 <= i < other.len() implies list.contains(#[trigger] other[i]) by {
        assert(m.contains_key(other[i].connection_uuid@));
        let j = choose|j: int|
            0 <= j < list.len() && (#[trigger] list[j]).connection_uuid@
                == other[i].connection_uuid@;
        assert(list[j] == other[i]);
    }
    same_order_same_list(list, other);
}

proof fn inserted_is_indexed(list: Seq<ProxyProfile>, n: int, p: ProxyProfile)
    requires
        profiles::unique(list),
        0 <= n <= list.len(),
        !profiles::indexed(list).contains_key(p.connection_uuid@),
    ensures
        profiles::unique(list.insert(n, p)),
        profiles::indexed(list.insert(n, p)) == profiles::indexed(list).insert(
            p.connection_uuid@,
            p,
        ),
{
    let r = list.insert(n, p);
    let m = profiles::indexed(list);
    profiles::indexed_entries(list);
    assert forall|i: int, j: int| 0 <= i < j < r.len() implies (#[trigger] r[i]).connection_uuid@
        != (#[trigger] r[j]).connection_uuid@ by {
        let x = if i < n {
            i
        } else {
            i - 1
        };
        let y = if j < n {
            j
        } else {
            j - 1
        };
        if i == n {
            assert(r[j] == list[y]);
        } else if j == n {
            assert(r[i] == list[x]);
        } else {
            assert(r[i] == list[x] && r[j] == list[y]);
        }
    }
    profiles::indexed_entries(r);
    assert forall|uuid: Seq<char>| #[trigger] profiles::indexed(r).contains_key(uuid) <==> m.insert(
        p.connection_uuid@,
        p,
    ).contains_key(uuid) by {
        if profiles::indexed(r).contains_key(uuid) {
            let i = choose|i: int|
                0 <= i < r.len() && (#[trigger] r[i]).connection_uuid@ == uuid;
            if i < n {
                assert(list[i] == r[i]);
            } else if i > n {
                assert(list[i - 1] == r[i]);
            }
        }
        if m.contains_key(uuid) {
            let i = choose|i: int|
                0 <= i < list.len() && (#[trigger] list[i]).connection_uuid@ == uuid;
            if i < n {
                assert(r[i] == list[i]);
            } else {
                assert(r[i + 1] == list[i]);
            }
        }
        if uuid == p.connection_uuid@ {
            assert(r[n] == p);
        }
    }
    assert forall|uuid: Seq<char>| #[trigger]
        profiles::indexed(r).contains_key(uuid) implies profiles::indexed(r)[uuid] == m.insert(
        p.connection_uuid@,
        p,
    )[uuid] by {
        let i = choose|i: int| 0 <= i < r.len() && (#[trigger] r[i]).connection_uuid@ == uuid;
        assert(profiles::indexed(r)[r[i].connection_uuid@] == r[i]);
        if i < n {
            assert(list[i] == r[i]);
        } else if i > n {
            assert(list[i - 1] == r[i]);
        }
    }
    assert(profiles::indexed(r) =~= m.insert(p.connection_uuid@, p));
}

/// The profiles ordered by the uuid of their connection.
pub fn sorted_profiles(store: &ProfileStore) -> (r: Vec<ProxyProfile>)
    ensures
        r@ == listing(store@.profiles),
        is_listing(r@, store@.profiles),
{
    let all = store.all();
    let mut out: Vec<ProxyProfile> = Vec::new();
    let mut i: usize = 0;
    assert(all@.take(0) =~= Seq::<ProxyProfile>::empty());
    assert(out@ =~= Seq::<ProxyProfile>::empty());
    while i < all.len()
        invariant
            i <= all@.len(),
            profiles::unique(all@),
            profiles::indexed(all@) == store@.profiles,
            is_ordered(out@),
            profiles::indexed(out@) == profiles::indexed(all@.take(i as int)),
        decreases all@.len() - i,
    {
        let p = all[i].clone();
        let ghost uuid = p.connection_uuid@;
        let mut n: usize = out.len();
        while n > 0 && text::before(p.connection_uuid.as_str(), out[n - 1].connection_uuid.as_str())
            invariant
                n <= out@.len(),
                uuid == p.connection_uuid@,
                forall|k: int|
                    n <= k < out@.len() ==> text::text_before(
                        uuid,
                        (#[trigger] out@[k]).connection_uuid@,
                    ),
            decreases n,
        {
            n -= 1;
        }
        let ghost before = out@;
        proof {
            let seen = all@.take(i + 1);
            assert(seen.drop_last() =~= all@.take(i as int));
            assert(seen.last() == p);
            profiles::indexed_entries(all@.take(i as int));
            assert(!profiles::indexed(before).contains_key(uuid)) by {
                if profiles::indexed(all@.take(i as int)).contains_key(uuid) {
                    let k = choose|k: int|
                        0 <= k < all@.take(i as int).len() && (#[trigger] all@.take(
                            i as int,
                        )[k]).connection_uuid@ == uuid;
                    assert(all@[k].connection_uuid@ != all@[i as int].connection_uuid@);
                }
            }
            ordered_is_unique(before);
            profiles::indexed_entries(before);
            inserted_is_indexed(before, n as int, p);
            let after = before.insert(n as int, p);
            assert forall|s: int, t: int| 0 <= s < t < after.len() implies text::text_before(
                (#[trigger] after[s]).connection_uuid@,
                (#[trigger] after[t]).connection_uuid@,
            ) by {
                let x = if s < n {
                    s
                } else {
                    s - 1
                };
                let y = if t < n {
                    t
                } else {
                    t - 1
                };
                if s == n {
                    assert(after[t] == before[y]);
                } else if t == n {
                    assert(after[s] == before[x]);
                    let last = before[n - 1].connection_uuid@;
                    assert(!text::text_before(uuid, last));
                    assert(last != uuid);
                    let (a, b) = (
                        vstd::utf8::encode_utf8(uuid),
                        vstd::utf8::encode_utf8(last),
                    );
                    text::bytes_before_is_strict(a, b);
                    vstd::utf8::encode_utf8_decode_utf8(uuid);
                    vstd::utf8::encode_utf8_decode_utf8(last);
                    assert(text::text_before(last, uuid));
                    if s < n - 1 {
                        assert(text::text_before(before[s].connection_uuid@, last));
                        text::bytes_before_is_transitive(
                            vstd::utf8::encode_utf8(before[s].connection_uuid@),
                            b,
                            a,
                        );
                    }
                } else {
                    assert(after[s] == before[x] && after[t] == before[y]);
                }
            }
        }
        out.insert(n, p);
        i += 1;
    }
    proof {
        assert(all@.take(i as int) =~= all@);
        listing_is_the_only_one(out@, store@.profiles);
    }
    out
}

/// The header of the list of profiles.
pub open spec fn list_header() -> Seq<Seq<char>> {
    seq![
        "Connection UUID"@,
        "Label"@,
        "Status"@,
        "Auto"@,
        "Proxy"@,
        "DNS"@,
        "Kill switch"@,
        "Auth"@,
    ]
}

/// What is listed of a profile.
pub open spec fn list_row(p: ProxyProfile) -> Seq<Seq<char>> {
    seq![
        p.connection_uuid@,
        grid::text_or(p.label, "-"@),
        if p.enabled {
            "enabled"@
        } else {
            "disabled"@
        },
        if p.auto_connect {
            "yes"@
        } else {
            "no"@
        },
        status::proxy_url(p),
        p.dns.name(),
        if p.kill_switch.enabled {
            "on"@
        } else {
            "off"@
        },
        p.proxy.authentication.name(),
    ]
}

/// The rows of the list of profiles.
pub open spec fn list_table(list: Seq<ProxyProfile>) -> Seq<Seq<Seq<char>>> {
    list.map_values(|p: ProxyProfile| list_row(p))
}

fn one_of(first: bool, a: &str, b: &str) -> (r: String)
    ensures
        r@ == (if first {
            a@
        } else {
            b@
        }),
{
    if first {
        a.to_owned()
    } else {
        b.to_owned()
    }
}

/// The rows of the list of profiles.
pub fn list_rows(list: &Vec<ProxyProfile>) -> (r: Vec<Vec<String>>)
    ensures
        text::rows(r@) == list_table(list@),
{
    let mut r: Vec<Vec<String>> = Vec::new();
    let mut i: usize = 0;
    assert(text::rows(r@) =~= list_table(list@).take(0));
    while i < list.len()
        invariant
            i <= list@.len(),
            text::rows(r@) == list_table(list@).take(i as int),
        decreases list@.len() - i,
    {
        let p = &list[i];
        let row: Vec<String> = vec![
            p.connection_uuid.clone(),
            grid::show_or(&p.label, "-"),
            one_of(p.enabled, "enabled", "disabled"),
            one_of(p.auto_connect, "yes", "no"),
            status::show_proxy(p),
            p.dns.text(),
            one_of(p.kill_switch.enabled, "on", "off"),
            p.proxy.authentication.text(),
        ];
        proof {
            assert(text::texts(row@) =~= list_row(*p));
            assert(list_table(list@).take(i + 1) =~= list_table(list@).take(i as int).push(
                list_row(*p),
            ));
        }
        grid::add_row(&mut r, row);
        i += 1;
    }
    assert(list_table(list@).take(i as int) =~= list_table(list@));
    r
}

/// What is printed where there is no profile.
pub open spec fn empty_lines() -> Seq<Seq<char>> {
    seq![
        "No proxy profiles configured."@,
        "Add one with: proxywifi profiles add <connection-uuid> --host <host> --port <port>"@,
    ]
}

/// What is printed of `count` profiles, given their table.
pub open spec fn counted_lines(table: Seq<char>, count: nat) -> Seq<Seq<char>> {
    seq![table, text::decimal_text(count) + " profile(s)."@]
}

/// What is printed of `count` profiles, given their table.
pub fn print_list(table: String, count: usize) -> (r: Vec<String>)
    ensures
        text::texts(r@) == counted_lines(table@, count as nat),
{
    let mut second = text::decimal(count as u64);
    second.append(" profile(s).");
    let ghost (a, b) = (table@, second@);
    let r: Vec<String> = vec![table, second];
    assert(text::texts(r@) =~= seq![a, b]);
    r
}

/// What `profiles list` prints.
pub open spec fn list_lines(list: Seq<ProxyProfile>) -> Seq<Seq<char>> {
    if list.len() == 0 {
        empty_lines()
    } else {
        counted_lines(grid::table_text(list_header(), list_table(list)), list.len())
    }
}

/// What `profiles list` prints: the profiles ordered by the uuid of their connection.
pub fn list_profiles(store: &ProfileStore) -> (r: Vec<String>)
    ensures
        text::texts(r@) == list_lines(listing(store@.profiles)),
{
    let list = sorted_profiles(store);
    if list.len() == 0 {
        let r: Vec<String> = vec![
            "No proxy profiles configured.".to_owned(),
            "Add one with: proxywifi profiles add <connection-uuid> --host <host> --port <port>".to_owned(),
        ];
        assert(text::texts(r@) =~= empty_lines());
        return r;
    }
    let header: Vec<String> = vec![
        "Connection UUID".to_owned(),
        "Label".to_owned(),
        "Status".to_owned(),
        "Auto".to_owned(),
        "Proxy".to_owned(),
        "DNS".to_owned(),
        "Kill switch".to_owned(),
        "Auth".to_owned(),
    ];
    assert(text::texts(header@) =~= list_header());
    let table = grid::render_table(&header, &list_rows(&list));
    print_list(table, list.len())
}

// ---------------------------------------------------------------------------
// Editing
// ---------------------------------------------------------------------------

/// What a profile is made of.
pub struct AddArgs {
    pub uuid: String,
    pub host: String,
    pub port: u16,
    pub proxy_type: ProxyType,
    pub label: Option<String>,
    pub enabled: bool,
    pub auto_connect: bool,
    pub dns: DnsMode,
    pub kill_switch: bool,
    pub udp: UdpMode,
    pub local_network: LocalNetMode,
    pub ipv6: bool,
    /// The id of credentials that are already stored, if any.
    pub secret_id: Option<String>,
}

/// Why a profile cannot be made: a blank host, or port 0.
pub open spec fn add_refusal(host: Seq<char>, port: u16) -> Option<Seq<char>> {
    if text::is_blank(host) {
        Some("proxy host must not be empty"@)
    } else if port == 0 {
        Some("proxy port must be between 1 and 65535"@)
    } else {
        None
    }
}

/// Whether `p` is the profile made of `a`: its host is trimmed, and it authenticates
/// where there are credentials.
pub open spec fn is_made_of(p: ProxyProfile, a: AddArgs) -> bool {
    &&& p.connection_uuid@ == a.uuid@
    &&& p.label == a.label
    &&& p.enabled == a.enabled
    &&& p.proxy.proxy_type == a.proxy_type
    &&& p.proxy.host@ == text::trimmed(a.host@)
    &&& p.proxy.port == a.port
    &&& p.proxy.authentication == (if a.secret_id is Some {
        AuthMethod::Keyring
    } else {
        AuthMethod::NoAuth
    })
    &&& p.proxy.secret_id == a.secret_id
    &&& p.dns == a.dns
    &&& p.routing == (IpVersionConfig { ipv4: true, ipv6: a.ipv6 })
    &&& p.udp == a.udp
    &&& p.local_network == a.local_network
    &&& p.kill_switch.enabled == a.kill_switch
    &&& p.auto_connect == a.auto_connect
}

/// What is printed of a profile that was saved.
pub open spec fn saved_lines(uuid: Seq<char>, enabled: bool, auto_connect: bool) -> Seq<Seq<char>> {
    seq![
        "Profile saved for connection "@ + uuid + "."@,
        if enabled && auto_connect {
            "The daemon will activate this proxy whenever that Wi-Fi connects."@
        } else if enabled {
            "Profile is enabled but auto-connect is off; it will only be used when started manually."@
        } else {
            "Profile is disabled; enable it with `proxywifi profiles enable <uuid>`."@
        },
    ]
}

/// Whether a store differs from another in the profile for `uuid` alone, which is there.
pub open spec fn differs_in(after: StoreView, before: StoreView, uuid: Seq<char>) -> bool {
    &&& after.path == before.path
    &&& after.profiles.contains_key(uuid)
    &&& after.profiles == before.profiles.insert(uuid, after.profiles[uuid])
}

fn sentence(before: &str, middle: &str, behind: &str) -> (r: String)
    ensures
        r@ == before@ + middle@ + behind@,
{
    let mut r = before.to_owned();
    r.append(middle);
    r.append(behind);
    r
}

/// `profiles add`: make a profile and put it into the store.
pub fn add_profile(store: &mut ProfileStore, args: AddArgs) -> (r: Result<Vec<String>, CommandError>)
    ensures
        match add_refusal(args.host@, args.port) {
            Some(why) => r matches Err(e) && is_refusal(e, why) && final(store)@ == old(store)@,
            None => r matches Ok(lines) && differs_in(final(store)@, old(store)@, args.uuid@)
                && is_made_of(final(store)@.profiles[args.uuid@], args) && text::texts(lines@)
                == saved_lines(args.uuid@, args.enabled, args.auto_connect),
        },
{
    let host = text::trim(args.host.as_str());
    proof {
        text::blank_iff_trimmed_empty(args.host@);
    }
    if host.as_str().is_empty() {
        return Err(CommandError::Refused("proxy host must not be empty".to_owned()));
    }
    if args.port == 0 {
        return Err(CommandError::Refused("proxy port must be between 1 and 65535".to_owned()));
    }
    let first = sentence("Profile saved for connection ", args.uuid.as_str(), ".");
    let authentication = if args.secret_id.is_some() {
        AuthMethod::Keyring
    } else {
        AuthMethod::NoAuth
    };
    let profile = ProxyProfile {
        connection_uuid: args.uuid,
        label: args.label,
        enabled: args.enabled,
        proxy: ProxyConfig {
            proxy_type: args.proxy_type,
            host,
            port: args.port,
            authentication,
            secret_id: args.secret_id,
        },
        dns: args.dns,
        routing: IpVersionConfig { ipv4: true, ipv6: args.ipv6 },
        udp: args.udp,
        local_network: args.local_network,
        kill_switch: KillSwitchConfig { enabled: args.kill_switch },
        auto_connect: args.auto_connect,
    };
    let second = if profile.should_auto_activate() {
        "The daemon will activate this proxy whenever that Wi-Fi connects.".to_owned()
    } else if args.enabled {
        "Profile is enabled but auto-connect is off; it will only be used when started manually.".to_owned()
    } else {
        "Profile is disabled; enable it with `proxywifi profiles enable <uuid>`.".to_owned()
    };
    store.upsert(profile);
    let lines: Vec<String> = vec![first, second];
    assert(text::texts(lines@) =~= saved_lines(args.uuid@, args.enabled, args.auto_connect));
    Ok(lines)
}

fn one_line(line: String) -> (r: Vec<String>)
    ensures
        text::texts(r@) == seq![line@],
{
    let ghost l = line@;
    let r: Vec<String> = vec![line];
    assert(text::texts(r@) =~= seq![l]);
    r
}

/// `profiles remove`.
pub fn remove_profile(store: &mut ProfileStore, uuid: &str) -> (r: Result<Vec<String>, CommandError>)
    ensures
        if old(store)@.profiles.contains_key(uuid@) {
            r matches Ok(lines) && text::texts(lines@) == seq![
                "Removed profile for connection "@ + uuid@ + "."@,
            ] && final(store)@ == (StoreView {
                profiles: old(store)@.profiles.remove(uuid@),
                ..old(store)@
            })
        } else {
            r matches Err(e) && is_refusal(e, "no profile for connection "@ + uuid@)
                && final(store)@ == old(store)@
        },
{
    if store.get(uuid).is_none() {
        return Err(
            CommandError::Refused(crate::error::after("no profile for connection ", uuid)),
        );
    }
    match store.remove(uuid) {
        Ok(_) => Ok(one_line(sentence("Removed profile for connection ", uuid, "."))),
        Err(e) => Err(CommandError::Store(e)),
    }
}

/// `profiles enable` and `profiles disable`.
pub fn set_profile_enabled(store: &mut ProfileStore, uuid: &str, enabled: bool) -> (r: Result<
    Vec<String>,
    CommandError,
>)
    ensures
        if old(store)@.profiles.contains_key(uuid@) {
            r matches Ok(lines) && text::texts(lines@) == seq![
                "Profile "@ + uuid@ + (if enabled {
                    " enabled."@
                } else {
                    " disabled."@
                }),
            ] && final(store)@ == (StoreView {
                profiles: old(store)@.profiles.insert(
                    uuid@,
                    ProxyProfile { enabled, ..old(store)@.profiles[uuid@] },
                ),
                ..old(store)@
            })
        } else {
            r matches Err(CommandError::Store(e)) && profiles::is_unknown(e, uuid@)
                && final(store)@ == old(store)@
        },
{
    match store.set_enabled(uuid, enabled) {
        Ok(_) => Ok(
            one_line(
                sentence(
                    "Profile ",
                    uuid,
                    if enabled {
                        " enabled."
                    } else {
                        " disabled."
                    },
                ),
            ),
        ),
        Err(e) => Err(CommandError::Store(e)),
    }
}

/// What is printed of a profile that was assigned.
pub open spec fn assigned_lines(uuid: Seq<char>) -> Seq<Seq<char>> {
    seq!["Assigned profile to connection "@ + uuid + "."@]
}

/// `profiles assign`: copy the profile for one connection onto another. Where that takes
/// the place of a profile, [`overwrite_warning`] says so before.
pub fn assign_profile(store: &mut ProfileStore, connection_uuid: &str, profile_uuid: &str) -> (r:
    Result<Vec<String>, CommandError>)
    ensures
        if old(store)@.profiles.contains_key(profile_uuid@) {
            r matches Ok(lines) && text::texts(lines@) == assigned_lines(connection_uuid@)
                && differs_in(final(store)@, old(store)@, connection_uuid@) && ({
                let copy = final(store)@.profiles[connection_uuid@];
                copy.connection_uuid@ == connection_uuid@ && copy == (ProxyProfile {
                    connection_uuid: copy.connection_uuid,
                    ..old(store)@.profiles[profile_uuid@]
                })
            })
        } else {
            r matches Err(e) && is_refusal(e, "no profile with uuid "@ + profile_uuid@)
                && final(store)@ == old(store)@
        },
{
    let source = match store.get(profile_uuid) {
        Some(p) => p,
        None => {
            return Err(
                CommandError::Refused(crate::error::after("no profile with uuid ", profile_uuid)),
            );
        },
    };
    let copy = ProxyProfile { connection_uuid: connection_uuid.to_owned(), ..source };
    store.upsert(copy);
    let mut lines: Vec<String> = Vec::new();
    lines.push(sentence("Assigned profile to connection ", connection_uuid, "."));
    assert(text::texts(lines@) =~= assigned_lines(connection_uuid@));
    Ok(lines)
}

// ---------------------------------------------------------------------------
// Commands
// ---------------------------------------------------------------------------

/// The arguments of `profiles add`, as they are given.
pub struct AddRequest {
    pub uuid: String,
    pub host: String,
    pub port: u16,
    pub proxy_type: String,
    pub label: Option<String>,
    pub disable: bool,
    pub auto_connect: bool,
    pub direct_dns: bool,
    pub no_kill_switch: bool,
    pub udp: String,
    pub local_network: String,
    pub ipv6: bool,
    /// The id that the credentials were stored under, where any were given.
    pub secret_id: Option<String>,
}

/// A command on the profiles.
pub enum ProfileCommand {
    List,
    Add(AddRequest),
    Remove(String),
    Enable(String),
    Disable(String),
    /// The connection, and the profile to copy onto it.
    Assign(String, String),
}

/// Whether a command is one that changes the profiles.
pub open spec fn writes(c: ProfileCommand) -> bool {
    c is Add || c is Remove || c is Enable || c is Disable || c is Assign
}

/// Whether a command changes the profiles, so that they have to be saved.
pub fn is_write(command: &ProfileCommand) -> (r: bool)
    ensures
        r == writes(*command),
        r == !(*command is List),
{
    match command {
        ProfileCommand::List => false,
        _ => true,
    }
}

/// What the options of a request name, or the first of them that names nothing.
pub open spec fn options_of(q: AddRequest) -> Result<
    (ProxyType, UdpMode, LocalNetMode),
    Seq<char>,
> {
    let (t, u, l) = (
        text::lowered(q.proxy_type@),
        text::lowered(q.udp@),
        text::lowered(q.local_network@),
    );
    if options::type_named(t) is None {
        Err("unsupported proxy type '"@ + t + "' (supported: socks5, http)"@)
    } else if options::udp_named(u) is None {
        Err("unknown UDP mode '"@ + u + "' (proxy, block, direct)"@)
    } else if options::local_named(l) is None {
        Err("unknown local-network mode '"@ + l + "' (proxy, direct, block)"@)
    } else {
        Ok((options::type_named(t)->0, options::udp_named(u)->0, options::local_named(l)->0))
    }
}

/// What a request asks for. Without options to the contrary a profile is enabled, DNS
/// goes through the proxy and the kill switch is on; automatic activation is opt-in.
pub open spec fn args_of(q: AddRequest) -> AddArgs {
    let (proxy_type, udp, local_network) = options_of(q)->Ok_0;
    AddArgs {
        uuid: q.uuid,
        host: q.host,
        port: q.port,
        proxy_type,
        label: q.label,
        enabled: !q.disable,
        auto_connect: q.auto_connect,
        dns: if q.direct_dns {
            DnsMode::Direct
        } else {
            DnsMode::Proxied
        },
        kill_switch: !q.no_kill_switch,
        udp,
        local_network,
        ipv6: q.ipv6,
        secret_id: q.secret_id,
    }
}

/// What a request asks for, or why it cannot be read.
pub fn read_request(q: AddRequest) -> (r: Result<AddArgs, CommandError>)
    ensures
        match options_of(q) {
            Ok(_) => r == Ok::<AddArgs, CommandError>(args_of(q)),
            Err(why) => r matches Err(e) && is_refusal(e, why),
        },
{
    let proxy_type = match options::parse_proxy_type(q.proxy_type.as_str()) {
        Ok(t) => t,
        Err(e) => {
            return Err(CommandError::Refused(e));
        },
    };
    let udp = match options::parse_udp(q.udp.as_str()) {
        Ok(m) => m,
        Err(e) => {
            return Err(CommandError::Refused(e));
        },
    };
    let local_network = match options::parse_local_network(q.local_network.as_str()) {
        Ok(m) => m,
        Err(e) => {
            return Err(CommandError::Refused(e));
        },
    };
    Ok(
        AddArgs {
            uuid: q.uuid,
            host: q.host,
            port: q.port,
            proxy_type,
            label: q.label,
            enabled: !q.disable,
            auto_connect: q.auto_connect,
            dns: if q.direct_dns {
                DnsMode::Direct
            } else {
                DnsMode::Proxied
            },
            kill_switch: !q.no_kill_switch,
            udp,
            local_network,
            ipv6: q.ipv6,
            secret_id: q.secret_id,
        },
    )
}

/// What a command does to the store and prints once it is saved, or why it fails.
pub open spec fn carries_out(
    c: ProfileCommand,
    before: StoreView,
    after: StoreView,
    r: Result<Vec<String>, CommandError>,
) -> bool {
    match c {
        ProfileCommand::List => after == before && (r matches Ok(lines) && text::texts(lines@)
            == list_lines(listing(before.profiles))),
        ProfileCommand::Add(q) => match options_of(q) {
            Err(why) => after == before && (r matches Err(e) && is_refusal(e, why)),
            Ok(_) => match add_refusal(q.host@, q.port) {
                Some(why) => after == before && (r matches Err(e) && is_refusal(e, why)),
                None => differs_in(after, before, q.uuid@) && is_made_of(
                    after.profiles[q.uuid@],
                    args_of(q),
                ) && (r matches Ok(lines) && text::texts(lines@) == saved_lines(
                    q.uuid@,
                    !q.disable,
                    q.auto_connect,
                )),
            },
        },
        ProfileCommand::Remove(uuid) => if before.profiles.contains_key(uuid@) {
            after == (StoreView { profiles: before.profiles.remove(uuid@), ..before }) && (
            r matches Ok(lines) && text::texts(lines@) == seq![
                "Removed profile for connection "@ + uuid@ + "."@,
            ])
        } else {
            after == before && (r matches Err(e) && is_refusal(
                e,
                "no profile for connection "@ + uuid@,
            ))
        },
        ProfileCommand::Enable(uuid) => enables(uuid@, true, before, after, r),
        ProfileCommand::Disable(uuid) => enables(uuid@, false, before, after, r),
        ProfileCommand::Assign(to, from) => if before.profiles.contains_key(from@) {
            &&& differs_in(after, before, to@)
            &&& after.profiles[to@].connection_uuid@ == to@
            &&& after.profiles[to@] == (ProxyProfile {
                connection_uuid: after.profiles[to@].connection_uuid,
                ..before.profiles[from@]
            })
            &&& r matches Ok(lines) && text::texts(lines@) == assigned_lines(to@)
        } else {
            after == before && (r matches Err(e) && is_refusal(e, "no profile with uuid "@ + from@))
        },
    }
}

/// What enabling or disabling a profile does and prints.
pub open spec fn enables(
    uuid: Seq<char>,
    enabled: bool,
    before: StoreView,
    after: StoreView,
    r: Result<Vec<String>, CommandError>,
) -> bool {
    if before.profiles.contains_key(uuid) {
        after == (StoreView {
            profiles: before.profiles.insert(
                uuid,
                ProxyProfile { enabled, ..before.profiles[uuid] },
            ),
            ..before
        }) && (r matches Ok(lines) && text::texts(lines@) == seq![
            "Profile "@ + uuid + (if enabled {
                " enabled."@
            } else {
                " disabled."@
            }),
        ])
    } else {
        after == before && (r matches Err(CommandError::Store(e)) && profiles::is_unknown(e, uuid))
    }
}

/// What is printed before a command is carried out, so that it is seen even where the
/// store cannot be saved: that an assignment takes the place of a profile.
pub open spec fn printed_before(c: ProfileCommand, store: StoreView) -> Option<Seq<char>> {
    match c {
        ProfileCommand::Assign(to, from) => if store.profiles.contains_key(from@)
            && store.profiles.contains_key(to@) {
            Some("warning: overwriting the existing profile for "@ + to@)
        } else {
            None
        },
        _ => None,
    }
}

/// What is printed before a command is carried out.
pub fn overwrite_warning(store: &ProfileStore, command: &ProfileCommand) -> (r: Option<String>)
    ensures
        models::opt_text(r) == printed_before(*command, store@),
{
    if let ProfileCommand::Assign(to, from) = command {
        if store.get(from.as_str()).is_some() && store.get(to.as_str()).is_some() {
            return Some(
                crate::error::after("warning: overwriting the existing profile for ", to.as_str()),
            );
        }
    }
    None
}

/// Carry out a command on the store; returns what it prints once the store is saved.
pub fn run_command(store: &mut ProfileStore, command: ProfileCommand) -> (r: Result<
    Vec<String>,
    CommandError,
>)
    ensures
        carries_out(command, old(store)@, final(store)@, r),
{
    match command {
        ProfileCommand::List => Ok(list_profiles(store)),
        ProfileCommand::Add(q) => match read_request(q) {
            Ok(args) => add_profile(store, args),
            Err(e) => Err(e),
        },
        ProfileCommand::Remove(uuid) => remove_profile(store, uuid.as_str()),
        ProfileCommand::Enable(uuid) => set_profile_enabled(store, uuid.as_str(), true),
        ProfileCommand::Disable(uuid) => set_profile_enabled(store, uuid.as_str(), false),
        ProfileCommand::Assign(to, from) => assign_profile(store, to.as_str(), from.as_str()),
    }
}

// ---------------------------------------------------------------------------
// Credentials
// ---------------------------------------------------------------------------

/// The label of a profile's credentials.
pub open spec fn secret_label(uuid: Seq<char>) -> Seq<char> {
    "ProxyWiFi proxy credentials for "@ + uuid
}

/// What is to be stored for a profile: label, user name and password. Nothing where
/// neither a user name nor a password is given.
pub struct SecretRequest {
    pub label: String,
    pub username: String,
    pub password: String,
}

/// Whether these are the credentials to store for the profile of `uuid`.
pub open spec fn is_requested(
    r: Option<SecretRequest>,
    uuid: Seq<char>,
    username: Option<Seq<char>>,
    password: Option<Seq<char>>,
) -> bool {
    match r {
        Some(q) => {
            &&& username is Some || password is Some
            &&& q.label@ == secret_label(uuid)
            &&& username is Some ==> q.username@ == username->0
            &&& username is None ==> q.username@.len() == 0
            &&& password is Some ==> q.password@ == password->0
            &&& password is None ==> q.password@.len() == 0
        },
        None => username is None && password is None,
    }
}

/// The credentials to store for the profile of `uuid`.
pub fn secret_request(uuid: &str, username: Option<String>, password: Option<String>) -> (r: Option<
    SecretRequest,
>)
    ensures
        is_requested(r, uuid@, models::opt_text(username), models::opt_text(password)),
        r is None <==> username is None && password is None,
        r matches Some(q) ==> q.label@ == secret_label(uuid@) && q.username@ == grid::text_or(
            username,
            Seq::empty(),
        ) && q.password@ == grid::text_or(password, Seq::empty()),
{
    if username.is_none() && password.is_none() {
        return None;
    }
    let username = match username {
        Some(u) => u,
        None => String::new(),
    };
    let password = match password {
        Some(p) => p,
        None => String::new(),
    };
    Some(
        SecretRequest {
            label: crate::error::after("ProxyWiFi proxy credentials for ", uuid),
            username,
            password,
        },
    )
}

/// Whether a profile refers to the credentials stored under `id`.
pub open spec fn refers_to(p: ProxyProfile, id: Seq<char>) -> bool {
    models::opt_text(p.proxy.secret_id) == Some(id)
}

/// Whether any profile refers to the credentials stored under `id`.
pub open spec fn is_used(m: Map<Seq<char>, ProxyProfile>, id: Seq<char>) -> bool {
    exists|uuid: Seq<char>| #[trigger] m.contains_key(uuid) && refers_to(m[uuid], id)
}

fn holds(list: &Vec<String>, id: &str) -> (r: bool)
    ensures
        r == text::texts(list@).contains(id@),
{
    let ghost all = text::texts(list@);
    let mut i: usize = 0;
    while i < list.len()
        invariant
            i <= list@.len(),
            all == text::texts(list@),
            all.len() == list@.len(),
            forall|j: int| 0 <= j < i ==> #[trigger] all[j] != id@,
        decreases list@.len() - i,
    {
        assert(all[i as int] == list@[i as int]@);
        if text::same_text(list[i].as_str(), id) {
            return true;
        }
        i += 1;
    }
    false
}

/// The ids of all credentials that profiles refer to.
pub fn secret_ids(store: &ProfileStore) -> (r: Vec<String>)
    ensures
        forall|id: Seq<char>| #[trigger]
            text::texts(r@).contains(id) <==> is_used(store@.profiles, id),
        text::texts(r@).no_duplicates(),
{
    let all = store.all();
    let mut out: Vec<String> = Vec::new();
    let mut i: usize = 0;
    assert(text::texts(out@) =~= Seq::<Seq<char>>::empty());
    while i < all.len()
        invariant
            i <= all@.len(),
            forall|id: Seq<char>| #[trigger]
                text::texts(out@).contains(id) <==> exists|k: int|
                    0 <= k < i && refers_to(#[trigger] all@[k], id),
            text::texts(out@).no_duplicates(),
        decreases all@.len() - i,
    {
        let ghost before = text::texts(out@);
        if let Some(id) = &all[i].proxy.secret_id {
            if !holds(&out, id.as_str()) {
                out.push(id.clone());
                proof {
                    assert(text::texts(out@) =~= before.push(id@));
                }
            }
            proof {
                let now = text::texts(out@);
                assert(refers_to(all@[i as int], id@));
                assert forall|x: Seq<char>| #[trigger] now.contains(x) <==> exists|k: int|
                    0 <= k < i + 1 && refers_to(#[trigger] all@[k], x) by {
                    if now.contains(x) {
                        if before.contains(x) {
                            let k = choose|k: int| 0 <= k < i && refers_to(#[trigger] all@[k], x);
                            assert(refers_to(all@[k], x));
                        } else {
                            let n = choose|n: int| 0 <= n < now.len() && now[n] == x;
                            if n < before.len() {
                                assert(before[n] == x);
                            }
                        }
                    }
                    if exists|k: int| 0 <= k < i + 1 && refers_to(#[trigger] all@[k], x) {
                        let k = choose|k: int| 0 <= k < i + 1 && refers_to(#[trigger] all@[k], x);
                        if k < i {
                            assert(before.contains(x));
                            let n = choose|n: int| 0 <= n < before.len() && before[n] == x;
                            assert(now[n] == x);
                        } else {
                            assert(x == id@);
                            if !before.contains(x) {
                                assert(now[now.len() - 1] == x);
                            }
                        }
                    }
                }
            }
        } else {
            assert forall|x: Seq<char>| #[trigger] before.contains(x) <==> exists|k: int|
                0 <= k < i + 1 && refers_to(#[trigger] all@[k], x) by {
                if exists|k: int| 0 <= k < i + 1 && refers_to(#[trigger] all@[k], x) {
                    let k = choose|k: int| 0 <= k < i + 1 && refers_to(#[trigger] all@[k], x);
                    assert(k < i);
                }
            }
        }
        i += 1;
    }
    proof {
        profiles::indexed_entries(all@);
        let m = store@.profiles;
        assert forall|id: Seq<char>| #[trigger] text::texts(out@).contains(id) <==> is_used(m, id) by {
            if text::texts(out@).contains(id) {
                let k = choose|k: int| 0 <= k < all@.len() && refers_to(#[trigger] all@[k], id);
                assert(m.contains_key(all@[k].connection_uuid@));
            }
            if is_used(m, id) {
                let uuid = choose|uuid: Seq<char>| #[trigger]
                    m.contains_key(uuid) && refers_to(m[uuid], id);
                let k = choose|k: int|
                    0 <= k < all@.len() && (#[trigger] all@[k]).connection_uuid@ == uuid;
                assert(refers_to(all@[k], id));
            }
        }
    }
    out
}

/// The credentials to delete: those that profiles referred to before and none does now.
/// Profiles that were copied share an id, so it is the profiles that remain that decide.
pub fn unused_secrets(before: &Vec<String>, store: &ProfileStore) -> (r: Vec<String>)
    ensures
        forall|id: Seq<char>| #[trigger]
            text::texts(r@).contains(id) <==> text::texts(before@).contains(id) && !is_used(
                store@.profiles,
                id,
            ),
        text::texts(before@).no_duplicates() ==> text::texts(r@).no_duplicates(),
{
    let used = secret_ids(store);
    let ghost old_ids = text::texts(before@);
    let mut out: Vec<String> = Vec::new();
    let mut i: usize = 0;
    assert(text::texts(out@) =~= Seq::<Seq<char>>::empty());
    while i < before.len()
        invariant
            i <= before@.len(),
            old_ids == text::texts(before@),
            old_ids.len() == before@.len(),
            forall|id: Seq<char>| #[trigger]
                text::texts(used@).contains(id) <==> is_used(store@.profiles, id),
            forall|id: Seq<char>| #[trigger]
                text::texts(out@).contains(id) <==> old_ids.take(i as int).contains(id) && !is_used(
                    store@.profiles,
                    id,
                ),
            old_ids.no_duplicates() ==> text::texts(out@).no_duplicates(),
        decreases before@.len() - i,
    {
        let ghost kept = text::texts(out@);
        let ghost id = before@[i as int]@;
        assert(old_ids[i as int] == id);
        let drop = !holds(&used, before[i].as_str());
        if drop {
            out.push(before[i].clone());
            assert(text::texts(out@) =~= kept.push(id));
            proof {
                if old_ids.no_duplicates() {
                    assert(!old_ids.take(i as int).contains(id));
                    assert(!kept.contains(id));
                }
            }
        }
        proof {
            let now = text::texts(out@);
            assert forall|x: Seq<char>| #[trigger] now.contains(x) <==> old_ids.take(
                i + 1,
            ).contains(x) && !is_used(store@.profiles, x) by {
                let (a, b) = (old_ids.take(i as int), old_ids.take(i + 1));
                assert(b =~= a.push(id));
                if now.contains(x) {
                    let n = choose|n: int| 0 <= n < now.len() && now[n] == x;
                    if n < kept.len() {
                        assert(kept[n] == x);
                        assert(kept.contains(x));
                        let m = choose|m: int| 0 <= m < a.len() && a[m] == x;
                        assert(b[m] == x);
                    } else {
                        assert(b[i as int] == x);
                    }
                }
                if b.contains(x) && !is_used(store@.profiles, x) {
                    let m = choose|m: int| 0 <= m < b.len() && b[m] == x;
                    if m < a.len() {
                        assert(a[m] == x);
                        assert(kept.contains(x));
                        let n = choose|n: int| 0 <= n < kept.len() && kept[n] == x;
                        assert(now[n] == x);
                    } else {
                        assert(now[now.len() - 1] == x);
                    }
                }
            }
        }
        i += 1;
    }
    assert(old_ids.take(i as int) =~= old_ids);
    out
}

// ---------------------------------------------------------------------------
// Laws
// ---------------------------------------------------------------------------

/// A command that fails changes nothing.
pub proof fn failed_command_changes_nothing(
    c: ProfileCommand,
    before: StoreView,
    after: StoreView,
    r: Result<Vec<String>, CommandError>,
)
    requires
        carries_out(c, before, after, r),
        r is Err,
    ensures
        after == before,
{
}

/// A command touches no profile but the one for the connection that it names.
pub proof fn command_leaves_the_others(
    c: ProfileCommand,
    before: StoreView,
    after: StoreView,
    r: Result<Vec<String>, CommandError>,
    uuid: Seq<char>,
)
    requires
        carries_out(c, before, after, r),
        match c {
            ProfileCommand::List => true,
            ProfileCommand::Add(q) => q.uuid@ != uuid,
            ProfileCommand::Remove(u) => u@ != uuid,
            ProfileCommand::Enable(u) => u@ != uuid,
            ProfileCommand::Disable(u) => u@ != uuid,
            ProfileCommand::Assign(to, _) => to@ != uuid,
        },
    ensures
        after.profiles.contains_key(uuid) <==> before.profiles.contains_key(uuid),
        before.profiles.contains_key(uuid) ==> after.profiles[uuid] == before.profiles[uuid],
{
}

/// Disabling a profile and enabling it again gives back what there was, where it was
/// enabled.
pub proof fn enable_undoes_disable(before: StoreView, uuid: Seq<char>)
    requires
        before.profiles.contains_key(uuid),
        before.profiles[uuid].enabled,
    ensures
        ({
            let off = before.profiles.insert(
                uuid,
                ProxyProfile { enabled: false, ..before.profiles[uuid] },
            );
            off.insert(uuid, ProxyProfile { enabled: true, ..off[uuid] }) == before.profiles
        }),
{
    let off = before.profiles.insert(
        uuid,
        ProxyProfile { enabled: false, ..before.profiles[uuid] },
    );
    assert(off.insert(uuid, ProxyProfile { enabled: true, ..off[uuid] }) =~= before.profiles);
}

/// Whether `host` is what `given` holds between white space, and not empty.
pub open spec fn stands_in(host: Seq<char>, given: Seq<char>) -> bool {
    exists|from: int, to: int|
        #![trigger given.subrange(from, to)]
        0 <= from < to <= given.len() && host == given.subrange(from, to) && !text::is_white(
            given[from],
        ) && !text::is_white(given[to - 1]) && (forall|i: int|
            0 <= i < given.len() && !(from <= i < to) ==> text::is_white(#[trigger] given[i]))
}

/// A profile that was added is the one that was asked for, in everything that a request
/// can say: an `http` proxy is an HTTP proxy, `socks5` and `socks` are SOCKS5, each mode is
/// the one of that name, the profile is enabled unless it is to be disabled, DNS goes
/// through the proxy unless it is to go direct, and the kill switch is on unless it is not
/// wanted.
pub proof fn added_profile_is_as_asked(
    q: AddRequest,
    before: StoreView,
    after: StoreView,
    r: Result<Vec<String>, CommandError>,
)
    requires
        carries_out(ProfileCommand::Add(q), before, after, r),
        r is Ok,
    ensures
        after.profiles.contains_key(q.uuid@),
        ({
            let p = after.profiles[q.uuid@];
            let (t, u, l) = (
                text::lowered(q.proxy_type@),
                text::lowered(q.udp@),
                text::lowered(q.local_network@),
            );
            &&& p.connection_uuid@ == q.uuid@
            &&& p.label == q.label
            &&& p.enabled != q.disable
            &&& p.auto_connect == q.auto_connect
            &&& p.proxy.proxy_type is Http <==> t == "http"@
            &&& p.proxy.proxy_type is Socks5 <==> t == "socks5"@ || t == "socks"@
            &&& stands_in(p.proxy.host@, q.host@)
            &&& p.proxy.port == q.port
            &&& p.proxy.port != 0
            &&& p.proxy.secret_id == q.secret_id
            &&& p.proxy.authentication is Keyring <==> q.secret_id is Some
            &&& p.dns is Direct <==> q.direct_dns
            &&& p.routing.ipv4
            &&& p.routing.ipv6 == q.ipv6
            &&& p.udp is Proxy <==> u == "proxy"@
            &&& p.udp is Block <==> u == "block"@
            &&& p.udp is Direct <==> u == "direct"@
            &&& p.local_network is Proxy <==> l == "proxy"@
            &&& p.local_network is Direct <==> l == "direct"@
            &&& p.local_network is Block <==> l == "block"@
            &&& p.kill_switch.enabled != q.no_kill_switch
        }),
{
    reveal_strlit("http");
    reveal_strlit("socks5");
    reveal_strlit("socks");
    reveal_strlit("proxy");
    reveal_strlit("block");
    reveal_strlit("direct");
    assert("http"@[0] == 'h' && "socks5"@[0] == 's' && "socks"@[0] == 's');
    assert("proxy"@[0] == 'p' && "block"@[0] == 'b' && "direct"@[0] == 'd');
    let cut = text::trimming_cuts_white_space_only(q.host@);
    text::blank_iff_trimmed_empty(q.host@);
    let p = after.profiles[q.uuid@];
    assert(p.proxy.host@ == q.host@.subrange(cut.0, cut.1));
    if cut.0 == cut.1 {
        assert forall|i: int| 0 <= i < q.host@.len() implies text::is_white(#[trigger] q.host@[i]) by {
            if i >= cut.0 {
                assert(cut.1 <= i < q.host@.len());
            }
        }
        assert(text::is_blank(q.host@));
    }
    assert(stands_in(p.proxy.host@, q.host@));
}

/// Requests that ask for different proxy types leave different profiles, whatever else
/// they ask for.
pub proof fn proxy_types_are_kept_apart(
    q: AddRequest,
    other: AddRequest,
    before: StoreView,
    after: StoreView,
    otherwise: StoreView,
    r: Result<Vec<String>, CommandError>,
    s: Result<Vec<String>, CommandError>,
)
    requires
        carries_out(ProfileCommand::Add(q), before, after, r),
        carries_out(ProfileCommand::Add(other), before, otherwise, s),
        r is Ok,
        s is Ok,
        text::lowered(q.proxy_type@) == "http"@,
        text::lowered(other.proxy_type@) != "http"@,
    ensures
        after.profiles[q.uuid@].proxy.proxy_type == ProxyType::Http,
        otherwise.profiles[other.uuid@].proxy.proxy_type == ProxyType::Socks5,
        after.profiles[q.uuid@] != otherwise.profiles[other.uuid@],
{
    added_profile_is_as_asked(q, before, after, r);
    added_profile_is_as_asked(other, before, otherwise, s);
}

/// A profile is added just where the request names a proxy type, a UDP mode and a
/// local-network mode that there are, a host that is not blank, and a port that is not 0.
pub proof fn sound_requests_are_added(
    q: AddRequest,
    before: StoreView,
    after: StoreView,
    r: Result<Vec<String>, CommandError>,
)
    requires
        carries_out(ProfileCommand::Add(q), before, after, r),
    ensures
        ({
            let (t, u, l) = (
                text::lowered(q.proxy_type@),
                text::lowered(q.udp@),
                text::lowered(q.local_network@),
            );
            r is Ok <==> (t == "http"@ || t == "socks5"@ || t == "socks"@) && (u == "proxy"@ || u
                == "block"@ || u == "direct"@) && (l == "proxy"@ || l == "block"@ || l
                == "direct"@) && (exists|i: int|
                0 <= i < q.host@.len() && !text::is_white(#[trigger] q.host@[i])) && q.port != 0
        }),
{
}

/// Adding a profile for a connection that has none and removing it again gives back what
/// there was.
pub proof fn remove_undoes_add(
    q: AddRequest,
    uuid: String,
    before: StoreView,
    between: StoreView,
    after: StoreView,
    r: Result<Vec<String>, CommandError>,
    s: Result<Vec<String>, CommandError>,
)
    requires
        uuid@ == q.uuid@,
        !before.profiles.contains_key(q.uuid@),
        carries_out(ProfileCommand::Add(q), before, between, r),
        r is Ok,
        carries_out(ProfileCommand::Remove(uuid), between, after, s),
    ensures
        s is Ok,
        after == before,
{
    assert(after.profiles =~= before.profiles);
}

/// A profile that was removed is gone, and one that is not there cannot be removed.
pub proof fn removed_profile_is_gone(
    uuid: String,
    before: StoreView,
    after: StoreView,
    r: Result<Vec<String>, CommandError>,
)
    requires
        carries_out(ProfileCommand::Remove(uuid), before, after, r),
    ensures
        !after.profiles.contains_key(uuid@),
        r is Ok <==> before.profiles.contains_key(uuid@),
{
}

/// Enabling a profile enables it, disabling it disables it, and neither changes anything
/// else of it; one that is not there can be neither.
pub proof fn enabling_is_all_that_changes(
    uuid: String,
    enable: bool,
    before: StoreView,
    after: StoreView,
    r: Result<Vec<String>, CommandError>,
)
    requires
        carries_out(
            if enable {
                ProfileCommand::Enable(uuid)
            } else {
                ProfileCommand::Disable(uuid)
            },
            before,
            after,
            r,
        ),
    ensures
        r is Ok <==> before.profiles.contains_key(uuid@),
        r is Ok ==> after.profiles.contains_key(uuid@) && after.profiles[uuid@].enabled == enable && (
        ProxyProfile { enabled: before.profiles[uuid@].enabled, ..after.profiles[uuid@] })
            == before.profiles[uuid@],
{
}

/// Assigning copies a profile onto a connection: the copy says what the profile says, but
/// for the connection that it is for, and the profile itself stays.
pub proof fn assigned_profile_is_a_copy(
    to: String,
    from: String,
    before: StoreView,
    after: StoreView,
    r: Result<Vec<String>, CommandError>,
)
    requires
        carries_out(ProfileCommand::Assign(to, from), before, after, r),
    ensures
        r is Ok <==> before.profiles.contains_key(from@),
        r is Ok ==> ({
            let (copy, source) = (after.profiles[to@], before.profiles[from@]);
            &&& after.profiles.contains_key(to@)
            &&& copy.connection_uuid@ == to@
            &&& copy.proxy == source.proxy
            &&& copy.enabled == source.enabled
            &&& copy.label == source.label
            &&& copy.dns == source.dns
            &&& copy.routing == source.routing
            &&& copy.udp == source.udp
            &&& copy.local_network == source.local_network
            &&& copy.kill_switch == source.kill_switch
            &&& copy.auto_connect == source.auto_connect
            &&& to@ != from@ ==> after.profiles[from@] == source
        }),
{
}

/// A warning is printed ahead of a command just where the command then takes the place of a
/// profile that is there.
pub proof fn warning_tells_what_is_overwritten(
    to: String,
    from: String,
    before: StoreView,
    after: StoreView,
    r: Result<Vec<String>, CommandError>,
)
    requires
        carries_out(ProfileCommand::Assign(to, from), before, after, r),
    ensures
        printed_before(ProfileCommand::Assign(to, from), before) is Some <==> r is Ok
            && before.profiles.contains_key(to@),
{
}

/// Profiles are listed from the smallest uuid up: of two, the one that comes first has the
/// smaller byte where their uuids first differ, or ends there.
pub proof fn listing_goes_up(
    list: Seq<ProxyProfile>,
    m: Map<Seq<char>, ProxyProfile>,
    i: int,
    j: int,
)
    requires
        is_listing(list, m),
        0 <= i < j < list.len(),
    ensures
        ({
            let a = vstd::utf8::encode_utf8(list[i].connection_uuid@);
            let b = vstd::utf8::encode_utf8(list[j].connection_uuid@);
            exists|n: int|
                #![trigger a.take(n)]
                0 <= n <= a.len() && n < b.len() && a.take(n) == b.take(n) && (n == a.len() || a[n]
                    < b[n])
        }),
        m.contains_key(list[i].connection_uuid@),
        m[list[i].connection_uuid@] == list[i],
{
    let a = vstd::utf8::encode_utf8(list[i].connection_uuid@);
    let b = vstd::utf8::encode_utf8(list[j].connection_uuid@);
    assert(text::text_before(list[i].connection_uuid@, list[j].connection_uuid@));
    text::order_is_by_the_first_difference(a, b);
    ordered_is_unique(list);
    profiles::indexed_entries(list);
}

/// Every profile is listed once.
pub proof fn every_profile_is_listed(
    list: Seq<ProxyProfile>,
    m: Map<Seq<char>, ProxyProfile>,
    uuid: Seq<char>,
)
    requires
        is_listing(list, m),
        m.contains_key(uuid),
    ensures
        list.contains(m[uuid]),
        forall|i: int, j: int|
            0 <= i < list.len() && 0 <= j < list.len() && #[trigger] list[i] == #[trigger] list[j]
                ==> i == j,
{
    ordered_is_unique(list);
    profiles::indexed_entries(list);
    let k = choose|k: int| 0 <= k < list.len() && (#[trigger] list[k]).connection_uuid@ == uuid;
    assert(list[k] == m[uuid]);
}

/// The row of a profile tells whether it is enabled, starts by itself and has the kill
/// switch on, and which proxy, DNS mode and credentials it uses.
pub proof fn rows_tell_profiles_apart(p: ProxyProfile, other: ProxyProfile)
    requires
        list_row(p) == list_row(other),
    ensures
        p.connection_uuid@ == other.connection_uuid@,
        p.enabled == other.enabled,
        p.auto_connect == other.auto_connect,
        p.dns == other.dns,
        p.kill_switch == other.kill_switch,
        p.proxy.authentication == other.proxy.authentication,
        status::proxy_url(p) == status::proxy_url(other),
        p.enabled ==> list_row(p)[2] == "enabled"@,
        p.auto_connect ==> list_row(p)[3] == "yes"@,
        p.kill_switch.enabled ==> list_row(p)[6] == "on"@,
        p.dns is Direct ==> list_row(p)[5] == "direct"@,
{
    let (a, b) = (list_row(p), list_row(other));
    assert(a[0] == b[0] && a[2] == b[2] && a[3] == b[3] && a[4] == b[4] && a[5] == b[5]);
    assert(a[6] == b[6] && a[7] == b[7]);
    reveal_strlit("enabled");
    reveal_strlit("disabled");
    reveal_strlit("yes");
    reveal_strlit("no");
    reveal_strlit("on");
    reveal_strlit("off");
    reveal_strlit("proxied");
    reveal_strlit("direct");
    reveal_strlit("none");
    reveal_strlit("keyring");
    assert("enabled"@.len() == 7 && "disabled"@.len() == 8 && "yes"@.len() == 3 && "no"@.len() == 2);
    assert("on"@.len() == 2 && "off"@.len() == 3 && "proxied"@.len() == 7 && "direct"@.len() == 6);
    assert("none"@.len() == 4 && "keyring"@.len() == 7);
}

/// What is printed of a profile that was added names its connection, and says that the
/// daemon will start it by itself just where it is enabled and starts by itself, and that
/// it is disabled just where it is.
pub proof fn printed_lines_tell_what_was_saved(
    q: AddRequest,
    before: StoreView,
    after: StoreView,
    r: Result<Vec<String>, CommandError>,
)
    requires
        carries_out(ProfileCommand::Add(q), before, after, r),
        r is Ok,
    ensures
        ({
            let lines = text::texts(r->Ok_0@);
            &&& lines.len() == 2
            &&& lines[0] == "Profile saved for connection "@ + q.uuid@ + "."@
            &&& "The daemon will activate"@.is_prefix_of(lines[1]) <==> !q.disable && q.auto_connect
            &&& "Profile is enabled"@.is_prefix_of(lines[1]) <==> !q.disable && !q.auto_connect
            &&& "Profile is disabled"@.is_prefix_of(lines[1]) <==> q.disable
        }),
{
    let line = text::texts(r->Ok_0@)[1];
    reveal_strlit("The daemon will activate");
    reveal_strlit("Profile is enabled");
    reveal_strlit("Profile is disabled");
    reveal_strlit("The daemon will activate this proxy whenever that Wi-Fi connects.");
    reveal_strlit(
        "Profile is enabled but auto-connect is off; it will only be used when started manually.",
    );
    reveal_strlit("Profile is disabled; enable it with `proxywifi profiles enable <uuid>`.");
    if q.disable {
        assert(line.take(19) =~= "Profile is disabled"@);
        assert(line[11] == 'd');
    } else if q.auto_connect {
        assert(line.take(24) =~= "The daemon will activate"@);
        assert(line[0] == 'T');
    } else {
        assert(line.take(18) =~= "Profile is enabled"@);
        assert(line[11] == 'e');
    }
    if "The daemon will activate"@.is_prefix_of(line) {
        assert(line[0] == line.take(24)[0]);
    }
    if "Profile is enabled"@.is_prefix_of(line) {
        assert(line[0] == line.take(18)[0] && line[11] == line.take(18)[11]);
    }
    if "Profile is disabled"@.is_prefix_of(line) {
        assert(line[0] == line.take(19)[0] && line[11] == line.take(19)[11]);
    }
}

/// The credentials of different connections have different labels, each of which ends with
/// the uuid of its connection.
pub proof fn labels_tell_connections_apart(uuid: Seq<char>, other: Seq<char>)
    ensures
        uuid.is_suffix_of(secret_label(uuid)),
        secret_label(uuid) == secret_label(other) ==> uuid == other,
{
    let label = secret_label(uuid);
    let n = "ProxyWiFi proxy credentials for "@.len() as int;
    assert(label.skip(label.len() - uuid.len()) =~= uuid);
    if label == secret_label(other) {
        assert(label.skip(n) =~= uuid);
        assert(secret_label(other).skip(n) =~= other);
    }
}

/// Credentials are in use just where some profile holds their id; so an id that no profile
/// holds is not, and one that a profile holds is, whatever the others hold.
pub proof fn credentials_are_used_by_their_holders(
    m: Map<Seq<char>, ProxyProfile>,
    uuid: Seq<char>,
    id: Seq<char>,
)
    ensures
        m.contains_key(uuid) && m[uuid].proxy.secret_id is Some && m[uuid].proxy.secret_id->0@ == id
            ==> is_used(m, id),
        (forall|u: Seq<char>| #[trigger]
            m.contains_key(u) ==> m[u].proxy.secret_id is None || m[u].proxy.secret_id->0@ != id)
            ==> !is_used(m, id),
{
    if m.contains_key(uuid) && m[uuid].proxy.secret_id is Some && m[uuid].proxy.secret_id->0@ == id {
        assert(refers_to(m[uuid], id));
    }
}

/// A list that is not empty ends with how many profiles there are.
pub proof fn list_tells_how_many(list: Seq<ProxyProfile>)
    requires
        list.len() > 0,
    ensures
        ({
            let lines = list_lines(list);
            let shown = text::decimal_text(list.len());
            &&& lines.len() == 2
            &&& lines[1] == shown + " profile(s)."@
            &&& crate::addr::digits_value(lines[1].take(shown.len() as int)) == list.len()
            &&& list_table(list).len() == list.len()
        }),
{
    let shown = text::decimal_text(list.len());
    crate::addr::decimal_reads_back(list.len());
    assert(list_lines(list)[1].take(shown.len() as int) =~= shown);
}

/// A command after which the profiles are not saved has changed none of them.
pub proof fn only_writes_change_the_store(
    c: ProfileCommand,
    before: StoreView,
    after: StoreView,
    r: Result<Vec<String>, CommandError>,
)
    requires
        carries_out(c, before, after, r),
        !writes(c),
    ensures
        after == before,
        r is Ok,
{
}

/// Credentials are stored just where a user name or a password is given, each as it is
/// given, under the name of the connection.
pub proof fn given_credentials_are_stored(
    r: Option<SecretRequest>,
    uuid: Seq<char>,
    username: Option<Seq<char>>,
    password: Option<Seq<char>>,
)
    requires
        is_requested(r, uuid, username, password),
    ensures
        r is Some <==> username is Some || password is Some,
        r matches Some(q) ==> uuid.is_suffix_of(q.label@),
        r is Some && username is Some ==> r->0.username@ == username->0,
        r is Some && password is Some ==> r->0.password@ == password->0,
        r is Some && password is None ==> r->0.password@ == Seq::<char>::empty(),
        r is Some && username is None ==> r->0.username@ == Seq::<char>::empty(),
{
    labels_tell_connections_apart(uuid, uuid);
}

} // verus!
