//! `proxywifi status`.

use crate::cli::grid;
use crate::models::{ActiveWifi, ProxyProfile, WifiConnection};
use crate::profiles::ProfileStore;
use crate::text;
use vstd::prelude::*;

verus! {

/// A proxy as a URL.
pub open spec fn proxy_url(p: ProxyProfile) -> Seq<char> {
    p.proxy.proxy_type.name() + "://"@ + p.proxy.host@ + ":"@ + text::decimal_text(
        p.proxy.port as nat,
    )
}

/// The profile's proxy as a URL.
pub fn show_proxy(p: &ProxyProfile) -> (r: String)
    ensures
        r@ == proxy_url(*p),
{
    let mut r = p.proxy.proxy_type.text();
    r.append("://");
    r.append(p.proxy.host.as_str());
    r.append(":");
    r.append(text::decimal(p.proxy.port as u64).as_str());
    r
}

/// What is shown of the Wi-Fi connection that is up.
pub open spec fn wifi_rows(w: ActiveWifi) -> Seq<Seq<Seq<char>>> {
    seq![
        seq!["Connected SSID"@, w.ssid@],
        seq!["Connection UUID"@, w.uuid@],
        seq!["Interface"@, w.interface@],
        seq!["IPv4"@, grid::text_or(w.ipv4, "-"@)],
        seq!["IPv6"@, grid::text_or(w.ipv6, "-"@)],
        seq!["Default route"@, grid::bool_text(w.has_default_route)],
    ]
}

/// What is shown of the profile that is assigned to it.
pub open spec fn profile_rows(p: ProxyProfile) -> Seq<Seq<Seq<char>>> {
    seq![
        seq!["Matched profile"@, grid::text_or(p.label, "<no label>"@)],
        seq!["Profile enabled"@, grid::bool_text(p.enabled)],
        seq!["Auto-activate"@, grid::bool_text(p.enabled && p.auto_connect)],
        seq!["Proxy"@, proxy_url(p)],
        seq!["DNS mode"@, p.dns.name()],
        seq!["Kill switch"@, grid::bool_text(p.kill_switch.enabled)],
    ]
}

/// The rows of the status table; `profile` is the one assigned to the connection,
/// enabled or not.
pub open spec fn status_table(
    wifi_enabled: bool,
    active: Option<ActiveWifi>,
    profile: Option<ProxyProfile>,
) -> Seq<Seq<Seq<char>>> {
    seq![seq!["Wi-Fi enabled"@, grid::bool_text(wifi_enabled)]] + match active {
        Some(w) => wifi_rows(w) + match profile {
            Some(p) => profile_rows(p),
            None => seq![seq!["Matched profile"@, "none assigned to this connection"@]],
        },
        None => seq![
            seq!["Connected SSID"@, "(not connected)"@],
            seq!["Matched profile"@, "n/a"@],
        ],
    }
}

fn list_wifi(w: &ActiveWifi) -> (r: Vec<Vec<String>>)
    ensures
        text::rows(r@) == wifi_rows(*w),
{
    let mut r: Vec<Vec<String>> = Vec::new();
    assert(text::rows(r@) =~= Seq::<Seq<Seq<char>>>::empty());
    grid::add_row(&mut r, grid::pair("Connected SSID", w.ssid.clone()));
    grid::add_row(&mut r, grid::pair("Connection UUID", w.uuid.clone()));
    grid::add_row(&mut r, grid::pair("Interface", w.interface.clone()));
    grid::add_row(&mut r, grid::pair("IPv4", grid::show_or(&w.ipv4, "-")));
    grid::add_row(&mut r, grid::pair("IPv6", grid::show_or(&w.ipv6, "-")));
    grid::add_row(&mut r, grid::pair("Default route", grid::show_bool(w.has_default_route)));
    assert(text::rows(r@) =~= wifi_rows(*w));
    r
}

fn list_profile(p: &ProxyProfile) -> (r: Vec<Vec<String>>)
    ensures
        text::rows(r@) == profile_rows(*p),
{
    let mut r: Vec<Vec<String>> = Vec::new();
    assert(text::rows(r@) =~= Seq::<Seq<Seq<char>>>::empty());
    grid::add_row(&mut r, grid::pair("Matched profile", grid::show_or(&p.label, "<no label>")));
    grid::add_row(&mut r, grid::pair("Profile enabled", grid::show_bool(p.enabled)));
    grid::add_row(&mut r, grid::pair("Auto-activate", grid::show_bool(p.should_auto_activate())));
    grid::add_row(&mut r, grid::pair("Proxy", show_proxy(p)));
    grid::add_row(&mut r, grid::pair("DNS mode", p.dns.text()));
    grid::add_row(&mut r, grid::pair("Kill switch", grid::show_bool(p.kill_switch.enabled)));
    assert(text::rows(r@) =~= profile_rows(*p));
    r
}

fn join_rows(a: Vec<Vec<String>>, b: Vec<Vec<String>>) -> (r: Vec<Vec<String>>)
    ensures
        text::rows(r@) == text::rows(a@) + text::rows(b@),
{
    let mut r = a;
    let mut more = b;
    let ghost (x, y) = (r@, more@);
    r.append(&mut more);
    assert(text::rows(x + y) =~= text::rows(x) + text::rows(y));
    r
}

fn one_row(name: &str, value: &str) -> (r: Vec<Vec<String>>)
    ensures
        text::rows(r@) == seq![seq![name@, value@]],
{
    let r: Vec<Vec<String>> = vec![grid::pair(name, value.to_owned())];
    assert(text::rows(r@) =~= seq![seq![name@, value@]]);
    r
}

/// The rows of the status table.
pub fn status_rows(wifi_enabled: bool, active: Option<&ActiveWifi>, profile: Option<&ProxyProfile>) -> (r:
    Vec<Vec<String>>)
    ensures
        text::rows(r@) == status_table(
            wifi_enabled,
            match active {
                Some(w) => Some(*w),
                None => None,
            },
            match profile {
                Some(p) => Some(*p),
                None => None,
            },
        ),
{
    let first = one_row("Wi-Fi enabled", grid::show_bool(wifi_enabled).as_str());
    let rest = match active {
        Some(w) => {
            let matched = match profile {
                Some(p) => list_profile(p),
                None => one_row("Matched profile", "none assigned to this connection"),
            };
            join_rows(list_wifi(w), matched)
        },
        None => {
            let r = join_rows(
                one_row("Connected SSID", "(not connected)"),
                one_row("Matched profile", "n/a"),
            );
            assert(text::rows(r@) =~= seq![
                seq!["Connected SSID"@, "(not connected)"@],
                seq!["Matched profile"@, "n/a"@],
            ]);
            r
        },
    };
    join_rows(first, rest)
}

/// What is shown of a saved connection.
pub open spec fn saved_row(c: WifiConnection) -> Seq<Seq<char>> {
    seq![c.uuid@, c.name@, grid::text_or(c.ssid, "-"@), c.state@]
}

/// The rows of the table of saved connections.
pub open spec fn saved_table(saved: Seq<WifiConnection>) -> Seq<Seq<Seq<char>>> {
    saved.map_values(|c: WifiConnection| saved_row(c))
}

/// The rows of the table of saved connections.
pub fn saved_rows(saved: &Vec<WifiConnection>) -> (r: Vec<Vec<String>>)
    ensures
        text::rows(r@) == saved_table(saved@),
{
    let mut r: Vec<Vec<String>> = Vec::new();
    let mut i: usize = 0;
    assert(text::rows(r@) =~= saved_table(saved@).take(0));
    while i < saved.len()
        invariant
            i <= saved@.len(),
            text::rows(r@) == saved_table(saved@).take(i as int),
        decreases saved@.len() - i,
    {
        let c = &saved[i];
        let row: Vec<String> = vec![
            c.uuid.clone(),
            c.name.clone(),
            grid::show_or(&c.ssid, "-"),
            c.state.clone(),
        ];
        proof {
            assert(text::texts(row@) =~= saved_row(*c));
            assert(saved_table(saved@).take(i + 1) =~= saved_table(saved@).take(i as int).push(
                saved_row(*c),
            ));
        }
        grid::add_row(&mut r, row);
        i += 1;
    }
    assert(saved_table(saved@).take(i as int) =~= saved_table(saved@));
    r
}

// ---------------------------------------------------------------------------
// The report
// ---------------------------------------------------------------------------

/// What NetworkManager answered.
pub struct Reading {
    pub wifi_enabled: bool,
    pub active: Option<ActiveWifi>,
    /// The saved connections, or why they could not be listed; asked for only without an
    /// active connection.
    pub saved: Result<Vec<WifiConnection>, String>,
}

/// What the command prints and how it ends: lines on the standard output, a warning
/// beside them, and the error that it fails with.
pub struct Report {
    pub lines: Vec<String>,
    pub warning: Option<String>,
    pub error: Option<String>,
}

/// What a [`Report`] says.
#[verifier::ext_equal]
pub struct ReportView {
    pub lines: Seq<Seq<char>>,
    pub warning: Option<Seq<char>>,
    pub error: Option<Seq<char>>,
}

impl View for Report {
    type V = ReportView;

    open spec fn view(&self) -> ReportView {
        ReportView {
            lines: text::texts(self.lines@),
            warning: crate::models::opt_text(self.warning),
            error: crate::models::opt_text(self.error),
        }
    }
}

/// The header of the status table.
pub open spec fn status_header() -> Seq<Seq<char>> {
    seq!["Property"@, "Value"@]
}

/// The header of the table of saved connections.
pub open spec fn saved_header() -> Seq<Seq<char>> {
    seq!["UUID"@, "Name"@, "SSID"@, "State"@]
}

/// The report without NetworkManager: how many profiles are stored in the file, which is
/// given as it is shown.
pub open spec fn offline_report(stored: nat, path: Seq<char>) -> ReportView {
    ReportView {
        lines: seq![
            "NetworkManager: NOT REACHABLE (system D-Bus)"@,
            "Stored proxy profiles: "@ + text::decimal_text(stored) + " ("@ + path
                + " profile file)"@,
        ],
        warning: None,
        error: Some("cannot read Wi-Fi state without NetworkManager"@),
    }
}

/// The report without NetworkManager.
pub fn report_offline(stored: usize, path: &str) -> (r: Report)
    ensures
        r@ == offline_report(stored as nat, path@),
{
    let mut second = "Stored proxy profiles: ".to_owned();
    second.append(text::decimal(stored as u64).as_str());
    second.append(" (");
    second.append(path);
    second.append(" profile file)");
    let lines: Vec<String> = vec!["NetworkManager: NOT REACHABLE (system D-Bus)".to_owned(), second];
    let r = Report {
        lines,
        warning: None,
        error: Some("cannot read Wi-Fi state without NetworkManager".to_owned()),
    };
    assert(r@.lines =~= offline_report(stored as nat, path@).lines);
    r
}

/// The report of what NetworkManager answered; `profile` is the one assigned to the
/// active connection. Without an active connection the saved ones are listed, to pick
/// one from; a list that could not be had is never passed off as an empty one.
pub open spec fn online_report(n: Reading, profile: Option<ProxyProfile>) -> ReportView {
    let table = grid::table_text(
        status_header(),
        status_table(n.wifi_enabled, n.active, profile),
    );
    let listed = match n.saved {
        Ok(saved) => n.active is None && saved@.len() > 0,
        Err(_) => false,
    };
    ReportView {
        lines: printed(
            table,
            if listed {
                Some(grid::table_text(saved_header(), saved_table(n.saved->Ok_0@)))
            } else {
                None
            },
        ),
        warning: match n.saved {
            Err(e) => if n.active is None {
                Some("warning: could not list saved Wi-Fi connections: "@ + e@)
            } else {
                None
            },
            Ok(_) => None,
        },
        error: None,
    }
}

/// What is printed: the status table, and the list of saved connections where there is
/// one.
pub open spec fn printed(table: Seq<char>, list: Option<Seq<char>>) -> Seq<Seq<char>> {
    match list {
        Some(l) => seq![table, "\nSaved Wi-Fi connections:"@, l],
        None => seq![table],
    }
}

/// What is printed: the status table, and the list of saved connections where there is
/// one.
pub fn print_status(table: String, list: Option<String>) -> (r: Vec<String>)
    ensures
        text::texts(r@) == printed(table@, crate::models::opt_text(list)),
{
    let ghost (first, second) = (table@, crate::models::opt_text(list));
    let mut lines: Vec<String> = vec![table];
    if let Some(l) = list {
        lines.push("\nSaved Wi-Fi connections:".to_owned());
        lines.push(l);
    }
    assert(text::texts(lines@) =~= printed(first, second));
    lines
}

/// The profile that is assigned to the active connection, enabled or not.
pub open spec fn assigned(
    profiles: Map<Seq<char>, ProxyProfile>,
    active: Option<ActiveWifi>,
) -> Option<ProxyProfile> {
    match active {
        Some(w) => if profiles.contains_key(w.uuid@) {
            Some(profiles[w.uuid@])
        } else {
            None
        },
        None => None,
    }
}

/// The report of what NetworkManager answered.
pub fn report_online(store: &ProfileStore, reading: &Reading) -> (r: Report)
    ensures
        r@ == online_report(*reading, assigned(store@.profiles, reading.active)),
{
    let profile = match &reading.active {
        Some(w) => store.get(w.uuid.as_str()),
        None => None,
    };
    let rows = status_rows(reading.wifi_enabled, reading.active.as_ref(), profile.as_ref());
    let header: Vec<String> = vec!["Property".to_owned(), "Value".to_owned()];
    assert(text::texts(header@) =~= status_header());
    let table = grid::render_table(&header, &rows);
    let mut list: Option<String> = None;
    let mut warning: Option<String> = None;
    if reading.active.is_none() {
        match &reading.saved {
            Ok(saved) => {
                if saved.len() > 0 {
                    let names: Vec<String> = vec![
                        "UUID".to_owned(),
                        "Name".to_owned(),
                        "SSID".to_owned(),
                        "State".to_owned(),
                    ];
                    assert(text::texts(names@) =~= saved_header());
                    list = Some(grid::render_table(&names, &saved_rows(saved)));
                }
            },
            Err(e) => {
                warning = Some(
                    crate::error::after(
                        "warning: could not list saved Wi-Fi connections: ",
                        e.as_str(),
                    ),
                );
            },
        }
    }
    Report { lines: print_status(table, list), warning, error: None }
}

// ---------------------------------------------------------------------------
// Laws
// ---------------------------------------------------------------------------

/// Whether a table has a row with this name and value.
pub open spec fn has_row(table: Seq<Seq<Seq<char>>>, name: Seq<char>, value: Seq<char>) -> bool {
    exists|i: int|
        0 <= i < table.len() && (#[trigger] table[i]).len() == 2 && table[i][0] == name && table[i][1]
            == value
}

/// The status of a connection says which one it is, and of its profile which proxy it uses,
/// whether it is enabled and would start by itself, and whether its kill switch is on.
pub proof fn status_is_of_the_connection(wifi_enabled: bool, w: ActiveWifi, p: ProxyProfile)
    ensures
        ({
            let table = status_table(wifi_enabled, Some(w), Some(p));
            &&& table.len() == 13
            &&& has_row(table, "Wi-Fi enabled"@, grid::bool_text(wifi_enabled))
            &&& has_row(table, "Connected SSID"@, w.ssid@)
            &&& has_row(table, "Connection UUID"@, w.uuid@)
            &&& has_row(table, "Interface"@, w.interface@)
            &&& has_row(table, "Default route"@, grid::bool_text(w.has_default_route))
            &&& w.ipv4 is Some ==> has_row(table, "IPv4"@, w.ipv4->0@)
            &&& w.ipv6 is Some ==> has_row(table, "IPv6"@, w.ipv6->0@)
            &&& p.label is Some ==> has_row(table, "Matched profile"@, p.label->0@)
            &&& has_row(table, "Profile enabled"@, grid::bool_text(p.enabled))
            &&& has_row(table, "Auto-activate"@, grid::bool_text(p.enabled && p.auto_connect))
            &&& has_row(table, "Proxy"@, proxy_url(p))
            &&& has_row(table, "DNS mode"@, p.dns.name())
            &&& has_row(table, "Kill switch"@, grid::bool_text(p.kill_switch.enabled))
        }),
{
    let t = status_table(wifi_enabled, Some(w), Some(p));
    let (a, b) = (wifi_rows(w), profile_rows(p));
    assert(t[0] == seq!["Wi-Fi enabled"@, grid::bool_text(wifi_enabled)]);
    assert(t[1] == a[0]);
    assert(t[2] == a[1]);
    assert(t[3] == a[2]);
    assert(t[4] == a[3]);
    assert(t[5] == a[4]);
    assert(t[6] == a[5]);
    assert(t[7] == b[0]);
    assert(t[8] == b[1]);
    assert(t[9] == b[2]);
    assert(t[10] == b[3]);
    assert(t[11] == b[4]);
    assert(t[12] == b[5]);
}

/// The profile that is shown is the stored one for the uuid of the connection that is up;
/// without a connection, or without a profile for it, none is.
pub proof fn shown_profile_is_for_the_connection(
    profiles: Map<Seq<char>, ProxyProfile>,
    active: Option<ActiveWifi>,
)
    ensures
        assigned(profiles, active) is Some <==> active is Some && profiles.contains_key(
            active->0.uuid@,
        ),
        assigned(profiles, active) is Some ==> assigned(profiles, active)->0
            == profiles[active->0.uuid@],
{
}

/// The URL of a proxy names its protocol, its host and its port: behind `://` stands the
/// host, and the digits behind the last colon are the port.
pub proof fn proxy_url_reads_back(p: ProxyProfile)
    ensures
        ({
            let url = proxy_url(p);
            let scheme = if p.proxy.proxy_type is Http {
                "http://"@
            } else {
                "socks5://"@
            };
            let port = text::decimal_text(p.proxy.port as nat);
            &&& scheme.is_prefix_of(url)
            &&& url == scheme + p.proxy.host@ + seq![':'] + port
            &&& crate::addr::digits_value(url.skip((scheme.len() + p.proxy.host@.len() + 1) as int))
                == p.proxy.port
        }),
{
    reveal_strlit("http");
    reveal_strlit("socks5");
    reveal_strlit("http://");
    reveal_strlit("socks5://");
    reveal_strlit("://");
    reveal_strlit(":");
    let url = proxy_url(p);
    let scheme = if p.proxy.proxy_type is Http {
        "http://"@
    } else {
        "socks5://"@
    };
    let port = text::decimal_text(p.proxy.port as nat);
    crate::addr::decimal_reads_back(p.proxy.port as nat);
    assert(url =~= scheme + p.proxy.host@ + seq![':'] + port);
    assert(url.take(scheme.len() as int) =~= scheme);
    assert(url.skip((scheme.len() + p.proxy.host@.len() + 1) as int) =~= port);
}

/// Saved connections are listed just where none is up and there are some, and a list that
/// could not be had is told so.
pub proof fn saved_connections_are_listed_without_one(n: Reading, profile: Option<ProxyProfile>)
    ensures
        ({
            let r = online_report(n, profile);
            &&& r.error is None
            &&& r.lines.len() == (if n.active is None && n.saved is Ok && n.saved->Ok_0@.len() > 0 {
                3nat
            } else {
                1nat
            })
            &&& r.warning is Some <==> n.active is None && n.saved is Err
        }),
{
}

/// Without NetworkManager the status fails, and still says how many profiles are stored.
pub proof fn offline_status_fails(stored: nat, path: Seq<char>)
    ensures
        ({
            let r = offline_report(stored, path);
            let shown = text::decimal_text(stored);
            &&& r.error is Some
            &&& r.warning is None
            &&& r.lines.len() == 2
            &&& crate::addr::digits_value(r.lines[1].subrange(23, 23 + shown.len() as int)) == stored
        }),
{
    reveal_strlit("Stored proxy profiles: ");
    let shown = text::decimal_text(stored);
    crate::addr::decimal_reads_back(stored);
    let line = offline_report(stored, path).lines[1];
    assert(line.subrange(23, 23 + shown.len() as int) =~= shown);
}

/// A saved connection is listed with its uuid, its name, its SSID and its state.
pub proof fn saved_rows_are_of_the_connections(saved: Seq<WifiConnection>, i: int)
    requires
        0 <= i < saved.len(),
    ensures
        saved_table(saved).len() == saved.len(),
        ({
            let row = saved_table(saved)[i];
            &&& row.len() == 4
            &&& row[0] == saved[i].uuid@
            &&& row[1] == saved[i].name@
            &&& saved[i].ssid is Some ==> row[2] == saved[i].ssid->0@
            &&& saved[i].ssid is None ==> row[2] == "-"@
            &&& row[3] == saved[i].state@
        }),
{
}

} // verus!
