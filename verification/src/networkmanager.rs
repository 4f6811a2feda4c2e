//! What the library makes of NetworkManager's answers.
//!
//! Everything is best-effort: a property that could not be read is missing from a
//! record, so that one broken access point or device cannot take a whole query down.

use crate::models;
use crate::models::{ActiveWifi, WifiConnection, WifiView};
use crate::text;
use vstd::prelude::*;

verus! {

/// What can go wrong with NetworkManager.
#[derive(Debug)]
pub enum NmError {
    /// A D-Bus failure.
    Dbus(String),
    /// NetworkManager cannot be reached.
    Unavailable(String),
}

impl NmError {
    /// What the error says.
    pub open spec fn says(self) -> Seq<char> {
        match self {
            NmError::Dbus(e) => "D-Bus error: "@ + e@,
            NmError::Unavailable(e) => "NetworkManager is not reachable: "@ + e@,
        }
    }

    /// What the error says.
    pub fn message(&self) -> (r: String)
        ensures
            r@ == self.says(),
    {
        match self {
            NmError::Dbus(e) => crate::error::after("D-Bus error: ", e.as_str()),
            NmError::Unavailable(e) => crate::error::after(
                "NetworkManager is not reachable: ",
                e.as_str(),
            ),
        }
    }
}

/// The device type of Wi-Fi devices.
pub const NM_DEVICE_TYPE_WIFI: u32 = 2;

/// The state of a connection that is fully up.
pub const NM_ACTIVE_CONNECTION_STATE_ACTIVATED: u32 = 2;

/// The type of Wi-Fi connections, which is also the name of their settings.
pub const NM_TYPE_WIRELESS: &'static str = "802-11-wireless";

/// Whether Wi-Fi is on, given what is known of the network stack and of the radio.
pub open spec fn is_wifi_on(networking: Option<bool>, wireless: Option<bool>) -> bool {
    match (networking, wireless) {
        (Some(stack), Some(radio)) => stack && radio,
        _ => false,
    }
}

/// Whether Wi-Fi is on: the network stack and the radio are, as far as they could be
/// asked.
pub fn wifi_enabled(networking: Option<bool>, wireless: Option<bool>) -> (r: bool)
    ensures
        r == is_wifi_on(networking, wireless),
        r == (networking == Some(true) && wireless == Some(true)),
{
    let stack = match networking {
        Some(on) => on,
        None => false,
    };
    let radio = match wireless {
        Some(on) => on,
        None => false,
    };
    stack && radio
}

// ---------------------------------------------------------------------------
// SSIDs
// ---------------------------------------------------------------------------

/// `s` without the NUL characters at its end.
pub open spec fn without_nuls(s: Seq<char>) -> Seq<char>
    decreases s.len(),
{
    if s.len() > 0 && s.last() == '\0' {
        without_nuls(s.drop_last())
    } else {
        s
    }
}

/// `s` without the NUL characters at its end.
pub fn trim_nuls(s: &str) -> (r: String)
    ensures
        r@ == without_nuls(s@),
{
    let chars = text::chars_of(s);
    let mut n: usize = chars.len();
    assert(chars@.take(n as int) =~= chars@);
    while n > 0 && chars[n - 1] == '\0'
        invariant
            n <= chars@.len(),
            without_nuls(chars@) == without_nuls(chars@.take(n as int)),
        decreases n,
    {
        proof {
            assert(chars@.take(n as int).last() == chars@[n - 1]);
            assert(chars@.take(n as int).drop_last() =~= chars@.take(n - 1));
        }
        n -= 1;
    }
    proof {
        if n > 0 {
            assert(chars@.take(n as int).last() == chars@[n - 1]);
        }
        assert(chars@.take(n as int) =~= chars@.subrange(0, n as int));
    }
    text::string_of(&chars, 0, n)
}

/// The text of an SSID.
pub open spec fn ssid_text(bytes: Seq<u8>) -> Seq<char> {
    without_nuls(text::shown_text(bytes))
}

/// The text of an SSID. NetworkManager reports raw bytes; they are decoded lossily, so
/// that a malformed SSID never ends a query.
pub fn ssid_to_string(bytes: &[u8]) -> (r: String)
    ensures
        r@ == ssid_text(bytes@),
{
    let decoded = text::decode(bytes);
    trim_nuls(decoded.as_str())
}

// ---------------------------------------------------------------------------
// Devices
// ---------------------------------------------------------------------------

/// A network device: its object path, and its type and interface where they could be
/// read.
pub struct DeviceRecord {
    pub path: String,
    pub device_type: Option<u32>,
    pub interface: Option<String>,
}

/// The text, or the empty one.
pub open spec fn or_empty(t: Option<String>) -> Seq<char> {
    match t {
        Some(s) => s@,
        None => Seq::empty(),
    }
}

fn text_or_empty(t: &Option<String>) -> (r: String)
    ensures
        r@ == or_empty(*t),
{
    match t {
        Some(s) => s.clone(),
        None => String::new(),
    }
}

/// The Wi-Fi devices, as object path and interface.
pub open spec fn wifi_device_list(devices: Seq<DeviceRecord>) -> Seq<(Seq<char>, Seq<char>)>
    decreases devices.len(),
{
    if devices.len() == 0 {
        Seq::empty()
    } else {
        let before = wifi_device_list(devices.drop_last());
        if devices.last().device_type == Some(NM_DEVICE_TYPE_WIFI) {
            before.push((devices.last().path@, or_empty(devices.last().interface)))
        } else {
            before
        }
    }
}

/// Pairs of texts.
pub open spec fn pairs_view(v: Seq<(String, String)>) -> Seq<(Seq<char>, Seq<char>)> {
    v.map_values(|p: (String, String)| (p.0@, p.1@))
}

/// The Wi-Fi devices, as object path and interface.
pub fn wifi_devices(devices: &Vec<DeviceRecord>) -> (r: Vec<(String, String)>)
    ensures
        pairs_view(r@) == wifi_device_list(devices@),
{
    let mut out: Vec<(String, String)> = Vec::new();
    let mut i: usize = 0;
    assert(devices@.take(0) =~= Seq::<DeviceRecord>::empty());
    assert(pairs_view(out@) =~= Seq::<(Seq<char>, Seq<char>)>::empty());
    while i < devices.len()
        invariant
            i <= devices@.len(),
            pairs_view(out@) == wifi_device_list(devices@.take(i as int)),
        decreases devices@.len() - i,
    {
        let d = &devices[i];
        proof {
            let seen = devices@.take(i + 1);
            assert(seen.drop_last() =~= devices@.take(i as int));
            assert(seen.last() == devices@[i as int]);
        }
        let wifi = match d.device_type {
            Some(t) => t == NM_DEVICE_TYPE_WIFI,
            None => false,
        };
        if wifi {
            let ghost before = out@;
            out.push((d.path.clone(), text_or_empty(&d.interface)));
            assert(pairs_view(out@) =~= pairs_view(before).push(
                (out@.last().0@, out@.last().1@),
            ));
        }
        i += 1;
    }
    assert(devices@.take(i as int) =~= devices@);
    out
}

// ---------------------------------------------------------------------------
// The active Wi-Fi connection
// ---------------------------------------------------------------------------

/// What could be read of the device that carries a connection.
pub struct LinkRecord {
    pub interface: Option<String>,
    /// The SSID of the access point that the device is associated with.
    pub ssid: Option<Vec<u8>>,
    pub ipv4: Option<String>,
    pub ipv6: Option<String>,
}

/// What could be read of an active connection.
pub struct ActiveRecord {
    pub path: String,
    pub connection_type: Option<String>,
    pub state: Option<u32>,
    pub uuid: Option<String>,
    /// The first of its devices.
    pub link: Option<LinkRecord>,
}

/// Whether a connection is a fully activated Wi-Fi connection with a device.
pub open spec fn is_wifi(r: ActiveRecord) -> bool {
    &&& models::opt_text(r.connection_type) == Some(NM_TYPE_WIRELESS@)
    &&& r.state == Some(NM_ACTIVE_CONNECTION_STATE_ACTIVATED)
    &&& r.link is Some
}

/// Whether a connection carries the default route.
pub open spec fn is_primary(r: ActiveRecord, primary: Option<Seq<char>>) -> bool {
    primary == Some(r.path@)
}

/// The first Wi-Fi connection of a list, among those that carry the default route where
/// `only_primary` says so.
pub open spec fn first_wifi(
    records: Seq<ActiveRecord>,
    primary: Option<Seq<char>>,
    only_primary: bool,
) -> Option<ActiveRecord>
    decreases records.len(),
{
    if records.len() == 0 {
        None
    } else if is_wifi(records[0]) && (only_primary ==> is_primary(records[0], primary)) {
        Some(records[0])
    } else {
        first_wifi(records.drop_first(), primary, only_primary)
    }
}

/// The Wi-Fi connection to report: one that carries the default route, or else the first.
pub open spec fn chosen_wifi(records: Seq<ActiveRecord>, primary: Option<Seq<char>>) -> Option<
    ActiveRecord,
> {
    if first_wifi(records, primary, true) is Some {
        first_wifi(records, primary, true)
    } else {
        first_wifi(records, primary, false)
    }
}

/// What is reported of a connection.
pub open spec fn is_report(w: ActiveWifi, r: ActiveRecord, primary: Option<Seq<char>>) -> bool {
    let link = r.link->0;
    &&& w.uuid@ == or_empty(r.uuid)
    &&& w.ssid@ == (match link.ssid {
        Some(b) => if b@.len() == 0 {
            Seq::<char>::empty()
        } else {
            ssid_text(b@)
        },
        None => Seq::<char>::empty(),
    })
    &&& w.interface@ == or_empty(link.interface)
    &&& models::opt_text(w.ipv4) == models::opt_text(link.ipv4)
    &&& models::opt_text(w.ipv6) == models::opt_text(link.ipv6)
    &&& w.has_default_route == is_primary(r, primary)
}

fn is_wifi_record(r: &ActiveRecord) -> (b: bool)
    ensures
        b == is_wifi(*r),
{
    let wireless = match &r.connection_type {
        Some(t) => text::same_text(t.as_str(), NM_TYPE_WIRELESS),
        None => false,
    };
    let activated = match r.state {
        Some(s) => s == NM_ACTIVE_CONNECTION_STATE_ACTIVATED,
        None => false,
    };
    wireless && activated && r.link.is_some()
}

fn find_wifi(records: &Vec<ActiveRecord>, primary: Option<&str>, only_primary: bool) -> (r: Option<
    usize,
>)
    ensures
        match r {
            Some(i) => i < records@.len() && first_wifi(records@, text::opt_str(primary), only_primary)
                == Some(records@[i as int]) && is_wifi(records@[i as int]),
            None => first_wifi(records@, text::opt_str(primary), only_primary) is None,
        },
{
    let mut i: usize = 0;
    assert(records@.skip(0) =~= records@);
    while i < records.len()
        invariant
            i <= records@.len(),
            first_wifi(records@, text::opt_str(primary), only_primary) == first_wifi(
                records@.skip(i as int),
                text::opt_str(primary),
                only_primary,
            ),
        decreases records@.len() - i,
    {
        proof {
            assert(records@.skip(i as int)[0] == records@[i as int]);
            assert(records@.skip(i as int).drop_first() =~= records@.skip(i + 1));
        }
        if is_wifi_record(&records[i]) && (!only_primary || is_path(primary, records[i].path.as_str())) {
            return Some(i);
        }
        i += 1;
    }
    None
}

fn is_path(primary: Option<&str>, path: &str) -> (r: bool)
    ensures
        r == (text::opt_str(primary) == Some(path@)),
{
    match primary {
        Some(p) => text::same_text(p, path),
        None => false,
    }
}

/// The Wi-Fi connection that is up, if any, given the active connections in
/// NetworkManager's order and the one that carries the default route.
pub fn active_wifi(records: &Vec<ActiveRecord>, primary: Option<&str>) -> (r: Option<ActiveWifi>)
    ensures
        r is Some <==> chosen_wifi(records@, text::opt_str(primary)) is Some,
        r matches Some(w) ==> is_report(
            w,
            chosen_wifi(records@, text::opt_str(primary))->0,
            text::opt_str(primary),
        ),
{
    let at = match find_wifi(records, primary, true) {
        Some(i) => Some(i),
        None => find_wifi(records, primary, false),
    };
    let i: usize = match at {
        Some(i) => i,
        None => {
            return None;
        },
    };
    let record = &records[i];
    match &record.link {
        Some(link) => {
            let ssid = match &link.ssid {
                Some(b) => if b.len() == 0 {
                    String::new()
                } else {
                    ssid_to_string(b.as_slice())
                },
                None => String::new(),
            };
            Some(
                ActiveWifi {
                    uuid: text_or_empty(&record.uuid),
                    ssid,
                    interface: text_or_empty(&link.interface),
                    ipv4: models::clone_text(&link.ipv4),
                    ipv6: models::clone_text(&link.ipv6),
                    has_default_route: is_path(primary, record.path.as_str()),
                },
            )
        },
        None => None,
    }
}

// ---------------------------------------------------------------------------
// Saved connections
// ---------------------------------------------------------------------------

/// What could be read of a saved connection's settings.
pub struct SavedRecord {
    pub path: String,
    pub connection_type: Option<String>,
    pub uuid: Option<String>,
    pub id: Option<String>,
    pub ssid: Option<Vec<u8>>,
}

/// An active connection: the saved connection that it was made from, and its own path.
pub struct ActiveEntry {
    pub settings_path: String,
    pub active_path: String,
}

/// Whether a saved connection is for Wi-Fi.
pub open spec fn is_saved_wifi(r: SavedRecord) -> bool {
    models::opt_text(r.connection_type) == Some(NM_TYPE_WIRELESS@)
}

/// The active connection made from the saved one at `path`; of several the last.
pub open spec fn active_path_of(active: Seq<ActiveEntry>, path: Seq<char>) -> Option<Seq<char>>
    decreases active.len(),
{
    if active.len() == 0 {
        None
    } else if active.last().settings_path@ == path {
        Some(active.last().active_path@)
    } else {
        active_path_of(active.drop_last(), path)
    }
}

/// The SSID of a saved connection, where it has one.
pub open spec fn saved_ssid(r: SavedRecord) -> Option<Seq<char>> {
    match r.ssid {
        Some(b) => if ssid_text(b@).len() == 0 {
            None
        } else {
            Some(ssid_text(b@))
        },
        None => None,
    }
}

/// What is listed of a saved Wi-Fi connection: a nameless one goes by its SSID.
pub open spec fn listed(r: SavedRecord, active: Seq<ActiveEntry>, wifi_enabled: bool) -> WifiView {
    WifiView {
        uuid: or_empty(r.uuid),
        name: if or_empty(r.id).len() > 0 {
            or_empty(r.id)
        } else if saved_ssid(r) is Some {
            saved_ssid(r)->0
        } else {
            Seq::empty()
        },
        ssid: saved_ssid(r),
        state: if active_path_of(active, r.path@) is Some {
            "activated"@
        } else {
            "disconnected"@
        },
        wifi_enabled,
        active_connection_path: active_path_of(active, r.path@),
        interface: None,
    }
}

/// `x` in its place by name in a list that is ordered by name: behind those that do not
/// come after it.
pub open spec fn placed_by_name(s: Seq<WifiView>, x: WifiView) -> Seq<WifiView>
    decreases s.len(),
{
    if s.len() > 0 && text::text_before(x.name, s.last().name) {
        placed_by_name(s.drop_last(), x).push(s.last())
    } else {
        s.push(x)
    }
}

/// The saved Wi-Fi connections, ordered by name; equal names keep their order.
pub open spec fn saved_list(records: Seq<SavedRecord>, active: Seq<ActiveEntry>, wifi_enabled: bool) -> Seq<
    WifiView,
>
    decreases records.len(),
{
    if records.len() == 0 {
        Seq::empty()
    } else {
        let before = saved_list(records.drop_last(), active, wifi_enabled);
        if is_saved_wifi(records.last()) {
            placed_by_name(before, listed(records.last(), active, wifi_enabled))
        } else {
            before
        }
    }
}

/// What a list of connections says.
pub open spec fn connections_view(v: Seq<WifiConnection>) -> Seq<WifiView> {
    v.map_values(|c: WifiConnection| c@)
}

fn find_active(active: &Vec<ActiveEntry>, path: &str) -> (r: Option<String>)
    ensures
        models::opt_text(r) == active_path_of(active@, path@),
{
    let mut n: usize = active.len();
    assert(active@.take(n as int) =~= active@);
    while n > 0
        invariant
            n <= active@.len(),
            active_path_of(active@, path@) == active_path_of(active@.take(n as int), path@),
        decreases n,
    {
        proof {
            assert(active@.take(n as int).last() == active@[n - 1]);
            assert(active@.take(n as int).drop_last() =~= active@.take(n - 1));
        }
        if text::same_text(active[n - 1].settings_path.as_str(), path) {
            return Some(active[n - 1].active_path.clone());
        }
        n -= 1;
    }
    None
}

fn list_one(record: &SavedRecord, active: &Vec<ActiveEntry>, wifi_enabled: bool) -> (r:
    WifiConnection)
    ensures
        r@ == listed(*record, active@, wifi_enabled),
{
    let ssid = match &record.ssid {
        Some(b) => {
            let s = ssid_to_string(b.as_slice());
            if s.as_str().is_empty() {
                None
            } else {
                Some(s)
            }
        },
        None => None,
    };
    let id = text_or_empty(&record.id);
    let name = if id.as_str().is_empty() {
        text_or_empty(&ssid)
    } else {
        id
    };
    let active_connection_path = find_active(active, record.path.as_str());
    let state = if active_connection_path.is_some() {
        "activated".to_owned()
    } else {
        "disconnected".to_owned()
    };
    proof {
        if or_empty(record.id).len() == 0 && ssid is None {
            assert(name@ =~= Seq::<char>::empty());
        }
    }
    WifiConnection {
        uuid: text_or_empty(&record.uuid),
        name,
        ssid,
        state,
        wifi_enabled,
        active_connection_path,
        interface: None,
    }
}

fn place_by_name(list: &mut Vec<WifiConnection>, x: WifiConnection)
    ensures
        connections_view(final(list)@) == placed_by_name(connections_view(old(list)@), x@),
{
    let ghost all = connections_view(list@);
    let mut n: usize = list.len();
    proof {
        assert(all.take(n as int) =~= all);
        assert(all.skip(n as int) =~= Seq::<WifiView>::empty());
        assert(placed_by_name(all.take(n as int), x@) + all.skip(n as int) =~= placed_by_name(
            all,
            x@,
        ));
    }
    while n > 0 && text::before(x.name.as_str(), list[n - 1].name.as_str())
        invariant
            n <= list@.len(),
            all == connections_view(list@),
            placed_by_name(all.take(n as int), x@) + all.skip(n as int) == placed_by_name(all, x@),
        decreases n,
    {
        proof {
            let part = all.take(n as int);
            assert(part.last() == list@[n - 1]@);
            assert(part.drop_last() =~= all.take(n - 1));
            assert(placed_by_name(all.take(n - 1), x@).push(part.last()) + all.skip(n as int)
                =~= placed_by_name(all.take(n - 1), x@) + all.skip(n - 1));
        }
        n -= 1;
    }
    proof {
        let part = all.take(n as int);
        if n > 0 {
            assert(part.last() == list@[n - 1]@);
        }
        assert(placed_by_name(part, x@) == part.push(x@));
        assert(part.push(x@) + all.skip(n as int) =~= all.insert(n as int, x@));
    }
    let ghost before = list@;
    list.insert(n, x);
    assert(connections_view(list@) =~= connections_view(before).insert(n as int, x@));
}

/// The saved Wi-Fi connections, ordered by name: those that a profile can be assigned to.
pub fn saved_wifi_connections(
    records: &Vec<SavedRecord>,
    active: &Vec<ActiveEntry>,
    wifi_enabled: bool,
) -> (r: Vec<WifiConnection>)
    ensures
        connections_view(r@) == saved_list(records@, active@, wifi_enabled),
{
    let mut out: Vec<WifiConnection> = Vec::new();
    let mut i: usize = 0;
    assert(records@.take(0) =~= Seq::<SavedRecord>::empty());
    assert(connections_view(out@) =~= Seq::<WifiView>::empty());
    while i < records.len()
        invariant
            i <= records@.len(),
            connections_view(out@) == saved_list(records@.take(i as int), active@, wifi_enabled),
        decreases records@.len() - i,
    {
        proof {
            let seen = records@.take(i + 1);
            assert(seen.drop_last() =~= records@.take(i as int));
            assert(seen.last() == records@[i as int]);
        }
        let record = &records[i];
        let wireless = match &record.connection_type {
            Some(t) => text::same_text(t.as_str(), NM_TYPE_WIRELESS),
            None => false,
        };
        if wireless {
            place_by_name(&mut out, list_one(record, active, wifi_enabled));
        }
        i += 1;
    }
    assert(records@.take(i as int) =~= records@);
    out
}

// ---------------------------------------------------------------------------
// Visible networks
// ---------------------------------------------------------------------------

/// What could be read of an access point.
pub struct AccessPointRecord {
    pub ssid: Option<Vec<u8>>,
    pub strength: Option<u8>,
}

/// The strength of a reading.
pub open spec fn strength_of(r: AccessPointRecord) -> u8 {
    match r.strength {
        Some(s) => s,
        None => 0,
    }
}

/// The networks with one more reading: the strongest reading of each SSID counts.
pub open spec fn with_reading(seen: Seq<(Seq<char>, u8)>, ssid: Seq<char>, strength: u8) -> Seq<
    (Seq<char>, u8),
>
    decreases seen.len(),
{
    if seen.len() == 0 {
        seq![(ssid, strength)]
    } else if seen[0].0 == ssid {
        seq![
            (
                ssid,
                if strength > seen[0].1 {
                    strength
                } else {
                    seen[0].1
                },
            ),
        ] + seen.drop_first()
    } else {
        seq![seen[0]] + with_reading(seen.drop_first(), ssid, strength)
    }
}

/// The networks that access points show, in the order in which they first come; those
/// without an SSID are left out.
pub open spec fn networks(records: Seq<AccessPointRecord>) -> Seq<(Seq<char>, u8)>
    decreases records.len(),
{
    if records.len() == 0 {
        Seq::empty()
    } else {
        let seen = networks(records.drop_last());
        match records.last().ssid {
            Some(b) => if b@.len() == 0 || ssid_text(b@).len() == 0 {
                seen
            } else {
                with_reading(seen, ssid_text(b@), strength_of(records.last()))
            },
            None => seen,
        }
    }
}

/// `x` in its place by strength in a list that is ordered by falling strength: behind
/// those that are not weaker.
pub open spec fn placed_by_strength(s: Seq<(Seq<char>, u8)>, x: (Seq<char>, u8)) -> Seq<
    (Seq<char>, u8),
>
    decreases s.len(),
{
    if s.len() > 0 && x.1 > s.last().1 {
        placed_by_strength(s.drop_last(), x).push(s.last())
    } else {
        s.push(x)
    }
}

/// A list ordered by falling strength; equal strengths keep their order.
pub open spec fn strongest_first(s: Seq<(Seq<char>, u8)>) -> Seq<(Seq<char>, u8)>
    decreases s.len(),
{
    if s.len() == 0 {
        Seq::empty()
    } else {
        placed_by_strength(strongest_first(s.drop_last()), s.last())
    }
}

/// What a list of networks says.
pub open spec fn networks_view(v: Seq<(String, u8)>) -> Seq<(Seq<char>, u8)> {
    v.map_values(|n: (String, u8)| (n.0@, n.1))
}

fn add_reading(seen: &mut Vec<(String, u8)>, ssid: String, strength: u8)
    ensures
        networks_view(final(seen)@) == with_reading(
            networks_view(old(seen)@),
            ssid@,
            strength,
        ),
{
    let ghost all = networks_view(seen@);
    let mut i: usize = 0;
    assert(all.take(0) + with_reading(all.skip(0), ssid@, strength) =~= with_reading(
        all,
        ssid@,
        strength,
    )) by {
        assert(all.skip(0) =~= all);
    }
    while i < seen.len()
        invariant
            i <= seen@.len(),
            all == networks_view(seen@),
            all == networks_view(old(seen)@),
            all.take(i as int) + with_reading(all.skip(i as int), ssid@, strength) == with_reading(
                all,
                ssid@,
                strength,
            ),
        decreases seen@.len() - i,
    {
        let ghost rest = all.skip(i as int);
        proof {
            assert(rest[0] == (seen@[i as int].0@, seen@[i as int].1));
            assert(rest.drop_first() =~= all.skip(i + 1));
        }
        if text::same_text(seen[i].0.as_str(), ssid.as_str()) {
            let ghost before = seen@;
            let best: u8 = if strength > seen[i].1 {
                strength
            } else {
                seen[i].1
            };
            seen.set(i, (ssid, best));
            proof {
                assert(networks_view(seen@) =~= all.update(i as int, (ssid@, best)));
                assert(all.take(i as int) + (seq![(ssid@, best)] + rest.drop_first())
                    =~= all.update(i as int, (ssid@, best)));
            }
            return;
        }
        proof {
            let deeper = with_reading(all.skip(i + 1), ssid@, strength);
            assert(all.take(i as int) + (seq![rest[0]] + deeper) =~= all.take(i + 1) + deeper);
        }
        i += 1;
    }
    proof {
        assert(all.skip(i as int) =~= Seq::<(Seq<char>, u8)>::empty());
        assert(all.take(i as int) =~= all);
        assert(all + seq![(ssid@, strength)] =~= all.push((ssid@, strength)));
    }
    let ghost before = seen@;
    seen.push((ssid, strength));
    assert(networks_view(seen@) =~= networks_view(before).push((ssid@, strength)));
}

fn place_by_strength(list: &mut Vec<(String, u8)>, x: (String, u8))
    ensures
        networks_view(final(list)@) == placed_by_strength(
            networks_view(old(list)@),
            (x.0@, x.1),
        ),
{
    let ghost all = networks_view(list@);
    let ghost y = (x.0@, x.1);
    let mut n: usize = list.len();
    proof {
        assert(all.take(n as int) =~= all);
        assert(all.skip(n as int) =~= Seq::<(Seq<char>, u8)>::empty());
        assert(placed_by_strength(all.take(n as int), y) + all.skip(n as int)
            =~= placed_by_strength(all, y));
    }
    while n > 0 && x.1 > list[n - 1].1
        invariant
            n <= list@.len(),
            all == networks_view(list@),
            y == (x.0@, x.1),
            placed_by_strength(all.take(n as int), y) + all.skip(n as int) == placed_by_strength(
                all,
                y,
            ),
        decreases n,
    {
        proof {
            let part = all.take(n as int);
            assert(part.last() == (list@[n - 1].0@, list@[n - 1].1));
            assert(part.drop_last() =~= all.take(n - 1));
            assert(placed_by_strength(all.take(n - 1), y).push(part.last()) + all.skip(n as int)
                =~= placed_by_strength(all.take(n - 1), y) + all.skip(n - 1));
        }
        n -= 1;
    }
    proof {
        let part = all.take(n as int);
        if n > 0 {
            assert(part.last() == (list@[n - 1].0@, list@[n - 1].1));
        }
        assert(placed_by_strength(part, y) == part.push(y));
        assert(part.push(y) + all.skip(n as int) =~= all.insert(n as int, y));
    }
    let ghost before = list@;
    list.insert(n, x);
    assert(networks_view(list@) =~= networks_view(before).insert(n as int, y));
}

/// The visible networks with their signal strength, strongest first.
pub fn available_wifi_networks(records: &Vec<AccessPointRecord>) -> (r: Vec<(String, u8)>)
    ensures
        networks_view(r@) == strongest_first(networks(records@)),
{
    let mut seen: Vec<(String, u8)> = Vec::new();
    let mut i: usize = 0;
    assert(records@.take(0) =~= Seq::<AccessPointRecord>::empty());
    assert(networks_view(seen@) =~= Seq::<(Seq<char>, u8)>::empty());
    while i < records.len()
        invariant
            i <= records@.len(),
            networks_view(seen@) == networks(records@.take(i as int)),
        decreases records@.len() - i,
    {
        proof {
            let part = records@.take(i + 1);
            assert(part.drop_last() =~= records@.take(i as int));
            assert(part.last() == records@[i as int]);
        }
        if let Some(b) = &records[i].ssid {
            if b.len() > 0 {
                let ssid = ssid_to_string(b.as_slice());
                if !ssid.as_str().is_empty() {
                    let strength: u8 = match records[i].strength {
                        Some(s) => s,
                        None => 0,
                    };
                    add_reading(&mut seen, ssid, strength);
                }
            }
        }
        i += 1;
    }
    assert(records@.take(i as int) =~= records@);
    let ghost all = networks_view(seen@);
    let mut out: Vec<(String, u8)> = Vec::new();
    let mut j: usize = 0;
    assert(all.take(0) =~= Seq::<(Seq<char>, u8)>::empty());
    assert(networks_view(out@) =~= Seq::<(Seq<char>, u8)>::empty());
    while j < seen.len()
        invariant
            j <= seen@.len(),
            all == networks_view(seen@),
            networks_view(out@) == strongest_first(all.take(j as int)),
        decreases seen@.len() - j,
    {
        proof {
            let part = all.take(j + 1);
            assert(part.drop_last() =~= all.take(j as int));
            assert(part.last() == (seen@[j as int].0@, seen@[j as int].1));
        }
        place_by_strength(&mut out, (seen[j].0.clone(), seen[j].1));
        j += 1;
    }
    assert(all.take(j as int) =~= all);
    out
}

// ---------------------------------------------------------------------------
// Connecting
// ---------------------------------------------------------------------------

/// How to connect to a network.
pub enum ConnectPlan {
    /// Activate the saved connection at `connection`; its stored secrets apply.
    Activate { connection: String, device: String },
    /// Add and activate a new connection: WPA-PSK with a password, open without.
    Add { device: String, id: String, ssid: Vec<u8>, psk: Option<String> },
}

/// The saved Wi-Fi connection for an SSID.
pub open spec fn saved_for(saved: Seq<SavedRecord>, ssid: Seq<u8>) -> Option<Seq<char>>
    decreases saved.len(),
{
    if saved.len() == 0 {
        None
    } else if is_saved_wifi(saved[0]) && saved[0].ssid is Some && saved[0].ssid->0@ == ssid {
        Some(saved[0].path@)
    } else {
        saved_for(saved.drop_first(), ssid)
    }
}

/// Whether `r` is how to connect to a network.
pub open spec fn is_plan(
    r: Result<ConnectPlan, NmError>,
    devices: Seq<(Seq<char>, Seq<char>)>,
    saved: Seq<SavedRecord>,
    ssid: Seq<char>,
    password: Option<Seq<char>>,
) -> bool {
    let known = saved_for(saved, vstd::utf8::encode_utf8(ssid));
    match r {
        Err(e) => devices.len() == 0 && e is Unavailable,
        Ok(ConnectPlan::Activate { connection, device }) => devices.len() > 0 && known == Some(
            connection@,
        ) && device@ == devices[0].0,
        Ok(ConnectPlan::Add { device, id, ssid: raw, psk }) => devices.len() > 0 && known is None
            && device@ == devices[0].0 && id@ == ssid && raw@ == vstd::utf8::encode_utf8(ssid)
            && models::opt_text(psk) == (if password is Some && password->0.len() > 0 {
            password
        } else {
            None
        }),
    }
}

fn same_bytes(a: &[u8], b: &[u8]) -> (r: bool)
    ensures
        r == (a@ == b@),
{
    if a.len() != b.len() {
        return false;
    }
    let mut i: usize = 0;
    while i < a.len()
        invariant
            i <= a@.len(),
            a@.len() == b@.len(),
            forall|j: int| 0 <= j < i ==> a@[j] == b@[j],
        decreases a@.len() - i,
    {
        if a[i] != b[i] {
            return false;
        }
        i += 1;
    }
    assert(a@ =~= b@);
    true
}

fn find_saved(saved: &Vec<SavedRecord>, ssid: &[u8]) -> (r: Option<String>)
    ensures
        models::opt_text(r) == saved_for(saved@, ssid@),
{
    let mut i: usize = 0;
    assert(saved@.skip(0) =~= saved@);
    while i < saved.len()
        invariant
            i <= saved@.len(),
            saved_for(saved@, ssid@) == saved_for(saved@.skip(i as int), ssid@),
        decreases saved@.len() - i,
    {
        proof {
            assert(saved@.skip(i as int)[0] == saved@[i as int]);
            assert(saved@.skip(i as int).drop_first() =~= saved@.skip(i + 1));
        }
        let record = &saved[i];
        let wireless = match &record.connection_type {
            Some(t) => text::same_text(t.as_str(), NM_TYPE_WIRELESS),
            None => false,
        };
        let named = match &record.ssid {
            Some(b) => same_bytes(b.as_slice(), ssid),
            None => false,
        };
        if wireless && named {
            return Some(record.path.clone());
        }
        i += 1;
    }
    None
}

/// How the first Wi-Fi device connects to `ssid`: by a saved connection for it, where
/// `password` is ignored, or by a new one.
pub fn connect_wifi(
    devices: &Vec<(String, String)>,
    saved: &Vec<SavedRecord>,
    ssid: &str,
    password: Option<&str>,
) -> (r: Result<ConnectPlan, NmError>)
    ensures
        is_plan(
            r,
            pairs_view(devices@),
            saved@,
            ssid@,
            text::opt_str(password),
        ),
        ({
            let bytes = vstd::utf8::encode_utf8(ssid@);
            if devices@.len() == 0 {
                r matches Err(NmError::Unavailable(e)) && e@ == "no Wi-Fi device found"@
            } else if saved_for(saved@, bytes) is Some {
                r matches Ok(ConnectPlan::Activate { connection, device }) && Some(connection@)
                    == saved_for(saved@, bytes) && device == devices@[0].0
            } else {
                r matches Ok(ConnectPlan::Add { device, id, ssid: raw, psk }) && device
                    == devices@[0].0 && id@ == ssid@ && raw@ == bytes && models::opt_text(psk) == (
                match password {
                    Some(p) => if p@.len() > 0 {
                        Some(p@)
                    } else {
                        None
                    },
                    None => None,
                })
            }
        }),
{
    if devices.len() == 0 {
        return Err(NmError::Unavailable("no Wi-Fi device found".to_owned()));
    }
    let device = devices[0].0.clone();
    if let Some(connection) = find_saved(saved, ssid.as_bytes()) {
        return Ok(ConnectPlan::Activate { connection, device });
    }
    let mut raw: Vec<u8> = Vec::new();
    raw.extend_from_slice(ssid.as_bytes());
    assert(raw@ =~= vstd::utf8::encode_utf8(ssid@));
    let psk = match password {
        Some(p) => if p.is_empty() {
            None
        } else {
            Some(p.to_owned())
        },
        None => None,
    };
    Ok(ConnectPlan::Add { device, id: ssid.to_owned(), ssid: raw, psk })
}

// ---------------------------------------------------------------------------
// Laws
// ---------------------------------------------------------------------------

/// A secondary Wi-Fi never shadows the one that carries the default route: where one
/// does, it is the one that is reported.
pub proof fn primary_wifi_is_preferred(records: Seq<ActiveRecord>, primary: Option<Seq<char>>, i: int)
    requires
        0 <= i < records.len(),
        is_wifi(records[i]),
        is_primary(records[i], primary),
    ensures
        chosen_wifi(records, primary) is Some,
        is_primary(chosen_wifi(records, primary)->0, primary),
        is_wifi(chosen_wifi(records, primary)->0),
{
    first_wifi_finds(records, primary, true, i);
}

proof fn first_wifi_finds(
    records: Seq<ActiveRecord>,
    primary: Option<Seq<char>>,
    only_primary: bool,
    i: int,
)
    requires
        0 <= i < records.len(),
        is_wifi(records[i]),
        only_primary ==> is_primary(records[i], primary),
    ensures
        first_wifi(records, primary, only_primary) matches Some(r) && is_wifi(r) && (only_primary
            ==> is_primary(r, primary)),
    decreases records.len(),
{
    if !(is_wifi(records[0]) && (only_primary ==> is_primary(records[0], primary))) {
        assert(records.drop_first()[i - 1] == records[i]);
        first_wifi_finds(records.drop_first(), primary, only_primary, i - 1);
    }
}

/// Whether a list is ordered by name.
pub open spec fn is_ordered_by_name(s: Seq<WifiView>) -> bool {
    forall|i: int, j: int|
        0 <= i < j < s.len() ==> !text::text_before((#[trigger] s[j]).name, (#[trigger] s[i]).name)
}

proof fn placed_keeps_order(s: Seq<WifiView>, x: WifiView)
    requires
        is_ordered_by_name(s),
    ensures
        is_ordered_by_name(placed_by_name(s, x)),
        placed_by_name(s, x).len() == s.len() + 1,
        placed_by_name(s, x).to_multiset() == s.to_multiset().insert(x),
        forall|k: int|
            0 <= k < placed_by_name(s, x).len() ==> (#[trigger] placed_by_name(s, x)[k]) == x
                || s.contains(placed_by_name(s, x)[k]),
    decreases s.len(),
{
    broadcast use vstd::seq_lib::group_to_multiset_ensures;

    let r = placed_by_name(s, x);
    if s.len() > 0 && text::text_before(x.name, s.last().name) {
        let t = s.drop_last();
        assert forall|i: int, j: int| 0 <= i < j < t.len() implies !text::text_before(
            (#[trigger] t[j]).name,
            (#[trigger] t[i]).name,
        ) by {
            assert(t[i] == s[i] && t[j] == s[j]);
        }
        placed_keeps_order(t, x);
        let p = placed_by_name(t, x);
        assert(s =~= t.push(s.last()));
        assert(r.to_multiset() =~= s.to_multiset().insert(x));
        assert forall|k: int| 0 <= k < r.len() implies (#[trigger] r[k]) == x || s.contains(r[k]) by {
            if k < p.len() {
                assert(r[k] == p[k]);
                if p[k] != x {
                    let m = choose|m: int| 0 <= m < t.len() && t[m] == p[k];
                    assert(s[m] == p[k]);
                }
            } else {
                assert(r[k] == s[s.len() - 1]);
            }
        }
        assert forall|i: int, j: int| 0 <= i < j < r.len() implies !text::text_before(
            (#[trigger] r[j]).name,
            (#[trigger] r[i]).name,
        ) by {
            if j < p.len() {
                assert(r[i] == p[i] && r[j] == p[j]);
            } else {
                assert(r[j] == s.last());
                assert(r[i] == p[i]);
                if p[i] == x {
                    text::bytes_before_is_strict(
                        vstd::utf8::encode_utf8(x.name),
                        vstd::utf8::encode_utf8(s.last().name),
                    );
                } else {
                    let m = choose|m: int| 0 <= m < t.len() && t[m] == p[i];
                    assert(s[m] == p[i]);
                    assert(!text::text_before(s[s.len() - 1].name, s[m].name));
                }
            }
        }
    } else {
        assert forall|i: int, j: int| 0 <= i < j < r.len() implies !text::text_before(
            (#[trigger] r[j]).name,
            (#[trigger] r[i]).name,
        ) by {
            if j < s.len() {
                assert(r[i] == s[i] && r[j] == s[j]);
            } else if s.len() > 0 {
                let last = s[s.len() - 1];
                assert(r[i] == s[i]);
                // `x` does not come before the last, which does not come before any.
                if text::text_before(x.name, s[i].name) {
                    if i < s.len() - 1 {
                        assert(!text::text_before(last.name, s[i].name));
                    }
                    let (a, b, c) = (
                        vstd::utf8::encode_utf8(x.name),
                        vstd::utf8::encode_utf8(s[i].name),
                        vstd::utf8::encode_utf8(last.name),
                    );
                    text::bytes_before_is_strict(b, c);
                    text::bytes_before_is_transitive(a, b, c);
                }
            }
        }
        assert forall|k: int| 0 <= k < r.len() implies (#[trigger] r[k]) == x || s.contains(r[k]) by {
            if k < s.len() {
                assert(r[k] == s[k]);
            }
        }
    }
}

/// What is listed of each saved Wi-Fi connection, in NetworkManager's order.
pub open spec fn unordered_list(
    records: Seq<SavedRecord>,
    active: Seq<ActiveEntry>,
    wifi_enabled: bool,
) -> Seq<WifiView>
    decreases records.len(),
{
    if records.len() == 0 {
        Seq::empty()
    } else {
        let before = unordered_list(records.drop_last(), active, wifi_enabled);
        if is_saved_wifi(records.last()) {
            before.push(listed(records.last(), active, wifi_enabled))
        } else {
            before
        }
    }
}

/// The list of saved connections is ordered by name, and holds every saved Wi-Fi
/// connection once for each time that NetworkManager has it, and nothing else.
pub proof fn saved_list_is_ordered(
    records: Seq<SavedRecord>,
    active: Seq<ActiveEntry>,
    wifi_enabled: bool,
)
    ensures
        is_ordered_by_name(saved_list(records, active, wifi_enabled)),
        saved_list(records, active, wifi_enabled).to_multiset() == unordered_list(
            records,
            active,
            wifi_enabled,
        ).to_multiset(),
    decreases records.len(),
{
    broadcast use vstd::seq_lib::group_to_multiset_ensures;

    if records.len() > 0 {
        saved_list_is_ordered(records.drop_last(), active, wifi_enabled);
        if is_saved_wifi(records.last()) {
            placed_keeps_order(
                saved_list(records.drop_last(), active, wifi_enabled),
                listed(records.last(), active, wifi_enabled),
            );
        }
    }
}

/// Whether a list is ordered by falling strength.
pub open spec fn is_strongest_first(s: Seq<(Seq<char>, u8)>) -> bool {
    forall|i: int, j: int| 0 <= i < j < s.len() ==> (#[trigger] s[i]).1 >= (#[trigger] s[j]).1
}

proof fn placed_keeps_strength(s: Seq<(Seq<char>, u8)>, x: (Seq<char>, u8))
    requires
        is_strongest_first(s),
    ensures
        is_strongest_first(placed_by_strength(s, x)),
        placed_by_strength(s, x).to_multiset() == s.to_multiset().insert(x),
        forall|k: int|
            0 <= k < placed_by_strength(s, x).len() ==> (#[trigger] placed_by_strength(s, x)[k]) == x
                || s.contains(placed_by_strength(s, x)[k]),
    decreases s.len(),
{
    broadcast use vstd::seq_lib::group_to_multiset_ensures;

    let r = placed_by_strength(s, x);
    if s.len() > 0 && x.1 > s.last().1 {
        let t = s.drop_last();
        assert forall|i: int, j: int| 0 <= i < j < t.len() implies (#[trigger] t[i]).1 >= (
        #[trigger] t[j]).1 by {
            assert(t[i] == s[i] && t[j] == s[j]);
        }
        placed_keeps_strength(t, x);
        let p = placed_by_strength(t, x);
        assert(s =~= t.push(s.last()));
        assert(r.to_multiset() =~= s.to_multiset().insert(x));
        assert forall|k: int| 0 <= k < r.len() implies (#[trigger] r[k]) == x || s.contains(r[k]) by {
            if k < p.len() {
                assert(r[k] == p[k]);
                if p[k] != x {
                    let m = choose|m: int| 0 <= m < t.len() && t[m] == p[k];
                    assert(s[m] == p[k]);
                }
            } else {
                assert(r[k] == s[s.len() - 1]);
            }
        }
        assert forall|i: int, j: int| 0 <= i < j < r.len() implies (#[trigger] r[i]).1 >= (
        #[trigger] r[j]).1 by {
            assert(r[i] == p[i]);
            if j < p.len() {
                assert(r[j] == p[j]);
            } else if p[i] != x {
                let m = choose|m: int| 0 <= m < t.len() && t[m] == p[i];
                assert(s[m] == p[i]);
                assert(s[m].1 >= s[s.len() - 1].1);
            }
        }
    } else {
        assert forall|i: int, j: int| 0 <= i < j < r.len() implies (#[trigger] r[i]).1 >= (
        #[trigger] r[j]).1 by {
            assert(r[i] == s[i]);
            if j < s.len() {
                assert(r[j] == s[j]);
            } else if i < s.len() - 1 {
                assert(s[i].1 >= s[s.len() - 1].1);
            }
        }
        assert forall|k: int| 0 <= k < r.len() implies (#[trigger] r[k]) == x || s.contains(r[k]) by {
            if k < s.len() {
                assert(r[k] == s[k]);
            }
        }
    }
}

/// The visible networks are ordered by falling strength, and none is lost or invented.
pub proof fn networks_are_strongest_first(s: Seq<(Seq<char>, u8)>)
    ensures
        is_strongest_first(strongest_first(s)),
        strongest_first(s).to_multiset() == s.to_multiset(),
    decreases s.len(),
{
    broadcast use vstd::seq_lib::group_to_multiset_ensures;

    if s.len() > 0 {
        networks_are_strongest_first(s.drop_last());
        placed_keeps_strength(strongest_first(s.drop_last()), s.last());
        assert(s =~= s.drop_last().push(s.last()));
    }
}

/// Whether no SSID occurs twice.
pub open spec fn ssids_differ(s: Seq<(Seq<char>, u8)>) -> bool {
    forall|i: int, j: int| 0 <= i < j < s.len() ==> (#[trigger] s[i]).0 != (#[trigger] s[j]).0
}

proof fn reading_keeps_ssids_apart(s: Seq<(Seq<char>, u8)>, ssid: Seq<char>, strength: u8)
    requires
        ssids_differ(s),
    ensures
        ssids_differ(with_reading(s, ssid, strength)),
        forall|k: int|
            0 <= k < with_reading(s, ssid, strength).len() ==> (#[trigger] with_reading(
                s,
                ssid,
                strength,
            )[k]).0 == ssid || (exists|m: int|
                0 <= m < s.len() && (#[trigger] s[m]).0 == with_reading(s, ssid, strength)[k].0),
        exists|k: int|
            0 <= k < with_reading(s, ssid, strength).len() && (#[trigger] with_reading(
                s,
                ssid,
                strength,
            )[k]).0 == ssid && with_reading(s, ssid, strength)[k].1 >= strength,
    decreases s.len(),
{
    let r = with_reading(s, ssid, strength);
    if s.len() == 0 {
        assert(r[0].0 == ssid);
    } else {
        let t = s.drop_first();
        assert forall|i: int, j: int| 0 <= i < j < t.len() implies (#[trigger] t[i]).0 != (
        #[trigger] t[j]).0 by {
            assert(t[i] == s[i + 1] && t[j] == s[j + 1]);
        }
        if s[0].0 == ssid {
            assert(r[0].0 == ssid);
            assert forall|i: int, j: int| 0 <= i < j < r.len() implies (#[trigger] r[i]).0 != (
            #[trigger] r[j]).0 by {
                assert(r[j] == s[j]);
                assert(s[i].0 != s[j].0);
                if i > 0 {
                    assert(r[i] == s[i]);
                }
            }
            assert forall|k: int| 0 <= k < r.len() implies (#[trigger] r[k]).0 == ssid || (exists|
                m: int,
            |
                0 <= m < s.len() && (#[trigger] s[m]).0 == r[k].0) by {
                assert(s[k].0 == r[k].0);
            }
        } else {
            reading_keeps_ssids_apart(t, ssid, strength);
            let p = with_reading(t, ssid, strength);
            assert forall|i: int, j: int| 0 <= i < j < r.len() implies (#[trigger] r[i]).0 != (
            #[trigger] r[j]).0 by {
                assert(r[j] == p[j - 1]);
                if i > 0 {
                    assert(r[i] == p[i - 1]);
                } else if p[j - 1].0 != ssid {
                    let m = choose|m: int| 0 <= m < t.len() && (#[trigger] t[m]).0 == p[j - 1].0;
                    assert(t[m] == s[m + 1]);
                    assert(s[0].0 != s[m + 1].0);
                }
            }
            assert forall|k: int| 0 <= k < r.len() implies (#[trigger] r[k]).0 == ssid || (exists|
                m: int,
            |
                0 <= m < s.len() && (#[trigger] s[m]).0 == r[k].0) by {
                if k == 0 {
                    assert(s[0].0 == r[0].0);
                } else {
                    assert(r[k] == p[k - 1]);
                    if p[k - 1].0 != ssid {
                        let m = choose|m: int|
                            0 <= m < t.len() && (#[trigger] t[m]).0 == p[k - 1].0;
                        assert(s[m + 1] == t[m]);
                    }
                }
            }
            let k = choose|k: int|
                0 <= k < p.len() && (#[trigger] p[k]).0 == ssid && p[k].1 >= strength;
            assert(r[k + 1] == p[k]);
        }
    }
}

/// Every SSID is listed once.
pub proof fn networks_are_listed_once(records: Seq<AccessPointRecord>)
    ensures
        ssids_differ(networks(records)),
    decreases records.len(),
{
    if records.len() > 0 {
        networks_are_listed_once(records.drop_last());
        match records.last().ssid {
            Some(b) => {
                reading_keeps_ssids_apart(
                    networks(records.drop_last()),
                    ssid_text(b@),
                    strength_of(records.last()),
                );
            },
            None => {},
        }
    }
}

proof fn reading_never_weakens(s: Seq<(Seq<char>, u8)>, ssid: Seq<char>, strength: u8, k: int)
    requires
        0 <= k < s.len(),
    ensures
        0 <= k < with_reading(s, ssid, strength).len(),
        with_reading(s, ssid, strength)[k].0 == s[k].0,
        with_reading(s, ssid, strength)[k].1 >= s[k].1,
    decreases s.len(),
{
    if s[0].0 != ssid && k > 0 {
        reading_never_weakens(s.drop_first(), ssid, strength, k - 1);
    }
}

/// Each reading of a network is at most as strong as what is listed for its SSID.
pub proof fn strongest_reading_counts(records: Seq<AccessPointRecord>, i: int)
    requires
        0 <= i < records.len(),
        records[i].ssid is Some,
        records[i].ssid->0@.len() > 0,
        ssid_text(records[i].ssid->0@).len() > 0,
    ensures
        exists|k: int|
            0 <= k < networks(records).len() && (#[trigger] networks(records)[k]).0 == ssid_text(
                records[i].ssid->0@,
            ) && networks(records)[k].1 >= strength_of(records[i]),
    decreases records.len(),
{
    let seen = networks(records.drop_last());
    networks_are_listed_once(records.drop_last());
    if i == records.len() - 1 {
        let ssid = ssid_text(records[i].ssid->0@);
        let strength = strength_of(records[i]);
        reading_keeps_ssids_apart(seen, ssid, strength);
        assert(networks(records) == with_reading(seen, ssid, strength));
        let k = choose|k: int|
            0 <= k < with_reading(seen, ssid, strength).len() && (#[trigger] with_reading(
                seen,
                ssid,
                strength,
            )[k]).0 == ssid && with_reading(seen, ssid, strength)[k].1 >= strength;
        assert(networks(records)[k].0 == ssid);
    } else {
        assert(records.drop_last()[i] == records[i]);
        strongest_reading_counts(records.drop_last(), i);
        let k = choose|k: int|
            0 <= k < seen.len() && (#[trigger] seen[k]).0 == ssid_text(records[i].ssid->0@)
                && seen[k].1 >= strength_of(records[i]);
        match records.last().ssid {
            Some(b) => {
                if b@.len() > 0 && ssid_text(b@).len() > 0 {
                    reading_never_weakens(
                        seen,
                        ssid_text(b@),
                        strength_of(records.last()),
                        k,
                    );
                }
            },
            None => {},
        }
        assert(networks(records)[k].0 == ssid_text(records[i].ssid->0@));
    }
}

/// Whether some access point showed `ssid` with just this strength.
pub open spec fn was_read(records: Seq<AccessPointRecord>, ssid: Seq<char>, strength: u8) -> bool {
    exists|i: int|
        0 <= i < records.len() && (#[trigger] records[i]).ssid is Some && records[i].ssid->0@.len()
            > 0 && ssid_text(records[i].ssid->0@) == ssid && strength_of(records[i]) == strength
}

proof fn reading_adds_only_itself(s: Seq<(Seq<char>, u8)>, ssid: Seq<char>, strength: u8, k: int)
    requires
        0 <= k < with_reading(s, ssid, strength).len(),
    ensures
        with_reading(s, ssid, strength)[k] == (ssid, strength) || s.contains(
            with_reading(s, ssid, strength)[k],
        ),
    decreases s.len(),
{
    let r = with_reading(s, ssid, strength);
    if s.len() > 0 {
        if s[0].0 == ssid {
            if k == 0 {
                assert(r[0] == (ssid, strength) || r[0] == s[0]);
            } else {
                assert(r[k] == s[k]);
            }
        } else if k == 0 {
            assert(r[0] == s[0]);
        } else {
            let t = s.drop_first();
            reading_adds_only_itself(t, ssid, strength, k - 1);
            assert(r[k] == with_reading(t, ssid, strength)[k - 1]);
            if r[k] != (ssid, strength) {
                let m = choose|m: int| 0 <= m < t.len() && t[m] == r[k];
                assert(s[m + 1] == r[k]);
            }
        }
    }
}

/// Nothing is listed but what was read: an access point showed each SSID that is listed,
/// with the strength that is listed for it.
pub proof fn only_readings_are_listed(records: Seq<AccessPointRecord>, k: int)
    requires
        0 <= k < networks(records).len(),
    ensures
        was_read(records, networks(records)[k].0, networks(records)[k].1),
        networks(records)[k].0.len() > 0,
    decreases records.len(),
{
    if records.len() > 0 {
        let earlier = records.drop_last();
        let seen = networks(earlier);
        let last = records.last();
        let x = networks(records)[k];
        if last.ssid is Some && last.ssid->0@.len() > 0 && ssid_text(last.ssid->0@).len() > 0 {
            reading_adds_only_itself(seen, ssid_text(last.ssid->0@), strength_of(last), k);
        }
        if seen.contains(x) {
            let m = choose|m: int| 0 <= m < seen.len() && seen[m] == x;
            only_readings_are_listed(earlier, m);
            let i = choose|i: int|
                0 <= i < earlier.len() && (#[trigger] earlier[i]).ssid is Some
                    && earlier[i].ssid->0@.len() > 0 && ssid_text(earlier[i].ssid->0@) == x.0
                    && strength_of(earlier[i]) == x.1;
            assert(records[i] == earlier[i]);
        } else {
            assert(records[records.len() - 1] == last);
        }
    }
}

// ---------------------------------------------------------------------------
// What lookups find
// ---------------------------------------------------------------------------

/// The saved connection that is found for an SSID is the first Wi-Fi connection that is
/// saved for just these bytes; where none is found, none is saved for them.
pub proof fn saved_connection_has_the_ssid(saved: Seq<SavedRecord>, ssid: Seq<u8>)
    ensures
        saved_for(saved, ssid) matches Some(path) ==> exists|i: int|
            0 <= i < saved.len() && (#[trigger] saved[i]).path@ == path && is_for(saved[i], ssid)
                && forall|j: int| 0 <= j < i ==> !is_for(#[trigger] saved[j], ssid),
        saved_for(saved, ssid) is None ==> forall|j: int|
            0 <= j < saved.len() ==> !is_for(#[trigger] saved[j], ssid),
    decreases saved.len(),
{
    if saved.len() > 0 {
        let rest = saved.drop_first();
        saved_connection_has_the_ssid(rest, ssid);
        if is_for(saved[0], ssid) {
            assert(saved[0].path@ == saved_for(saved, ssid)->0);
        } else {
            match saved_for(rest, ssid) {
                Some(path) => {
                    let i = choose|i: int|
                        0 <= i < rest.len() && (#[trigger] rest[i]).path@ == path && is_for(
                            rest[i],
                            ssid,
                        ) && forall|j: int| 0 <= j < i ==> !is_for(#[trigger] rest[j], ssid);
                    assert(saved[i + 1] == rest[i]);
                    assert forall|j: int| 0 <= j < i + 1 implies !is_for(#[trigger] saved[j], ssid) by {
                        if j > 0 {
                            assert(rest[j - 1] == saved[j]);
                        }
                    }
                },
                None => {
                    assert forall|j: int| 0 <= j < saved.len() implies !is_for(
                        #[trigger] saved[j],
                        ssid,
                    ) by {
                        if j > 0 {
                            assert(rest[j - 1] == saved[j]);
                        }
                    }
                },
            }
        }
    }
}

/// Whether NetworkManager says of a saved connection that it is a Wi-Fi connection for an
/// SSID of just these bytes.
pub open spec fn is_for(r: SavedRecord, ssid: Seq<u8>) -> bool {
    &&& r.connection_type is Some && r.connection_type->0@ == "802-11-wireless"@
    &&& r.ssid is Some && r.ssid->0@ == ssid
}

/// The active connection that is found for a saved one was made from it, and is the last
/// that was; where none is found, none was made from it.
pub proof fn active_connection_is_made_from_the_saved_one(active: Seq<ActiveEntry>, path: Seq<char>)
    ensures
        active_path_of(active, path) is Some <==> exists|i: int|
            0 <= i < active.len() && (#[trigger] active[i]).settings_path@ == path,
        active_path_of(active, path) matches Some(found) ==> exists|i: int|
            0 <= i < active.len() && (#[trigger] active[i]).settings_path@ == path
                && active[i].active_path@ == found && forall|j: int|
                i < j < active.len() ==> (#[trigger] active[j]).settings_path@ != path,
    decreases active.len(),
{
    if active.len() > 0 {
        let rest = active.drop_last();
        active_connection_is_made_from_the_saved_one(rest, path);
        if active.last().settings_path@ == path {
            assert(active[active.len() - 1].settings_path@ == path);
        } else {
            if active_path_of(rest, path) is Some {
                let found = active_path_of(rest, path)->0;
                let i = choose|i: int|
                    0 <= i < rest.len() && (#[trigger] rest[i]).settings_path@ == path
                        && rest[i].active_path@ == found && forall|j: int|
                        i < j < rest.len() ==> (#[trigger] rest[j]).settings_path@ != path;
                assert(active[i] == rest[i]);
                assert forall|j: int| i < j < active.len() implies (
                #[trigger] active[j]).settings_path@ != path by {
                    if j < rest.len() {
                        assert(rest[j] == active[j]);
                    }
                }
            }
            if exists|i: int| 0 <= i < active.len() && (#[trigger] active[i]).settings_path@ == path {
                let i = choose|i: int|
                    0 <= i < active.len() && (#[trigger] active[i]).settings_path@ == path;
                assert(rest[i] == active[i]);
            }
        }
    }
}

/// A saved connection is listed as up exactly when an active connection was made from it,
/// whatever else is active; its own uuid, name and SSID are listed, and a connection
/// without a name goes by its SSID.
pub proof fn listing_says_what_is_up(r: SavedRecord, active: Seq<ActiveEntry>, wifi_enabled: bool)
    ensures
        ({
            let l = listed(r, active, wifi_enabled);
            let up = exists|i: int|
                0 <= i < active.len() && (#[trigger] active[i]).settings_path@ == r.path@;
            &&& l.state == "activated"@ <==> up
            &&& l.state == "disconnected"@ <==> !up
            &&& l.active_connection_path is Some <==> up
            &&& l.wifi_enabled == wifi_enabled
            &&& r.uuid is Some ==> l.uuid == r.uuid->0@
            &&& r.uuid is None ==> l.uuid.len() == 0
            &&& r.id is Some && r.id->0@.len() > 0 ==> l.name == r.id->0@
            &&& (r.id is None || r.id->0@.len() == 0) && l.ssid is Some ==> l.name == l.ssid->0
            &&& (r.id is None || r.id->0@.len() == 0) && l.ssid is None ==> l.name.len() == 0
            &&& l.ssid is Some <==> r.ssid is Some && ssid_text(r.ssid->0@).len() > 0
            &&& l.ssid is Some ==> l.ssid->0 == ssid_text(r.ssid->0@)
            &&& l.interface is None
        }),
{
    active_connection_is_made_from_the_saved_one(active, r.path@);
    reveal_strlit("activated");
    reveal_strlit("disconnected");
    assert("activated"@[0] == 'a' && "disconnected"@[0] == 'd');
}

/// A saved connection is listed exactly when it is a Wi-Fi connection.
pub proof fn saved_wifi_is_listed(
    records: Seq<SavedRecord>,
    active: Seq<ActiveEntry>,
    wifi_enabled: bool,
    x: WifiView,
)
    ensures
        saved_list(records, active, wifi_enabled).contains(x) <==> exists|i: int|
            0 <= i < records.len() && (#[trigger] records[i]).connection_type is Some
                && records[i].connection_type->0@ == "802-11-wireless"@ && x == listed(
                records[i],
                active,
                wifi_enabled,
            ),
    decreases records.len(),
{
    let all = saved_list(records, active, wifi_enabled);
    if records.len() > 0 {
        let rest = records.drop_last();
        let before = saved_list(rest, active, wifi_enabled);
        let y = listed(records.last(), active, wifi_enabled);
        saved_wifi_is_listed(rest, active, wifi_enabled, x);
        placed_holds(before, y, x);
        if all.contains(x) {
            if before.contains(x) {
                let i = choose|i: int|
                    0 <= i < rest.len() && (#[trigger] rest[i]).connection_type is Some
                        && rest[i].connection_type->0@ == "802-11-wireless"@ && x == listed(
                        rest[i],
                        active,
                        wifi_enabled,
                    );
                assert(records[i] == rest[i]);
            } else {
                assert(records[records.len() - 1] == records.last());
            }
        }
        if exists|i: int|
            0 <= i < records.len() && (#[trigger] records[i]).connection_type is Some
                && records[i].connection_type->0@ == "802-11-wireless"@ && x == listed(
                records[i],
                active,
                wifi_enabled,
            ) {
            let i = choose|i: int|
                0 <= i < records.len() && (#[trigger] records[i]).connection_type is Some
                    && records[i].connection_type->0@ == "802-11-wireless"@ && x == listed(
                    records[i],
                    active,
                    wifi_enabled,
                );
            if i < rest.len() {
                assert(rest[i] == records[i]);
            }
        }
    }
}

proof fn placed_holds(s: Seq<WifiView>, y: WifiView, x: WifiView)
    ensures
        placed_by_name(s, y).contains(x) <==> x == y || s.contains(x),
    decreases s.len(),
{
    let r = placed_by_name(s, y);
    if s.len() > 0 && text::text_before(y.name, s.last().name) {
        let t = s.drop_last();
        let p = placed_by_name(t, y);
        placed_holds(t, y, x);
        if r.contains(x) {
            let k = choose|k: int| 0 <= k < r.len() && r[k] == x;
            if k < p.len() {
                assert(p[k] == x);
                if x != y {
                    let m = choose|m: int| 0 <= m < t.len() && t[m] == x;
                    assert(s[m] == x);
                }
            } else {
                assert(s[s.len() - 1] == x);
            }
        }
        if x == y || s.contains(x) {
            if p.contains(x) {
                let k = choose|k: int| 0 <= k < p.len() && p[k] == x;
                assert(r[k] == x);
            } else {
                let m = choose|m: int| 0 <= m < s.len() && s[m] == x;
                if m < t.len() {
                    assert(t[m] == x);
                }
                assert(r[r.len() - 1] == x);
            }
        }
    } else {
        if r.contains(x) {
            let k = choose|k: int| 0 <= k < r.len() && r[k] == x;
            if k < s.len() {
                assert(s[k] == x);
            }
        }
        if s.contains(x) {
            let m = choose|m: int| 0 <= m < s.len() && s[m] == x;
            assert(r[m] == x);
        }
        assert(r[s.len() as int] == y);
    }
}

proof fn listed_device_is_one(devices: Seq<DeviceRecord>, k: int) -> (i: int)
    requires
        0 <= k < wifi_device_list(devices).len(),
    ensures
        k <= i < devices.len(),
        is_device(devices[i], wifi_device_list(devices)[k]),
    decreases devices.len(),
{
    let rest = devices.drop_last();
    let before = wifi_device_list(rest);
    if k < before.len() {
        let i = listed_device_is_one(rest, k);
        assert(wifi_device_list(devices)[k] == before[k]);
        assert(devices[i] == rest[i]);
        i
    } else {
        listed_devices_are_fewer(rest);
        devices.len() - 1
    }
}

proof fn listed_devices_are_fewer(devices: Seq<DeviceRecord>)
    ensures
        wifi_device_list(devices).len() <= devices.len(),
    decreases devices.len(),
{
    if devices.len() > 0 {
        listed_devices_are_fewer(devices.drop_last());
    }
}

proof fn wifi_device_is_listed(devices: Seq<DeviceRecord>, i: int) -> (k: int)
    requires
        0 <= i < devices.len(),
        devices[i].device_type == Some(2u32),
    ensures
        0 <= k <= i,
        k < wifi_device_list(devices).len(),
        is_device(devices[i], wifi_device_list(devices)[k]),
    decreases devices.len(),
{
    let rest = devices.drop_last();
    let before = wifi_device_list(rest);
    listed_devices_are_fewer(rest);
    if i < rest.len() {
        assert(rest[i] == devices[i]);
        let k = wifi_device_is_listed(rest, i);
        assert(wifi_device_list(devices)[k] == before[k]);
        k
    } else {
        before.len() as int
    }
}

/// The devices that are listed are the Wi-Fi devices, each with its own path and interface,
/// and none of them is left out; where the first device is one, it is listed first.
pub proof fn wifi_devices_are_listed(devices: Seq<DeviceRecord>)
    ensures
        wifi_device_list(devices).len() <= devices.len(),
        forall|k: int|
            0 <= k < wifi_device_list(devices).len() ==> exists|i: int|
                k <= i < devices.len() && is_device(
                    devices[i],
                    #[trigger] wifi_device_list(devices)[k],
                ),
        forall|i: int|
            0 <= i < devices.len() && (#[trigger] devices[i]).device_type == Some(2u32) ==> exists|
                k: int,
            |
                0 <= k < wifi_device_list(devices).len() && is_device(
                    devices[i],
                    wifi_device_list(devices)[k],
                ),
        devices.len() > 0 && devices[0].device_type == Some(2u32) ==> wifi_device_list(devices).len()
            > 0 && is_device(devices[0], wifi_device_list(devices)[0]),
{
    listed_devices_are_fewer(devices);
    assert forall|k: int| 0 <= k < wifi_device_list(devices).len() implies exists|i: int|
        k <= i < devices.len() && is_device(devices[i], #[trigger] wifi_device_list(devices)[k]) by {
        let i = listed_device_is_one(devices, k);
    }
    assert forall|i: int|
        0 <= i < devices.len() && (#[trigger] devices[i]).device_type == Some(2u32) implies exists|
        k: int,
    |
        0 <= k < wifi_device_list(devices).len() && is_device(
            devices[i],
            wifi_device_list(devices)[k],
        ) by {
        let k = wifi_device_is_listed(devices, i);
    }
    if devices.len() > 0 && devices[0].device_type == Some(2u32) {
        let k = wifi_device_is_listed(devices, 0);
    }
}

/// The Wi-Fi devices are listed in the order in which they come.
pub proof fn wifi_devices_keep_their_order(devices: Seq<DeviceRecord>)
    ensures
        wifi_device_list(devices) == devices.filter(
            |d: DeviceRecord| d.device_type == Some(2u32),
        ).map_values(
            |d: DeviceRecord|
                (
                    d.path@,
                    if d.interface is Some {
                        d.interface->0@
                    } else {
                        Seq::<char>::empty()
                    },
                ),
        ),
    decreases devices.len(),
{
    reveal(Seq::filter);
    let is_one = |d: DeviceRecord| d.device_type == Some(2u32);
    let shown = |d: DeviceRecord|
        (
            d.path@,
            if d.interface is Some {
                d.interface->0@
            } else {
                Seq::<char>::empty()
            },
        );
    if devices.len() > 0 {
        let rest = devices.drop_last();
        wifi_devices_keep_their_order(rest);
        if is_one(devices.last()) {
            assert(devices.filter(is_one).map_values(shown) =~= rest.filter(is_one).map_values(
                shown,
            ).push(shown(devices.last())));
        }
    }
    assert(wifi_device_list(devices) =~= devices.filter(is_one).map_values(shown));
}

/// Whether a listed device is this Wi-Fi device.
pub open spec fn is_device(d: DeviceRecord, listed: (Seq<char>, Seq<char>)) -> bool {
    &&& d.device_type == Some(2u32)
    &&& listed.0 == d.path@
    &&& d.interface is Some ==> listed.1 == d.interface->0@
    &&& d.interface is None ==> listed.1.len() == 0
}

/// The Wi-Fi connection that is reported is a fully activated one with a device, and it is
/// the first that carries the default route, or where none does the first of all; where
/// none is reported there is none.
pub proof fn reported_wifi_is_up(records: Seq<ActiveRecord>, primary: Option<Seq<char>>)
    ensures
        chosen_wifi(records, primary) matches Some(r) ==> exists|i: int|
            0 <= i < records.len() && #[trigger] records[i] == r && is_up(records[i]) && (if Some(
                r.path@,
            ) == primary {
                forall|j: int|
                    0 <= j < i ==> !(is_up(#[trigger] records[j]) && Some(records[j].path@)
                        == primary)
            } else {
                (forall|j: int| 0 <= j < i ==> !is_up(#[trigger] records[j])) && forall|j: int|
                    0 <= j < records.len() ==> !(is_up(#[trigger] records[j]) && Some(
                        records[j].path@,
                    ) == primary)
            }),
        chosen_wifi(records, primary) is None ==> forall|j: int|
            0 <= j < records.len() ==> !is_up(#[trigger] records[j]),
{
    first_wifi_is_first(records, primary, true);
    first_wifi_is_first(records, primary, false);
}

/// Whether NetworkManager says of a connection that it is a Wi-Fi connection, fully up,
/// on a device.
pub open spec fn is_up(r: ActiveRecord) -> bool {
    &&& r.connection_type is Some && r.connection_type->0@ == "802-11-wireless"@
    &&& r.state == Some(2u32)
    &&& r.link is Some
}

proof fn first_wifi_is_first(
    records: Seq<ActiveRecord>,
    primary: Option<Seq<char>>,
    only_primary: bool,
)
    ensures
        first_wifi(records, primary, only_primary) matches Some(r) ==> exists|i: int|
            0 <= i < records.len() && #[trigger] records[i] == r && is_up(records[i]) && (
            only_primary ==> Some(r.path@) == primary) && forall|j: int|
                0 <= j < i ==> !(is_up(#[trigger] records[j]) && (only_primary ==> Some(
                    records[j].path@,
                ) == primary)),
        first_wifi(records, primary, only_primary) is None ==> forall|j: int|
            0 <= j < records.len() ==> !(is_up(#[trigger] records[j]) && (only_primary ==> Some(
                records[j].path@,
            ) == primary)),
    decreases records.len(),
{
    if records.len() > 0 {
        let rest = records.drop_first();
        first_wifi_is_first(rest, primary, only_primary);
        let here = is_up(records[0]) && (only_primary ==> Some(records[0].path@) == primary);
        if here {
            assert(records[0] == first_wifi(records, primary, only_primary)->0);
        } else {
            match first_wifi(rest, primary, only_primary) {
                Some(r) => {
                    let i = choose|i: int|
                        0 <= i < rest.len() && #[trigger] rest[i] == r && is_up(rest[i]) && (
                        only_primary ==> Some(r.path@) == primary) && forall|j: int|
                            0 <= j < i ==> !(is_up(#[trigger] rest[j]) && (only_primary ==> Some(
                                rest[j].path@,
                            ) == primary));
                    assert(records[i + 1] == r);
                    assert forall|j: int| 0 <= j < i + 1 implies !(is_up(#[trigger] records[j]) && (
                    only_primary ==> Some(records[j].path@) == primary)) by {
                        if j > 0 {
                            assert(rest[j - 1] == records[j]);
                        }
                    }
                },
                None => {
                    assert forall|j: int| 0 <= j < records.len() implies !(is_up(
                        #[trigger] records[j],
                    ) && (only_primary ==> Some(records[j].path@) == primary)) by {
                        if j > 0 {
                            assert(rest[j - 1] == records[j]);
                        }
                    }
                },
            }
        }
    }
}

/// What is reported of a connection is its own: its uuid, the addresses and the interface
/// of its device, the SSID that the device is on, and whether it carries the default
/// route.
pub proof fn report_is_of_the_connection(w: ActiveWifi, r: ActiveRecord, primary: Option<Seq<char>>)
    requires
        is_report(w, r, primary),
        r.link is Some,
    ensures
        r.uuid is Some ==> w.uuid@ == r.uuid->0@,
        r.link->0.interface is Some ==> w.interface@ == r.link->0.interface->0@,
        r.link->0.ipv4 is Some <==> w.ipv4 is Some,
        w.ipv4 is Some ==> w.ipv4->0@ == r.link->0.ipv4->0@,
        r.link->0.ipv6 is Some <==> w.ipv6 is Some,
        w.ipv6 is Some ==> w.ipv6->0@ == r.link->0.ipv6->0@,
        r.link->0.ssid is Some && r.link->0.ssid->0@.len() > 0 ==> w.ssid@ == ssid_text(
            r.link->0.ssid->0@,
        ),
        r.link->0.ssid is None ==> w.ssid@.len() == 0,
        w.has_default_route <==> primary == Some(r.path@),
{
}

/// The text of an SSID does not end in NUL, and what was cut off is NUL only.
pub proof fn ssid_text_only_loses_nuls(bytes: Seq<u8>)
    ensures
        ({
            let (shown, t) = (text::shown_text(bytes), ssid_text(bytes));
            &&& t.len() <= shown.len()
            &&& t == shown.take(t.len() as int)
            &&& t.len() > 0 ==> t.last() != '\0'
            &&& forall|i: int| t.len() <= i < shown.len() ==> #[trigger] shown[i] == '\0'
        }),
{
    nuls_are_cut(text::shown_text(bytes));
}

proof fn nuls_are_cut(s: Seq<char>)
    ensures
        ({
            let t = without_nuls(s);
            &&& t.len() <= s.len()
            &&& t == s.take(t.len() as int)
            &&& t.len() > 0 ==> t.last() != '\0'
            &&& forall|i: int| t.len() <= i < s.len() ==> #[trigger] s[i] == '\0'
        }),
    decreases s.len(),
{
    let t = without_nuls(s);
    if s.len() > 0 && s.last() == '\0' {
        nuls_are_cut(s.drop_last());
        assert(t =~= s.take(t.len() as int));
        assert forall|i: int| t.len() <= i < s.len() implies #[trigger] s[i] == '\0' by {
            if i < s.len() - 1 {
                assert(s.drop_last()[i] == s[i]);
            }
        }
    } else {
        assert(t =~= s.take(t.len() as int));
    }
}

/// Wi-Fi is on only where both the network stack and the radio are known to be.
pub proof fn wifi_is_on_only_where_known(networking: Option<bool>, wireless: Option<bool>)
    ensures
        is_wifi_on(networking, wireless) <==> networking == Some(true) && wireless == Some(true),
{
}

/// Connecting to a network uses the saved connection for its SSID where there is one, and
/// makes a new one only where there is none; a new one has a key just where a password is
/// given. It goes over the first device, and fails just where there is none.
pub proof fn saved_connections_are_used(
    r: Result<ConnectPlan, NmError>,
    devices: Seq<(Seq<char>, Seq<char>)>,
    saved: Seq<SavedRecord>,
    ssid: Seq<char>,
    password: Option<Seq<char>>,
)
    requires
        is_plan(r, devices, saved, ssid, password),
    ensures
        r is Err <==> devices.len() == 0,
        r is Ok ==> (r->Ok_0 is Activate <==> exists|i: int|
            0 <= i < saved.len() && is_for(#[trigger] saved[i], vstd::utf8::encode_utf8(ssid))),
        r matches Ok(ConnectPlan::Activate { connection, device }) ==> device@ == devices[0].0
            && exists|i: int|
            0 <= i < saved.len() && is_for(#[trigger] saved[i], vstd::utf8::encode_utf8(ssid))
                && saved[i].path@ == connection@,
        r matches Ok(ConnectPlan::Add { device, id, ssid: raw, psk }) ==> device@ == devices[0].0
            && id@ == ssid && raw@ == vstd::utf8::encode_utf8(ssid) && (psk is Some <==> password is Some
            && password->0.len() > 0) && (psk is Some ==> psk->0@ == password->0),
{
    saved_connection_has_the_ssid(saved, vstd::utf8::encode_utf8(ssid));
}

/// What an error says ends with the reason, and tells a failure of D-Bus from
/// NetworkManager not being there.
pub proof fn errors_tell_the_reason(e: String, other: String)
    ensures
        e@.is_suffix_of(NmError::Dbus(e).says()),
        e@.is_suffix_of(NmError::Unavailable(e).says()),
        NmError::Dbus(e).says() != NmError::Unavailable(other).says(),
{
    reveal_strlit("D-Bus error: ");
    reveal_strlit("NetworkManager is not reachable: ");
    let (a, b) = (NmError::Dbus(e).says(), NmError::Unavailable(e).says());
    assert(a.skip(a.len() - e@.len()) =~= e@);
    assert(b.skip(b.len() - e@.len()) =~= e@);
    assert(a[0] == 'D' && NmError::Unavailable(other).says()[0] == 'N');
}

} // verus!
