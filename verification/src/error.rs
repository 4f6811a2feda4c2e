//! Errors of the library, and what they say.

use crate::networkmanager::NmError;
use crate::profiles::ProfileStoreError;
use crate::secrets::SecretServiceError;
use vstd::prelude::*;

verus! {

/// What can go wrong in the daemon, the command line and the window. Where something
/// outside the library failed, the error holds what it said.
#[derive(Debug)]
pub enum Error {
    Config(String),
    Profiles(ProfileStoreError),
    Secrets(SecretServiceError),
    NetworkManager(NmError),
    ProxyEngine(String),
    Firewall(String),
    Tun(String),
    Dns(String),
    Dbus(String),
    Io(String),
    Json(String),
    StateMachine(String),
    NotConnected,
    NoProfileAssigned { uuid: String },
    ProfileDisabled { uuid: String },
    Internal(String),
}

impl Error {
    /// What the error says.
    pub open spec fn says(self) -> Seq<char> {
        match self {
            Error::Config(e) => "configuration error: "@ + e@,
            Error::Profiles(e) => "profile store error: "@ + e.says(),
            Error::Secrets(e) => "secret service error: "@ + e.says(),
            Error::NetworkManager(e) => "NetworkManager error: "@ + e.says(),
            Error::ProxyEngine(e) => "proxy engine error: "@ + e@,
            Error::Firewall(e) => "firewall / nftables error: "@ + e@,
            Error::Tun(e) => "TUN device error: "@ + e@,
            Error::Dns(e) => "DNS error: "@ + e@,
            Error::Dbus(e) => "D-Bus error: "@ + e@,
            Error::Io(e) => "I/O error: "@ + e@,
            Error::Json(e) => "JSON error: "@ + e@,
            Error::StateMachine(e) => "state machine error: "@ + e@,
            Error::NotConnected => "not connected to a Wi-Fi network"@,
            Error::NoProfileAssigned { uuid } => "no proxy profile assigned to connection "@ + uuid@,
            Error::ProfileDisabled { uuid } => "profile for connection "@ + uuid@ + " is disabled"@,
            Error::Internal(e) => "internal error: "@ + e@,
        }
    }

    /// What the error says.
    pub fn message(&self) -> (r: String)
        ensures
            r@ == self.says(),
    {
        match self {
            Error::Config(e) => after("configuration error: ", e.as_str()),
            Error::Profiles(e) => after("profile store error: ", e.message().as_str()),
            Error::Secrets(e) => after("secret service error: ", e.message().as_str()),
            Error::NetworkManager(e) => after("NetworkManager error: ", e.message().as_str()),
            Error::ProxyEngine(e) => after("proxy engine error: ", e.as_str()),
            Error::Firewall(e) => after("firewall / nftables error: ", e.as_str()),
            Error::Tun(e) => after("TUN device error: ", e.as_str()),
            Error::Dns(e) => after("DNS error: ", e.as_str()),
            Error::Dbus(e) => after("D-Bus error: ", e.as_str()),
            Error::Io(e) => after("I/O error: ", e.as_str()),
            Error::Json(e) => after("JSON error: ", e.as_str()),
            Error::StateMachine(e) => after("state machine error: ", e.as_str()),
            Error::NotConnected => "not connected to a Wi-Fi network".to_owned(),
            Error::NoProfileAssigned { uuid } => after(
                "no proxy profile assigned to connection ",
                uuid.as_str(),
            ),
            Error::ProfileDisabled { uuid } => {
                let mut r = after("profile for connection ", uuid.as_str());
                r.append(" is disabled");
                r
            },
            Error::Internal(e) => after("internal error: ", e.as_str()),
        }
    }
}

/// `detail` behind `context`.
pub fn after(context: &str, detail: &str) -> (r: String)
    ensures
        r@ == context@ + detail@,
{
    let mut r = context.to_owned();
    r.append(detail);
    r
}

// ---------------------------------------------------------------------------
// Laws
// ---------------------------------------------------------------------------

/// What an error says ends with what went wrong, where something outside said so, and
/// begins with what it is about.
pub proof fn errors_say_what_went_wrong(e: String)
    ensures
        e@.is_suffix_of(Error::Config(e).says()) && "configuration"@.is_prefix_of(
            Error::Config(e).says(),
        ),
        e@.is_suffix_of(Error::ProxyEngine(e).says()) && "proxy engine"@.is_prefix_of(
            Error::ProxyEngine(e).says(),
        ),
        e@.is_suffix_of(Error::Firewall(e).says()) && "firewall"@.is_prefix_of(
            Error::Firewall(e).says(),
        ),
        e@.is_suffix_of(Error::Tun(e).says()) && "TUN"@.is_prefix_of(Error::Tun(e).says()),
        e@.is_suffix_of(Error::Dns(e).says()) && "DNS"@.is_prefix_of(Error::Dns(e).says()),
        e@.is_suffix_of(Error::Dbus(e).says()) && "D-Bus"@.is_prefix_of(Error::Dbus(e).says()),
        e@.is_suffix_of(Error::Io(e).says()) && "I/O"@.is_prefix_of(Error::Io(e).says()),
        e@.is_suffix_of(Error::Json(e).says()) && "JSON"@.is_prefix_of(Error::Json(e).says()),
        e@.is_suffix_of(Error::StateMachine(e).says()) && "state machine"@.is_prefix_of(
            Error::StateMachine(e).says(),
        ),
        e@.is_suffix_of(Error::Internal(e).says()) && "internal"@.is_prefix_of(
            Error::Internal(e).says(),
        ),
        e@.is_suffix_of((Error::NoProfileAssigned { uuid: e }).says()),
{
    begins_and_ends("configuration error: "@, "configuration"@, e@);
    begins_and_ends("proxy engine error: "@, "proxy engine"@, e@);
    begins_and_ends("firewall / nftables error: "@, "firewall"@, e@);
    begins_and_ends("TUN device error: "@, "TUN"@, e@);
    begins_and_ends("DNS error: "@, "DNS"@, e@);
    begins_and_ends("D-Bus error: "@, "D-Bus"@, e@);
    begins_and_ends("I/O error: "@, "I/O"@, e@);
    begins_and_ends("JSON error: "@, "JSON"@, e@);
    begins_and_ends("state machine error: "@, "state machine"@, e@);
    begins_and_ends("internal error: "@, "internal"@, e@);
    begins_and_ends(
        "no proxy profile assigned to connection "@,
        "no proxy profile assigned to connection "@,
        e@,
    );
    beginnings();
}

proof fn begins_and_ends(context: Seq<char>, subject: Seq<char>, detail: Seq<char>)
    ensures
        detail.is_suffix_of(context + detail),
        subject.len() <= context.len() && context.take(subject.len() as int) == subject
            ==> subject.is_prefix_of(context + detail),
{
    let all = context + detail;
    assert(all.skip(all.len() - detail.len()) =~= detail);
    if subject.len() <= context.len() {
        assert(all.take(subject.len() as int) =~= context.take(subject.len() as int));
    }
}

proof fn beginnings()
    ensures
        "configuration error: "@.len() == 21 && "configuration"@.len() == 13,
        "configuration error: "@.take(13) == "configuration"@,
        "proxy engine error: "@.len() == 20 && "proxy engine"@.len() == 12,
        "proxy engine error: "@.take(12) == "proxy engine"@,
        "firewall / nftables error: "@.len() == 27 && "firewall"@.len() == 8,
        "firewall / nftables error: "@.take(8) == "firewall"@,
        "TUN device error: "@.len() == 18 && "TUN"@.len() == 3,
        "TUN device error: "@.take(3) == "TUN"@,
        "DNS error: "@.len() == 11 && "DNS"@.len() == 3,
        "DNS error: "@.take(3) == "DNS"@,
        "D-Bus error: "@.len() == 13 && "D-Bus"@.len() == 5,
        "D-Bus error: "@.take(5) == "D-Bus"@,
        "I/O error: "@.len() == 11 && "I/O"@.len() == 3,
        "I/O error: "@.take(3) == "I/O"@,
        "JSON error: "@.len() == 12 && "JSON"@.len() == 4,
        "JSON error: "@.take(4) == "JSON"@,
        "state machine error: "@.len() == 21 && "state machine"@.len() == 13,
        "state machine error: "@.take(13) == "state machine"@,
        "internal error: "@.len() == 16 && "internal"@.len() == 8,
        "internal error: "@.take(8) == "internal"@,
{
    reveal_strlit("configuration error: ");
    reveal_strlit("configuration");
    reveal_strlit("proxy engine error: ");
    reveal_strlit("proxy engine");
    reveal_strlit("firewall / nftables error: ");
    reveal_strlit("firewall");
    reveal_strlit("TUN device error: ");
    reveal_strlit("TUN");
    reveal_strlit("DNS error: ");
    reveal_strlit("DNS");
    reveal_strlit("D-Bus error: ");
    reveal_strlit("D-Bus");
    reveal_strlit("I/O error: ");
    reveal_strlit("I/O");
    reveal_strlit("JSON error: ");
    reveal_strlit("JSON");
    reveal_strlit("state machine error: ");
    reveal_strlit("state machine");
    reveal_strlit("internal error: ");
    reveal_strlit("internal");
}

} // verus!
