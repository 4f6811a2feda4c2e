//! Where the proxy runs.

use crate::addr::ProxyAddr;
use crate::models::ProxyProfile;
use vstd::prelude::*;

verus! {

/// Where the proxy runs: the physical interface that carries the connection, and the
/// proxy's address, resolved once before any rule is installed.
#[derive(Debug)]
pub struct RouteContext {
    pub iface: String,
    pub proxy_ip: ProxyAddr,
}

/// What a [`RouteContext`] says.
pub struct RouteView {
    pub iface: Seq<char>,
    pub proxy_ip: ProxyAddr,
}

impl View for RouteContext {
    type V = RouteView;

    open spec fn view(&self) -> RouteView {
        RouteView { iface: self.iface@, proxy_ip: self.proxy_ip }
    }
}

impl Clone for RouteContext {
    fn clone(&self) -> (r: Self)
        ensures
            r == *self,
    {
        RouteContext { iface: self.iface.clone(), proxy_ip: self.proxy_ip.clone() }
    }
}

/// The first IPv4 address of a list.
pub open spec fn first_v4(addrs: Seq<ProxyAddr>) -> Option<ProxyAddr>
    decreases addrs.len(),
{
    if addrs.len() == 0 {
        None
    } else if addrs[0] is V4 {
        Some(addrs[0])
    } else {
        first_v4(addrs.drop_first())
    }
}

/// The address to use of those that a host has: the first IPv4 one, or else the first.
pub open spec fn preferred(addrs: Seq<ProxyAddr>) -> Option<ProxyAddr> {
    if first_v4(addrs) is Some {
        first_v4(addrs)
    } else if addrs.len() > 0 {
        Some(addrs[0])
    } else {
        None
    }
}

/// The route for a proxy `host` over `iface`, given what looking the host up gave.
pub open spec fn resolved(
    host: Seq<char>,
    iface: Seq<char>,
    lookup: Result<Vec<ProxyAddr>, String>,
) -> Result<RouteView, Seq<char>> {
    match lookup {
        Err(e) => Err("cannot resolve proxy host "@ + host + ": "@ + e@),
        Ok(addrs) => match preferred(addrs@) {
            Some(ip) => Ok(RouteView { iface, proxy_ip: ip }),
            None => Err("proxy host "@ + host + " has no address"@),
        },
    }
}

/// A result whose success and failure are taken by their views.
pub open spec fn route_result(r: Result<RouteContext, String>) -> Result<RouteView, Seq<char>> {
    match r {
        Ok(route) => Ok(route@),
        Err(why) => Err(why@),
    }
}

impl RouteContext {
    /// The route for `profile`'s proxy over `iface`, preferring IPv4; `lookup` is what
    /// looking the proxy's host up gave.
    pub fn resolve(profile: &ProxyProfile, iface: &str, lookup: Result<Vec<ProxyAddr>, String>) -> (r:
        Result<RouteContext, String>)
        ensures
            route_result(r) == resolved(profile.proxy.host@, iface@, lookup),
    {
        let addrs = match lookup {
            Ok(addrs) => addrs,
            Err(e) => {
                let mut why = "cannot resolve proxy host ".to_owned();
                why.append(profile.proxy.host.as_str());
                why.append(": ");
                why.append(e.as_str());
                return Err(why);
            },
        };
        let mut i: usize = 0;
        assert(addrs@.skip(0) =~= addrs@);
        while i < addrs.len()
            invariant
                i <= addrs@.len(),
                lookup == Ok::<Vec<ProxyAddr>, String>(addrs),
                first_v4(addrs@) == first_v4(addrs@.skip(i as int)),
            decreases addrs@.len() - i,
        {
            proof {
                assert(addrs@.skip(i as int)[0] == addrs@[i as int]);
                assert(addrs@.skip(i as int).drop_first() =~= addrs@.skip(i + 1));
            }
            if addrs[i].is_ipv4() {
                return Ok(RouteContext { iface: iface.to_owned(), proxy_ip: addrs[i].clone() });
            }
            i += 1;
        }
        if addrs.len() > 0 {
            return Ok(RouteContext { iface: iface.to_owned(), proxy_ip: addrs[0].clone() });
        }
        let mut why = "proxy host ".to_owned();
        why.append(profile.proxy.host.as_str());
        why.append(" has no address");
        Err(why)
    }
}

} // verus!
