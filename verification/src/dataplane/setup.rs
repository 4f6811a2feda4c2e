//! The steps of building the tunnel, in order, and where they end.
//!
//! While a [`TunnelSetup`] is not finished, its phase says what has to be done next; what
//! came of it is handed back with [`TunnelSetup::resume`]. A failed step ends the set-up.

use crate::dataplane::ruleset;
use crate::dataplane::tunnel;
use crate::dataplane::tunnel::LINK_ATTEMPTS;
use crate::models;
use crate::models::{DnsMode, ProxyProfile, UdpMode};
use crate::service::route::RouteContext;
use crate::text;
use vstd::prelude::*;

verus! {

/// What has to be done next.
#[derive(Debug, Clone, Copy, PartialEq, Eq, Structural)]
pub enum SetupPhase {
    /// Write the configuration of `tun2socks` to a new file with
    /// [`tunnel::CONFIG_MODE`].
    WriteConfig,
    /// Start `tun2socks` with [`tunnel::engine_args`].
    Spawn,
    /// Look for the device.
    ShowLink,
    /// Ask whether `tun2socks` is still running.
    CheckChild,
    /// Wait a moment.
    Wait,
    /// Run the next `ip` command.
    RunIp,
    /// Look up the gateway of the interface's default route.
    FindGateway,
    /// Bind and serve the DNS forwarder.
    ServeDns,
    /// Nothing.
    Finished,
}

/// What came of a phase.
pub enum SetupOutcome {
    Done(Result<(), String>),
    Running(bool),
    Waited,
    Gateway(Option<String>),
}

/// Whether an outcome is one of the phase's.
pub open spec fn fits(phase: SetupPhase, o: SetupOutcome) -> bool {
    match phase {
        SetupPhase::WriteConfig
        | SetupPhase::Spawn
        | SetupPhase::ShowLink
        | SetupPhase::RunIp
        | SetupPhase::ServeDns => o is Done,
        SetupPhase::CheckChild => o is Running,
        SetupPhase::Wait => o is Waited,
        SetupPhase::FindGateway => o is Gateway,
        SetupPhase::Finished => false,
    }
}

/// The set-up of a tunnel.
pub struct TunnelSetup {
    phase: SetupPhase,
    attempts: u32,
    commands: Vec<Vec<String>>,
    at: usize,
    direct: bool,
    dns: bool,
    iface: String,
    error: Option<String>,
}

/// What a [`TunnelSetup`] says.
#[verifier::ext_equal]
pub struct SetupView {
    pub phase: SetupPhase,
    /// How often the device was looked for in vain.
    pub attempts: u32,
    /// The `ip` commands still to run.
    pub commands: Seq<Seq<Seq<char>>>,
    /// Whether the direct route for UDP is still to be set up.
    pub direct: bool,
    /// Whether DNS is served at the end.
    pub dns: bool,
    pub iface: Seq<char>,
    pub error: Option<Seq<char>>,
}

impl View for TunnelSetup {
    type V = SetupView;

    closed spec fn view(&self) -> SetupView {
        SetupView {
            phase: self.phase,
            attempts: self.attempts,
            commands: text::rows(self.commands@.skip(self.at as int)),
            direct: self.direct,
            dns: self.dns,
            iface: self.iface@,
            error: models::opt_text(self.error),
        }
    }
}

/// A set-up that has done nothing yet; `tun` is the address of the tunnel.
pub open spec fn planned(profile: ProxyProfile, iface: Seq<char>, tun: Seq<char>) -> SetupView {
    SetupView {
        phase: SetupPhase::WriteConfig,
        attempts: 0,
        commands: tunnel::tunnel_commands(tun, profile.routing.ipv6),
        direct: profile.udp == UdpMode::Direct,
        dns: profile.dns == DnsMode::Proxied,
        iface,
        error: None,
    }
}

impl SetupView {
    pub open spec fn at(self, phase: SetupPhase) -> SetupView {
        SetupView { phase, ..self }
    }

    pub open spec fn failed(self, why: Seq<char>) -> SetupView {
        SetupView { phase: SetupPhase::Finished, error: Some(why), ..self }
    }

    /// Where the set-up goes once no command is left.
    pub open spec fn next(self) -> SetupView {
        if self.commands.len() > 0 {
            self.at(SetupPhase::RunIp)
        } else if self.direct {
            self.at(SetupPhase::FindGateway)
        } else if self.dns {
            self.at(SetupPhase::ServeDns)
        } else {
            self.at(SetupPhase::Finished)
        }
    }
}

/// What becomes of a set-up, given what came of the phase; nothing, where the outcome is
/// not one of the phase's.
pub open spec fn step(t: SetupView, o: SetupOutcome) -> SetupView {
    if !fits(t.phase, o) {
        t
    } else {
        fitting_step(t, o)
    }
}

/// What becomes of a set-up, given what came of the phase.
pub open spec fn fitting_step(t: SetupView, o: SetupOutcome) -> SetupView {
    match (t.phase, o) {
        (SetupPhase::WriteConfig, SetupOutcome::Done(Ok(_))) => t.at(SetupPhase::Spawn),
        (SetupPhase::Spawn, SetupOutcome::Done(Ok(_))) => t.at(SetupPhase::ShowLink),
        (SetupPhase::ShowLink, SetupOutcome::Done(Ok(_))) => t.next(),
        // The device is not there yet.
        (SetupPhase::ShowLink, SetupOutcome::Done(Err(_))) => t.at(SetupPhase::CheckChild),
        (SetupPhase::CheckChild, SetupOutcome::Running(true)) => t.at(SetupPhase::Wait),
        (SetupPhase::CheckChild, SetupOutcome::Running(false)) => t.failed(
            "tun2socks exited during start-up (see the journal)"@,
        ),
        (SetupPhase::Wait, SetupOutcome::Waited) => if t.attempts + 1 < LINK_ATTEMPTS {
            SetupView { phase: SetupPhase::ShowLink, attempts: (t.attempts + 1) as u32, ..t }
        } else {
            t.failed("tun2socks did not create pwtun0"@)
        },
        (SetupPhase::RunIp, SetupOutcome::Done(Ok(_))) => SetupView {
            commands: t.commands.drop_first(),
            ..t
        }.next(),
        (SetupPhase::FindGateway, SetupOutcome::Gateway(g)) => SetupView {
            commands: tunnel::direct_commands(t.iface, models::opt_text(g)),
            direct: false,
            ..t
        }.next(),
        (SetupPhase::ServeDns, SetupOutcome::Done(Ok(_))) => t.at(SetupPhase::Finished),
        (_, SetupOutcome::Done(Err(e))) => t.failed(e@),
        _ => t,
    }
}

/// What a set-up keeps: it looks for the device a bounded number of times, runs a
/// command only while one is left, sets up the direct route and serves DNS only once
/// none is, and is finished once it failed. A set-up that finished without an error has
/// left nothing out.
pub open spec fn sound(t: SetupView) -> bool {
    &&& t.attempts < LINK_ATTEMPTS
    &&& t.phase == SetupPhase::RunIp ==> t.commands.len() > 0
    &&& t.phase == SetupPhase::FindGateway ==> t.commands.len() == 0 && t.direct
    &&& t.phase == SetupPhase::ServeDns ==> t.commands.len() == 0 && !t.direct && t.dns
    &&& t.phase == SetupPhase::Finished && t.error is None ==> t.commands.len() == 0 && !t.direct
    &&& t.error is Some ==> t.phase == SetupPhase::Finished
}

impl TunnelSetup {
    #[verifier::type_invariant]
    spec fn inv(self) -> bool {
        &&& self.at <= self.commands@.len()
        &&& sound(self@)
    }

    /// The set-up for `profile` over `route`; `configured` is what `PROXYWIFI_TUN_ADDR`
    /// holds, if it is set.
    pub fn new(profile: &ProxyProfile, route: &RouteContext, configured: Option<&str>) -> (r:
        TunnelSetup)
        ensures
            r@ == planned(
                *profile,
                route.iface@,
                ruleset::tun_address(crate::text::opt_str(configured)),
            ),
    {
        let tun = ruleset::tun_addr(configured);
        let commands = tunnel::list_tunnel_commands(tun.as_str(), profile.routing.ipv6);
        assert(commands@.skip(0) =~= commands@);
        TunnelSetup {
            phase: SetupPhase::WriteConfig,
            attempts: 0,
            commands,
            at: 0,
            direct: profile.udp == UdpMode::Direct,
            dns: profile.dns == DnsMode::Proxied,
            iface: route.iface.clone(),
            error: None,
        }
    }

    /// What has to be done next.
    pub fn phase(&self) -> (r: SetupPhase)
        ensures
            r == self@.phase,
            sound(self@),
    {
        proof {
            use_type_invariant(&*self);
        }
        self.phase
    }

    /// The arguments of the next `ip` command.
    pub fn command(&self) -> (r: Option<&Vec<String>>)
        ensures
            r is Some <==> self@.commands.len() > 0,
            r matches Some(c) ==> text::texts(c@) == self@.commands[0],
    {
        proof {
            use_type_invariant(&*self);
        }
        if self.at < self.commands.len() {
            Some(&self.commands[self.at])
        } else {
            None
        }
    }

    /// Why the set-up failed.
    pub fn error(&self) -> (r: Option<&String>)
        ensures
            (match r {
                Some(e) => Some(e@),
                None => None,
            }) == self@.error,
    {
        self.error.as_ref()
    }

    fn failed(self, why: String) -> (r: TunnelSetup)
        ensures
            r@ == self@.failed(why@),
    {
        proof {
            use_type_invariant(&self);
        }
        TunnelSetup { phase: SetupPhase::Finished, error: Some(why), ..self }
    }

    fn next(self) -> (r: TunnelSetup)
        requires
            self@.error is None,
        ensures
            r@ == self@.next(),
    {
        proof {
            use_type_invariant(&self);
        }
        let phase = if self.at < self.commands.len() {
            SetupPhase::RunIp
        } else if self.direct {
            SetupPhase::FindGateway
        } else if self.dns {
            SetupPhase::ServeDns
        } else {
            SetupPhase::Finished
        };
        TunnelSetup { phase, ..self }
    }

    /// Take note of what came of the phase. An outcome that is not one of the phase's
    /// changes nothing.
    pub fn resume(self, outcome: SetupOutcome) -> (r: TunnelSetup)
        ensures
            r@ == step(self@, outcome),
    {
        proof {
            use_type_invariant(&self);
        }
        match (self.phase, outcome) {
            (SetupPhase::ShowLink, SetupOutcome::Done(shown)) => match shown {
                Ok(_) => self.next(),
                Err(_) => TunnelSetup { phase: SetupPhase::CheckChild, ..self },
            },
            (SetupPhase::CheckChild, SetupOutcome::Running(running)) => {
                if running {
                    TunnelSetup { phase: SetupPhase::Wait, ..self }
                } else {
                    self.failed("tun2socks exited during start-up (see the journal)".to_owned())
                }
            },
            (SetupPhase::Wait, SetupOutcome::Waited) => {
                if self.attempts + 1 < LINK_ATTEMPTS {
                    let attempts: u32 = self.attempts + 1;
                    TunnelSetup { phase: SetupPhase::ShowLink, attempts, ..self }
                } else {
                    self.failed("tun2socks did not create pwtun0".to_owned())
                }
            },
            (SetupPhase::FindGateway, SetupOutcome::Gateway(gateway)) => {
                let commands = tunnel::list_direct_commands(self.iface.as_str(), gateway.as_ref());
                assert(commands@.skip(0) =~= commands@);
                TunnelSetup { phase: SetupPhase::RunIp, commands, at: 0, direct: false, ..self }
            },
            (
                SetupPhase::CheckChild
                | SetupPhase::Wait
                | SetupPhase::FindGateway
                | SetupPhase::Finished,
                _,
            ) => self,
            (phase, SetupOutcome::Done(done)) => {
                if let Err(e) = done {
                    return self.failed(e);
                }
                match phase {
                    SetupPhase::WriteConfig => TunnelSetup { phase: SetupPhase::Spawn, ..self },
                    SetupPhase::Spawn => TunnelSetup { phase: SetupPhase::ShowLink, ..self },
                    SetupPhase::RunIp => {
                        assert(self@.commands.len() == self.commands.len() - self.at);
                        let at: usize = self.at + 1;
                        proof {
                            assert(text::rows(self.commands@.skip(self.at as int)).drop_first()
                                =~= text::rows(self.commands@.skip(at as int)));
                        }
                        let advanced = TunnelSetup { phase: SetupPhase::ShowLink, at, ..self };
                        advanced.next()
                    },
                    _ => TunnelSetup { phase: SetupPhase::Finished, ..self },
                }
            },
            _ => self,
        }
    }
}

/// Why the DNS forwarder could not be bound.
pub fn bind_failure(tun: &str, error: &str) -> (r: String)
    ensures
        r@ == "cannot bind the DNS forwarder on "@ + tun@ + ":5335: "@ + error@,
{
    let mut r = "cannot bind the DNS forwarder on ".to_owned();
    r.append(tun);
    r.append(":5335: ");
    r.append(error);
    r
}

// ---------------------------------------------------------------------------
// Laws
// ---------------------------------------------------------------------------

/// How many phases a set-up can still take, at most.
pub open spec fn phases_left(t: SetupView) -> nat {
    let tail = t.commands.len() + (if t.direct {
        4nat
    } else {
        1
    });
    let tries = (LINK_ATTEMPTS - t.attempts) as nat;
    match t.phase {
        SetupPhase::WriteConfig => tail + 3 * tries + 2,
        SetupPhase::Spawn => tail + 3 * tries + 1,
        SetupPhase::ShowLink => tail + 3 * tries,
        SetupPhase::CheckChild => (tail + 3 * tries - 1) as nat,
        SetupPhase::Wait => (tail + 3 * tries - 2) as nat,
        SetupPhase::RunIp => tail,
        SetupPhase::FindGateway => 4,
        SetupPhase::ServeDns => 1,
        SetupPhase::Finished => 0,
    }
}

/// Every set-up ends: each phase leaves fewer to come.
pub proof fn setup_ends(t: SetupView, o: SetupOutcome)
    requires
        sound(t),
        fits(t.phase, o),
    ensures
        phases_left(step(t, o)) < phases_left(t),
        sound(step(t, o)),
{
}

/// A failed step ends the set-up with its reason; only a missing device is looked for
/// again.
pub proof fn failed_step_ends_the_setup(t: SetupView, why: String)
    requires
        fits(t.phase, SetupOutcome::Done(Err(why))),
        t.phase != SetupPhase::ShowLink,
    ensures
        step(t, SetupOutcome::Done(Err(why))) == t.failed(why@),
{
}

/// Where DNS is asked for, a set-up ends without an error only by serving it.
pub proof fn setup_ends_with_dns(t: SetupView, o: SetupOutcome)
    requires
        sound(t),
        fits(t.phase, o),
        t.dns,
        step(t, o).phase == SetupPhase::Finished,
        step(t, o).error is None,
    ensures
        t.phase == SetupPhase::ServeDns,
        o matches SetupOutcome::Done(r) && r is Ok,
{
}

/// The commands that remain from `t` on when everything succeeds and the gateway is `g`:
/// those that are planned, then those of the direct route.
pub open spec fn remaining_commands(t: SetupView, g: Option<Seq<char>>) -> Seq<Seq<Seq<char>>> {
    t.commands + if t.direct {
        tunnel::direct_commands(t.iface, g)
    } else {
        seq![]
    }
}

/// Commands run in the order in which they were planned: what remains after one is what
/// remained before it, without the first.
pub proof fn commands_run_in_order(t: SetupView, g: Option<Seq<char>>)
    requires
        t.phase == SetupPhase::RunIp,
        t.commands.len() > 0,
    ensures
        ({
            let next = step(t, SetupOutcome::Done(Ok(())));
            remaining_commands(t, g) == seq![t.commands[0]] + remaining_commands(next, g)
        }),
{
    let next = step(t, SetupOutcome::Done(Ok(())));
    assert(remaining_commands(t, g) =~= seq![t.commands[0]] + remaining_commands(next, g));
}

/// `tun2socks` is started only once its configuration was written, and commands run only
/// once its device is there.
pub proof fn engine_starts_behind_its_config(t: SetupView, o: SetupOutcome)
    requires
        sound(t),
        step(t, o).phase != t.phase,
    ensures
        step(t, o).phase == SetupPhase::Spawn ==> t.phase == SetupPhase::WriteConfig && (
        o matches SetupOutcome::Done(r) && r is Ok),
        step(t, o).phase == SetupPhase::RunIp ==> t.phase == SetupPhase::FindGateway || (t.phase
            == SetupPhase::ShowLink && (o matches SetupOutcome::Done(r) && r is Ok)),
        step(t, o).phase == SetupPhase::ServeDns ==> t.phase == SetupPhase::ShowLink || t.phase
            == SetupPhase::RunIp,
        t.phase == SetupPhase::WriteConfig || t.phase == SetupPhase::Spawn ==> (o matches SetupOutcome::Done(
            r,
        ) && (r is Err ==> step(t, o).error == Some(r->Err_0@))),
{
}

/// A set-up looks for the device thirty times, as long as `tun2socks` runs, and then gives
/// up; it gives up at once where `tun2socks` is gone.
pub proof fn device_is_looked_for_thirty_times(t: SetupView)
    requires
        sound(t),
    ensures
        t.phase == SetupPhase::Wait ==> (step(t, SetupOutcome::Waited).error is Some <==> t.attempts
            == 29),
        t.phase == SetupPhase::Wait && t.attempts < 29 ==> step(t, SetupOutcome::Waited).phase
            == SetupPhase::ShowLink && step(t, SetupOutcome::Waited).attempts == t.attempts + 1,
        t.phase == SetupPhase::CheckChild ==> step(t, SetupOutcome::Running(false)).error is Some,
        t.phase == SetupPhase::CheckChild ==> step(t, SetupOutcome::Running(true)).phase
            == SetupPhase::Wait && step(t, SetupOutcome::Running(true)).error is None,
{
}

/// What a profile's tunnel takes: IPv6 routes where it carries IPv6, a direct route for UDP
/// where UDP goes direct, and the DNS forwarder where DNS is proxied. It begins with nothing
/// done.
pub proof fn planned_setup_is_for_the_profile(
    profile: ProxyProfile,
    iface: Seq<char>,
    tun: Seq<char>,
)
    ensures
        ({
            let t = planned(profile, iface, tun);
            &&& sound(t)
            &&& t.phase == SetupPhase::WriteConfig
            &&& t.attempts == 0
            &&& t.error is None
            &&& t.iface == iface
            &&& t.direct <==> profile.udp is Direct
            &&& t.dns <==> profile.dns is Proxied
            &&& t.commands == (if profile.routing.ipv6 {
                tunnel::v4_commands(tun) + tunnel::v6_commands()
            } else {
                tunnel::v4_commands(tun)
            })
        }),
{
    let t = planned(profile, iface, tun);
    assert(tunnel::v4_commands(tun) + Seq::<Seq<Seq<char>>>::empty() =~= tunnel::v4_commands(tun));
}

/// Once the commands have run, the direct route is set up with the gateway that was found,
/// where UDP goes direct; and then DNS is served, where it is proxied.
pub proof fn direct_route_uses_the_gateway(t: SetupView, g: Option<String>)
    requires
        t.phase == SetupPhase::FindGateway,
    ensures
        ({
            let next = step(t, SetupOutcome::Gateway(g));
            &&& next.phase == SetupPhase::RunIp
            &&& next.commands == tunnel::direct_commands(t.iface, models::opt_text(g))
            &&& !next.direct
            &&& next.dns == t.dns
        }),
{
}

} // verus!
