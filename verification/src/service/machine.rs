//! The proxy state machine.
//!
//! A poll, a manual start and a manual stop each begin a [`Transition`]. While it is
//! not finished, its phase says what the daemon has to do next; what came of it is
//! handed back with [`Transition::resume`], which updates the state and moves on.

use crate::addr::ProxyAddr;
use crate::models;
use crate::models::{ActiveWifi, ProxyProfile, ProxyState};
use crate::service::route;
use crate::service::route::{RouteContext, RouteView};
use crate::service::snapshot;
use crate::service::snapshot::DaemonSnapshot;
use crate::text;
use vstd::prelude::*;

verus! {

/// How many consecutive polls a failed proxy waits before it is started again, so that
/// a broken upstream cannot cause a hot restart loop.
pub const FAILED_RETRY_TICKS: u32 = 6;

// ---------------------------------------------------------------------------
// State
// ---------------------------------------------------------------------------

/// The mutable half of the daemon.
#[derive(Debug)]
pub struct DaemonStateInner {
    pub proxy_state: ProxyState,
    pub proxy_active: bool,
    pub last_error: Option<String>,
    /// The connection that the proxy was started for, so that a switch of Wi-Fi is
    /// noticed.
    pub active_uuid: Option<String>,
    /// Consecutive polls spent in `Failed`.
    pub failed_ticks: u32,
    /// The connection that the user stopped. It is not started again by itself until
    /// the user starts it or the Wi-Fi changes.
    pub user_stopped: Option<String>,
    /// The user started the running proxy, so it is not stopped for lack of
    /// auto-connect.
    pub manual: bool,
}

/// What a [`DaemonStateInner`] says.
#[verifier::ext_equal]
pub struct StateView {
    pub proxy_state: ProxyState,
    pub proxy_active: bool,
    pub last_error: Option<Seq<char>>,
    pub active_uuid: Option<Seq<char>>,
    pub failed_ticks: u32,
    pub user_stopped: Option<Seq<char>>,
    pub manual: bool,
}

impl View for DaemonStateInner {
    type V = StateView;

    open spec fn view(&self) -> StateView {
        StateView {
            proxy_state: self.proxy_state,
            proxy_active: self.proxy_active,
            last_error: models::opt_text(self.last_error),
            active_uuid: models::opt_text(self.active_uuid),
            failed_ticks: self.failed_ticks,
            user_stopped: models::opt_text(self.user_stopped),
            manual: self.manual,
        }
    }
}

/// The state of a daemon that has done nothing yet.
pub open spec fn initial_state() -> StateView {
    StateView {
        proxy_state: ProxyState::Disconnected,
        proxy_active: false,
        last_error: None,
        active_uuid: None,
        failed_ticks: 0,
        user_stopped: None,
        manual: false,
    }
}

/// The state after the engine and the rules were taken down.
pub open spec fn stopped_state(s: StateView) -> StateView {
    StateView {
        proxy_active: false,
        proxy_state: ProxyState::Disconnected,
        active_uuid: None,
        manual: false,
        failed_ticks: 0,
        last_error: None,
        ..s
    }
}

/// The state after a failure.
pub open spec fn failed_state(s: StateView, message: Seq<char>) -> StateView {
    StateView {
        proxy_state: ProxyState::Failed,
        proxy_active: false,
        last_error: Some(message),
        failed_ticks: 0,
        ..s
    }
}

/// The state while the proxy is being started.
pub open spec fn starting_state(s: StateView) -> StateView {
    StateView { proxy_state: ProxyState::Starting, last_error: None, ..s }
}

/// The state once the engine is up for `uuid` and not yet checked.
pub open spec fn started_state(s: StateView, uuid: Seq<char>) -> StateView {
    StateView {
        proxy_active: true,
        proxy_state: ProxyState::HealthCheck,
        active_uuid: Some(uuid),
        failed_ticks: 0,
        ..s
    }
}

impl DaemonStateInner {
    /// The state of a daemon that has done nothing yet.
    pub fn new() -> (r: Self)
        ensures
            r@ == initial_state(),
    {
        DaemonStateInner {
            proxy_state: ProxyState::Disconnected,
            proxy_active: false,
            last_error: None,
            active_uuid: None,
            failed_ticks: 0,
            user_stopped: None,
            manual: false,
        }
    }

    /// Record that the engine and the rules were taken down.
    pub fn record_stop(&mut self)
        ensures
            final(self)@ == stopped_state(old(self)@),
    {
        self.proxy_active = false;
        self.proxy_state = ProxyState::Disconnected;
        self.active_uuid = None;
        self.manual = false;
        self.failed_ticks = 0;
        self.last_error = None;
    }

    /// Record a failure. The polls spent in it are counted from here.
    pub fn record_failure(&mut self, message: String)
        ensures
            final(self)@ == failed_state(old(self)@, message@),
    {
        self.proxy_state = ProxyState::Failed;
        self.proxy_active = false;
        self.last_error = Some(message);
        self.failed_ticks = 0;
    }
}

// ---------------------------------------------------------------------------
// Transitions
// ---------------------------------------------------------------------------

/// What follows a stop.
#[derive(Debug, Clone, Copy, PartialEq, Eq, Structural)]
pub enum AfterStop {
    Finish,
    /// The proxy is started for the network that the daemon roamed to.
    Start,
}

/// What the daemon has to do next.
#[derive(Debug, Clone, Copy, PartialEq, Eq, Structural)]
pub enum Phase {
    /// Stop the engine; a failure is only logged.
    StopEngine(AfterStop),
    /// Remove the firewall rules; a failure is only logged.
    RemoveRules(AfterStop),
    /// Disarm the kill switch, so that a stop never leaves it behind; a failure is
    /// only logged.
    Disarm(AfterStop),
    /// Look up the enabled profile of the connection.
    FindProfile,
    /// Look up the addresses of the proxy's host.
    Resolve,
    /// Install the firewall rules.
    ApplyRules,
    /// Start the engine.
    StartEngine,
    /// Remove the rules again, because the engine did not start.
    UndoRules,
    /// Ask whether the engine that was just started is running.
    CheckStarted,
    /// Ask whether the engine of the active proxy is still running.
    CheckActive,
    /// Nothing.
    Finished,
}

/// What came of a phase.
pub enum Outcome {
    /// Of stopping, removing, disarming and applying.
    Done(Result<(), String>),
    Profile(Option<ProxyProfile>),
    Addresses(Result<Vec<ProxyAddr>, String>),
    /// The name of the TUN device, or why the engine did not start.
    Started(Result<String, String>),
    Running(bool),
}

/// Whether an outcome is one of the phase's.
pub open spec fn fits(phase: Phase, o: Outcome) -> bool {
    match phase {
        Phase::StopEngine(_)
        | Phase::RemoveRules(_)
        | Phase::Disarm(_)
        | Phase::ApplyRules
        | Phase::UndoRules => o is Done,
        Phase::FindProfile => o is Profile,
        Phase::Resolve => o is Addresses,
        Phase::StartEngine => o is Started,
        Phase::CheckStarted | Phase::CheckActive => o is Running,
        Phase::Finished => false,
    }
}

/// A change of the daemon's state that is under way.
pub struct Transition {
    phase: Phase,
    uuid: String,
    iface: String,
    profile: Option<ProxyProfile>,
    route: Option<RouteContext>,
    /// Whether a failed check of the active proxy keeps the rules.
    kill_switch: bool,
    error: Option<String>,
    /// Whether the engine was started and then found not to run.
    unhealthy: bool,
}

/// What a [`Transition`] says.
#[verifier::ext_equal]
pub struct TransitionView {
    pub phase: Phase,
    pub uuid: Seq<char>,
    pub iface: Seq<char>,
    pub profile: Option<ProxyProfile>,
    pub route: Option<RouteView>,
    pub kill_switch: bool,
    pub error: Option<Seq<char>>,
    pub unhealthy: bool,
}

impl View for Transition {
    type V = TransitionView;

    closed spec fn view(&self) -> TransitionView {
        TransitionView {
            phase: self.phase,
            uuid: self.uuid@,
            iface: self.iface@,
            profile: self.profile,
            route: match self.route {
                Some(r) => Some(r@),
                None => None,
            },
            kill_switch: self.kill_switch,
            error: models::opt_text(self.error),
            unhealthy: self.unhealthy,
        }
    }
}

/// A transition that begins with `phase`.
pub open spec fn begun(phase: Phase, uuid: Seq<char>, iface: Seq<char>, kill_switch: bool) -> TransitionView {
    TransitionView {
        phase,
        uuid,
        iface,
        profile: None,
        route: None,
        kill_switch,
        error: None,
        unhealthy: false,
    }
}

impl TransitionView {
    /// The same transition in another phase.
    pub open spec fn at(self, phase: Phase) -> TransitionView {
        TransitionView { phase, ..self }
    }

    /// The same transition, ended by an error.
    pub open spec fn refused(self, why: Seq<char>) -> TransitionView {
        TransitionView { phase: Phase::Finished, error: Some(why), ..self }
    }
}

/// What is recorded when the engine is found not to be running.
pub open spec fn health_message() -> Seq<char> {
    "health check failed: proxy engine is not running"@
}

/// What becomes of a transition and the state, given what came of the phase; nothing,
/// where the outcome is not one of the phase's.
pub open spec fn step(t: TransitionView, s: StateView, o: Outcome) -> (TransitionView, StateView) {
    match (t.phase, o) {
        (Phase::StopEngine(after), Outcome::Done(_)) => (t.at(Phase::RemoveRules(after)), s),
        (Phase::RemoveRules(after), Outcome::Done(_)) => (t.at(Phase::Disarm(after)), s),
        (Phase::Disarm(AfterStop::Finish), Outcome::Done(_)) => (
            t.at(Phase::Finished),
            stopped_state(s),
        ),
        (Phase::Disarm(AfterStop::Start), Outcome::Done(_)) => (
            t.at(Phase::FindProfile),
            stopped_state(s),
        ),
        (Phase::FindProfile, Outcome::Profile(None)) => (
            t.refused("no enabled proxy profile for connection "@ + t.uuid),
            s,
        ),
        (Phase::FindProfile, Outcome::Profile(Some(p))) => (
            TransitionView { phase: Phase::Resolve, profile: Some(p), ..t },
            starting_state(s),
        ),
        (Phase::Resolve, Outcome::Addresses(found)) => match route::resolved(
            t.profile->0.proxy.host@,
            t.iface,
            found,
        ) {
            Ok(r) => (TransitionView { phase: Phase::ApplyRules, route: Some(r), ..t }, s),
            Err(why) => (t.refused(why), failed_state(s, why)),
        },
        (Phase::ApplyRules, Outcome::Done(Ok(_))) => (t.at(Phase::StartEngine), s),
        (Phase::ApplyRules, Outcome::Done(Err(e))) => (
            t.refused(e@),
            failed_state(s, "firewall setup failed: "@ + e@),
        ),
        (Phase::StartEngine, Outcome::Started(Ok(_))) => (
            t.at(Phase::CheckStarted),
            started_state(s, t.uuid),
        ),
        (Phase::StartEngine, Outcome::Started(Err(e))) => (
            TransitionView { phase: Phase::UndoRules, error: Some(e@), ..t },
            s,
        ),
        (Phase::UndoRules, Outcome::Done(_)) => (
            t.at(Phase::Finished),
            failed_state(s, "proxy engine failed to start: "@ + t.error->0),
        ),
        (Phase::CheckStarted, Outcome::Running(true)) => (
            t.at(Phase::Finished),
            StateView { proxy_state: ProxyState::Active, ..s },
        ),
        (Phase::CheckStarted, Outcome::Running(false)) => (
            TransitionView {
                phase: if t.profile->0.kill_switch.enabled {
                    Phase::Finished
                } else {
                    Phase::StopEngine(AfterStop::Finish)
                },
                unhealthy: true,
                ..t
            },
            failed_state(s, health_message()),
        ),
        (Phase::CheckActive, Outcome::Running(true)) => (t.at(Phase::Finished), s),
        (Phase::CheckActive, Outcome::Running(false)) => if t.kill_switch {
            (t.at(Phase::Finished), failed_state(s, health_message()))
        } else {
            (t.at(Phase::StopEngine(AfterStop::Finish)), s)
        },
        _ => (t, s),
    }
}

/// A transition holds what its phase needs: a profile once it was found, a route once
/// the host was resolved, and the engine's error while the rules are undone.
pub open spec fn ready(t: TransitionView) -> bool {
    &&& t.phase is Resolve || t.phase is ApplyRules || t.phase is StartEngine || t.phase is UndoRules
        || t.phase is CheckStarted ==> t.profile is Some
    &&& t.phase is ApplyRules || t.phase is StartEngine ==> t.route is Some
    &&& t.phase is UndoRules ==> t.error is Some
}

impl Transition {
    #[verifier::type_invariant]
    spec fn inv(self) -> bool {
        ready(self@)
    }

    fn begin(phase: Phase, uuid: String, iface: String, kill_switch: bool) -> (r: Transition)
        requires
            ready(begun(phase, uuid@, iface@, kill_switch)),
        ensures
            r@ == begun(phase, uuid@, iface@, kill_switch),
    {
        Transition {
            phase,
            uuid,
            iface,
            profile: None,
            route: None,
            kill_switch,
            error: None,
            unhealthy: false,
        }
    }

    /// What the daemon has to do next.
    pub fn phase(&self) -> (r: Phase)
        ensures
            r == self@.phase,
            ready(self@),
    {
        proof {
            use_type_invariant(&*self);
        }
        self.phase
    }

    /// The connection that the proxy is started for.
    pub fn uuid(&self) -> (r: &str)
        ensures
            r@ == self@.uuid,
    {
        self.uuid.as_str()
    }

    /// The profile that was found for the connection.
    pub fn profile(&self) -> (r: Option<&ProxyProfile>)
        ensures
            r == (match self@.profile {
                Some(p) => Some(&p),
                None => None,
            }),
    {
        self.profile.as_ref()
    }

    /// The route that the proxy is started over.
    pub fn route(&self) -> (r: Option<&RouteContext>)
        ensures
            r is Some <==> self@.route is Some,
            r matches Some(x) ==> Some(x@) == self@.route,
    {
        self.route.as_ref()
    }

    /// Why the proxy was not started.
    pub fn error(&self) -> (r: Option<&String>)
        ensures
            (match r {
                Some(e) => Some(e@),
                None => None,
            }) == self@.error,
    {
        self.error.as_ref()
    }

    /// Take note of what came of the phase. An outcome that is not one of the phase's
    /// changes nothing.
    pub fn resume(self, state: &mut DaemonStateInner, outcome: Outcome) -> (r: Transition)
        ensures
            (r@, final(state)@) == step(self@, old(state)@, outcome),
    {
        proof {
            use_type_invariant(&self);
        }
        match (self.phase, outcome) {
            (Phase::StopEngine(after), Outcome::Done(_)) => Transition {
                phase: Phase::RemoveRules(after),
                ..self
            },
            (Phase::RemoveRules(after), Outcome::Done(_)) => Transition {
                phase: Phase::Disarm(after),
                ..self
            },
            (Phase::Disarm(after), Outcome::Done(_)) => {
                state.record_stop();
                match after {
                    AfterStop::Finish => Transition { phase: Phase::Finished, ..self },
                    AfterStop::Start => Transition { phase: Phase::FindProfile, ..self },
                }
            },
            (Phase::FindProfile, Outcome::Profile(found)) => match found {
                None => {
                    let mut why = "no enabled proxy profile for connection ".to_owned();
                    why.append(self.uuid.as_str());
                    Transition { phase: Phase::Finished, error: Some(why), ..self }
                },
                Some(p) => {
                    state.proxy_state = ProxyState::Starting;
                    state.last_error = None;
                    Transition { phase: Phase::Resolve, profile: Some(p), ..self }
                },
            },
            (Phase::Resolve, Outcome::Addresses(found)) => {
                let route = match &self.profile {
                    Some(p) => RouteContext::resolve(p, self.iface.as_str(), found),
                    None => Err(String::new()),
                };
                match route {
                    Ok(r) => Transition { phase: Phase::ApplyRules, route: Some(r), ..self },
                    Err(why) => {
                        state.record_failure(why.clone());
                        Transition { phase: Phase::Finished, error: Some(why), ..self }
                    },
                }
            },
            (Phase::ApplyRules, Outcome::Done(applied)) => match applied {
                Ok(_) => Transition { phase: Phase::StartEngine, ..self },
                Err(e) => {
                    let mut why = "firewall setup failed: ".to_owned();
                    why.append(e.as_str());
                    state.record_failure(why);
                    Transition { phase: Phase::Finished, error: Some(e), ..self }
                },
            },
            (Phase::StartEngine, Outcome::Started(started)) => match started {
                Ok(_) => {
                    state.proxy_active = true;
                    state.proxy_state = ProxyState::HealthCheck;
                    state.active_uuid = Some(self.uuid.clone());
                    state.failed_ticks = 0;
                    Transition { phase: Phase::CheckStarted, ..self }
                },
                Err(e) => Transition { phase: Phase::UndoRules, error: Some(e), ..self },
            },
            (Phase::UndoRules, Outcome::Done(_)) => {
                let mut why = "proxy engine failed to start: ".to_owned();
                if let Some(e) = &self.error {
                    why.append(e.as_str());
                }
                state.record_failure(why);
                Transition { phase: Phase::Finished, ..self }
            },
            (Phase::CheckStarted, Outcome::Running(running)) => {
                if running {
                    state.proxy_state = ProxyState::Active;
                    Transition { phase: Phase::Finished, ..self }
                } else {
                    state.record_failure(
                        "health check failed: proxy engine is not running".to_owned(),
                    );
                    let keep = match &self.profile {
                        Some(p) => p.kill_switch.enabled,
                        None => false,
                    };
                    let phase = if keep {
                        Phase::Finished
                    } else {
                        Phase::StopEngine(AfterStop::Finish)
                    };
                    Transition { phase, unhealthy: true, ..self }
                }
            },
            (Phase::CheckActive, Outcome::Running(running)) => {
                if running {
                    Transition { phase: Phase::Finished, ..self }
                } else if self.kill_switch {
                    state.record_failure(
                        "health check failed: proxy engine is not running".to_owned(),
                    );
                    Transition { phase: Phase::Finished, ..self }
                } else {
                    Transition { phase: Phase::StopEngine(AfterStop::Finish), ..self }
                }
            },
            _ => self,
        }
    }
}

// ---------------------------------------------------------------------------
// Polling
// ---------------------------------------------------------------------------

/// Whether a profile may be started without being asked: it is enabled, and the user
/// opted into automatic activation.
pub open spec fn is_auto(profile: Option<ProxyProfile>) -> bool {
    profile matches Some(p) && p.enabled && p.auto_connect
}

/// Whether a poll may bring the proxy up by itself for `profile`. A manual start does
/// not ask this: it is the user asking.
pub fn should_auto_start(profile: Option<&ProxyProfile>) -> (r: bool)
    ensures
        r == (profile matches Some(p) && p.enabled && p.auto_connect),
{
    match profile {
        Some(p) => p.should_auto_activate(),
        None => false,
    }
}

/// Whether a poll wants the proxy up: the Wi-Fi carries the default route, its profile
/// is automatic, and the user has not stopped it on this connection.
pub open spec fn wants_start(s: StateView, wifi: ActiveWifi, profile: Option<ProxyProfile>) -> bool {
    wifi.has_default_route && is_auto(profile) && s.user_stopped != Some(wifi.uuid@)
}

/// Whether the user started the proxy on this connection, and its profile is still
/// enabled.
pub open spec fn keeps_manual(s: StateView, wifi: ActiveWifi, profile: Option<ProxyProfile>) -> bool {
    s.manual && profile is Some && s.active_uuid == Some(wifi.uuid@)
}

/// Whether the proxy was started for another connection than this one.
pub open spec fn roamed(s: StateView, wifi: ActiveWifi) -> bool {
    s.active_uuid matches Some(uuid) && uuid != wifi.uuid@
}

/// The state once a poll has seen `wifi`: a stop by the user sticks for that
/// connection only, and polls spent in `Failed` are counted.
pub open spec fn polled_state(s: StateView, wifi: ActiveWifi) -> StateView {
    StateView {
        user_stopped: if s.user_stopped == Some(wifi.uuid@) {
            s.user_stopped
        } else {
            None
        },
        failed_ticks: if s.proxy_state != ProxyState::Failed {
            0
        } else if s.failed_ticks == u32::MAX {
            u32::MAX
        } else {
            (s.failed_ticks + 1) as u32
        },
        ..s
    }
}

/// What a poll decides to do when `wifi` is up.
pub open spec fn poll_phase(s: StateView, wifi: ActiveWifi, profile: Option<ProxyProfile>) -> Phase {
    let wanted = wants_start(s, wifi, profile);
    let manual = keeps_manual(s, wifi, profile);
    if wanted && roamed(s, wifi) {
        // The old network's tunnel goes down before the new one is built.
        Phase::StopEngine(AfterStop::Start)
    } else if wanted && s.proxy_state == ProxyState::Disconnected {
        Phase::FindProfile
    } else if wanted && s.proxy_state == ProxyState::Failed {
        if polled_state(s, wifi).failed_ticks >= FAILED_RETRY_TICKS {
            Phase::FindProfile
        } else {
            Phase::Finished
        }
    } else if !wanted && !manual && s.proxy_state != ProxyState::Disconnected {
        Phase::StopEngine(AfterStop::Finish)
    } else if s.proxy_state == ProxyState::Active {
        Phase::CheckActive
    } else {
        Phase::Finished
    }
}

/// What a poll decides and notes, given the Wi-Fi that is up and its enabled profile.
pub open spec fn poll(
    s: StateView,
    wifi: Option<ActiveWifi>,
    profile: Option<ProxyProfile>,
) -> (TransitionView, StateView) {
    match wifi {
        None => {
            let forgotten = StateView { user_stopped: None, ..s };
            if s.proxy_active || s.proxy_state != ProxyState::Disconnected {
                (
                    begun(Phase::StopEngine(AfterStop::Finish), ""@, ""@, false),
                    StateView { proxy_state: ProxyState::Stopping, ..forgotten },
                )
            } else {
                (begun(Phase::Finished, ""@, ""@, false), forgotten)
            }
        },
        Some(w) => (
            begun(
                poll_phase(s, w, profile),
                w.uuid@,
                w.interface@,
                profile matches Some(p) && p.kill_switch.enabled,
            ),
            polled_state(s, w),
        ),
    }
}

/// Whether an optional text is `t`.
fn is_text(o: &Option<String>, t: &str) -> (r: bool)
    ensures
        r == (models::opt_text(*o) == Some(t@)),
{
    match o {
        Some(s) => text::same_text(s.as_str(), t),
        None => false,
    }
}

/// Begin a poll: `wifi` is the connection that is up, `profile` its enabled profile.
pub fn begin_poll(
    state: &mut DaemonStateInner,
    wifi: Option<&ActiveWifi>,
    profile: Option<&ProxyProfile>,
) -> (r: Transition)
    ensures
        (r@, final(state)@) == poll(
            old(state)@,
            match wifi {
                Some(w) => Some(*w),
                None => None,
            },
            match profile {
                Some(p) => Some(*p),
                None => None,
            },
        ),
{
    let w = match wifi {
        Some(w) => w,
        None => {
            state.user_stopped = None;
            if state.proxy_active || state.proxy_state != ProxyState::Disconnected {
                state.proxy_state = ProxyState::Stopping;
                return Transition::begin(
                    Phase::StopEngine(AfterStop::Finish),
                    "".to_owned(),
                    "".to_owned(),
                    false,
                );
            }
            return Transition::begin(Phase::Finished, "".to_owned(), "".to_owned(), false);
        },
    };
    let uuid = w.uuid.as_str();
    let manual = state.manual && profile.is_some() && is_text(&state.active_uuid, uuid);
    let switched = match &state.active_uuid {
        Some(current) => !text::same_text(current.as_str(), uuid),
        None => false,
    };
    let kill_switch = match profile {
        Some(p) => p.kill_switch.enabled,
        None => false,
    };
    if !is_text(&state.user_stopped, uuid) {
        state.user_stopped = None;
    }
    let wanted = w.has_default_route && should_auto_start(profile) && state.user_stopped.is_none();
    let now = state.proxy_state;
    if now == ProxyState::Failed {
        state.failed_ticks = state.failed_ticks.saturating_add(1);
    } else {
        state.failed_ticks = 0;
    }
    let phase = if wanted && switched {
        Phase::StopEngine(AfterStop::Start)
    } else if wanted && now == ProxyState::Disconnected {
        Phase::FindProfile
    } else if wanted && now == ProxyState::Failed {
        if state.failed_ticks >= FAILED_RETRY_TICKS {
            Phase::FindProfile
        } else {
            Phase::Finished
        }
    } else if !wanted && !manual && now != ProxyState::Disconnected {
        Phase::StopEngine(AfterStop::Finish)
    } else if now == ProxyState::Active {
        Phase::CheckActive
    } else {
        Phase::Finished
    };
    Transition::begin(phase, w.uuid.clone(), w.interface.clone(), kill_switch)
}

/// The snapshot that a finished poll leaves.
pub open spec fn is_poll_snapshot(
    r: DaemonSnapshot,
    s: StateView,
    wifi_enabled: bool,
    wifi: Option<ActiveWifi>,
    profile: Option<ProxyProfile>,
) -> bool {
    if wifi is None {
        r == snapshot::idle_snapshot(wifi_enabled)
    } else {
        &&& r.wifi_enabled == wifi_enabled
        &&& r.active_wifi == wifi
        &&& r.matched_profile == profile
        &&& r.proxy_state == s.proxy_state
        &&& r.proxy_active == s.proxy_active
        &&& models::opt_text(r.last_error) == s.last_error
    }
}

/// The snapshot that a finished poll leaves.
pub fn poll_snapshot(
    state: &DaemonStateInner,
    wifi_enabled: bool,
    wifi: Option<ActiveWifi>,
    profile: Option<ProxyProfile>,
) -> (r: DaemonSnapshot)
    ensures
        is_poll_snapshot(r, state@, wifi_enabled, wifi, profile),
{
    if wifi.is_none() {
        return DaemonSnapshot {
            wifi_enabled,
            active_wifi: None,
            matched_profile: None,
            proxy_state: ProxyState::Disconnected,
            proxy_active: false,
            last_error: None,
        };
    }
    DaemonSnapshot {
        wifi_enabled,
        active_wifi: wifi,
        matched_profile: profile,
        proxy_state: state.proxy_state,
        proxy_active: state.proxy_active,
        last_error: models::clone_text(&state.last_error),
    }
}

// ---------------------------------------------------------------------------
// Manual control
// ---------------------------------------------------------------------------

/// The connection that a manual start is for, given the one that was asked for (none,
/// or an empty text, asks for the active one): its uuid and interface, or the refusal.
pub open spec fn start_target(wifi: Option<ActiveWifi>, uuid: Option<Seq<char>>) -> Result<
    (Seq<char>, Seq<char>),
    Seq<char>,
> {
    match wifi {
        None => Err("no active Wi-Fi connection"@),
        Some(w) => if uuid is None || uuid->0.len() == 0 || uuid->0 == w.uuid@ {
            Ok((w.uuid@, w.interface@))
        } else {
            Err(
                "connection "@ + uuid->0 + " is not the active Wi-Fi connection ("@ + w.uuid@
                    + ")"@,
            )
        },
    }
}

/// What a manual start begins with, or why it is refused.
pub open spec fn manual_start(s: StateView, wifi: Option<ActiveWifi>, uuid: Option<Seq<char>>) -> Result<
    (TransitionView, StateView),
    Seq<char>,
> {
    match start_target(wifi, uuid) {
        Ok((target, iface)) => Ok(
            (
                begun(Phase::FindProfile, target, iface, false),
                StateView { user_stopped: None, ..s },
            ),
        ),
        Err(why) => Err(why),
    }
}

/// Begin a manual start. Only the active connection is started: routing state for a
/// network that the host is not on would be wrong.
pub fn begin_manual_start(
    state: &mut DaemonStateInner,
    snapshot: &DaemonSnapshot,
    uuid: Option<String>,
) -> (r: Result<Transition, String>)
    ensures
        match manual_start(old(state)@, snapshot.active_wifi, models::opt_text(uuid)) {
            Ok((t, s)) => (r matches Ok(start) && start@ == t) && final(state)@ == s,
            Err(why) => (r matches Err(e) && e@ == why) && final(state)@ == old(state)@,
        },
        match start_target(snapshot.active_wifi, models::opt_text(uuid)) {
            Ok((uuid, iface)) => r matches Ok(t) && t@ == begun(
                Phase::FindProfile,
                uuid,
                iface,
                false,
            ) && final(state)@ == (StateView { user_stopped: None, ..old(state)@ }),
            Err(why) => r matches Err(e) && e@ == why && final(state)@ == old(state)@,
        },
{
    let wifi = match &snapshot.active_wifi {
        Some(w) => w,
        None => {
            return Err("no active Wi-Fi connection".to_owned());
        },
    };
    if let Some(u) = &uuid {
        if !u.as_str().is_empty() && !text::same_text(u.as_str(), wifi.uuid.as_str()) {
            let mut why = "connection ".to_owned();
            why.append(u.as_str());
            why.append(" is not the active Wi-Fi connection (");
            why.append(wifi.uuid.as_str());
            why.append(")");
            return Err(why);
        }
    }
    state.user_stopped = None;
    Ok(Transition::begin(Phase::FindProfile, wifi.uuid.clone(), wifi.interface.clone(), false))
}

/// What a manual start is answered: the error that it ended with, or, where it left
/// the proxy failed, what failed. A proxy whose engine was found not to run is never
/// reported as started, also where everything was taken down again.
pub open spec fn start_answer(t: TransitionView, s: StateView) -> Result<(), Seq<char>> {
    if t.error is Some {
        Err(t.error->0)
    } else if s.proxy_state == ProxyState::Failed {
        Err(
            if s.last_error is Some {
                s.last_error->0
            } else {
                "proxy failed health check"@
            },
        )
    } else if t.unhealthy {
        Err(health_message())
    } else {
        Ok(())
    }
}

/// The state once a manual start has ended: the user started the proxy, unless the start
/// was refused or left nothing behind.
pub open spec fn noted_start(t: TransitionView, s: StateView) -> StateView {
    StateView { manual: s.manual || (t.error is None && s.active_uuid is Some), ..s }
}

/// A result whose failure is taken by its view.
pub open spec fn answer_view(r: Result<(), String>) -> Result<(), Seq<char>> {
    match r {
        Ok(_) => Ok(()),
        Err(e) => Err(e@),
    }
}

/// The snapshot with the state's own part renewed.
pub open spec fn is_renewed(r: DaemonSnapshot, snap: DaemonSnapshot, s: StateView) -> bool {
    &&& r.wifi_enabled == snap.wifi_enabled
    &&& r.active_wifi == snap.active_wifi
    &&& r.matched_profile == snap.matched_profile
    &&& r.proxy_state == s.proxy_state
    &&& r.proxy_active == s.proxy_active
    &&& models::opt_text(r.last_error) == s.last_error
}

/// End a manual start: note that the user started the proxy, renew the snapshot, and
/// answer the caller.
pub fn finish_manual_start(
    state: &mut DaemonStateInner,
    snapshot: &DaemonSnapshot,
    started: &Transition,
) -> (r: (DaemonSnapshot, Result<(), String>))
    ensures
        final(state)@ == noted_start(started@, old(state)@),
        is_renewed(r.0, *snapshot, old(state)@),
        answer_view(r.1) == start_answer(started@, old(state)@),
{
    if started.error.is_none() && state.active_uuid.is_some() {
        state.manual = true;
    }
    let renewed = DaemonSnapshot {
        wifi_enabled: snapshot.wifi_enabled,
        active_wifi: models::clone_wifi(&snapshot.active_wifi),
        matched_profile: models::clone_profile(&snapshot.matched_profile),
        proxy_state: state.proxy_state,
        proxy_active: state.proxy_active,
        last_error: models::clone_text(&state.last_error),
    };
    let answer = match &started.error {
        Some(e) => Err(e.clone()),
        None => if state.proxy_state == ProxyState::Failed {
            match &state.last_error {
                Some(e) => Err(e.clone()),
                None => Err("proxy failed health check".to_owned()),
            }
        } else if started.unhealthy {
            Err("health check failed: proxy engine is not running".to_owned())
        } else {
            Ok(())
        },
    };
    (renewed, answer)
}

/// Begin to stop the proxy, on the user's request or at shutdown. With the transition
/// comes the connection that the proxy runs for, if it runs.
pub fn begin_stop(state: &DaemonStateInner) -> (r: (Transition, Option<String>))
    ensures
        r.0@ == begun(Phase::StopEngine(AfterStop::Finish), ""@, ""@, false),
        r.1 == state.active_uuid,
{
    (
        Transition::begin(
            Phase::StopEngine(AfterStop::Finish),
            "".to_owned(),
            "".to_owned(),
            false,
        ),
        models::clone_text(&state.active_uuid),
    )
}

/// The state once the user has stopped the proxy: the connection that was stopped, or else
/// the active one, is remembered.
pub open spec fn stopped_by_user(
    s: StateView,
    stopped: Option<Seq<char>>,
    wifi: Option<ActiveWifi>,
) -> StateView {
    StateView {
        user_stopped: if stopped is Some {
            stopped
        } else if wifi is Some {
            Some(wifi->0.uuid@)
        } else {
            None
        },
        ..s
    }
}

/// The snapshot once the proxy was stopped.
pub open spec fn cleared_snapshot(snap: DaemonSnapshot) -> DaemonSnapshot {
    DaemonSnapshot {
        proxy_active: false,
        proxy_state: ProxyState::Disconnected,
        last_error: None,
        ..snap
    }
}

/// End a manual stop: remember the connection that was stopped (`stopped`, or else the
/// active one), so that auto-connect does not undo it, and clear the snapshot.
pub fn finish_manual_stop(
    state: &mut DaemonStateInner,
    stopped: Option<String>,
    snapshot: &mut DaemonSnapshot,
)
    ensures
        final(state)@ == stopped_by_user(
            old(state)@,
            models::opt_text(stopped),
            old(snapshot).active_wifi,
        ),
        *final(snapshot) == cleared_snapshot(*old(snapshot)),
        final(state)@ == (StateView {
            user_stopped: match (stopped, old(snapshot).active_wifi) {
                (Some(uuid), _) => Some(uuid@),
                (None, Some(w)) => Some(w.uuid@),
                (None, None) => None,
            },
            ..old(state)@
        }),
        *final(snapshot) == (DaemonSnapshot {
            proxy_active: false,
            proxy_state: ProxyState::Disconnected,
            last_error: None,
            ..*old(snapshot)
        }),
{
    state.user_stopped = match stopped {
        Some(uuid) => Some(uuid),
        None => match &snapshot.active_wifi {
            Some(w) => Some(w.uuid.clone()),
            None => None,
        },
    };
    snapshot.proxy_active = false;
    snapshot.proxy_state = ProxyState::Disconnected;
    snapshot.last_error = None;
}

/// Whether `r` is what a proxy test runs on.
pub open spec fn is_tested(r: Result<(ProxyProfile, String), String>, snap: DaemonSnapshot) -> bool {
    match r {
        Ok((p, iface)) => snap.matched_profile == Some(p) && (snap.active_wifi matches Some(w)
            && w.interface == iface),
        Err(_) => snap.matched_profile is None || snap.active_wifi is None,
    }
}

/// What a proxy test runs on: the matched profile and the active interface.
pub fn test_target(snapshot: &DaemonSnapshot) -> (r: Result<(ProxyProfile, String), String>)
    ensures
        is_tested(r, *snapshot),
        match (snapshot.matched_profile, snapshot.active_wifi) {
            (None, _) => r matches Err(e) && e@ == "no proxy profile is currently matched"@,
            (Some(_), None) => r matches Err(e) && e@ == "no active Wi-Fi connection"@,
            (Some(p), Some(w)) => r == Ok::<(ProxyProfile, String), String>((p, w.interface)),
        },
{
    match (&snapshot.matched_profile, &snapshot.active_wifi) {
        (None, _) => Err("no proxy profile is currently matched".to_owned()),
        (Some(_), None) => Err("no active Wi-Fi connection".to_owned()),
        (Some(p), Some(w)) => Ok((p.clone(), w.interface.clone())),
    }
}

} // verus!
