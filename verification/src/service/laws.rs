//! What holds of the proxy state machine as a whole.

use crate::addr::ProxyAddr;
use crate::models::{ActiveWifi, ProxyProfile, ProxyState, ProxyStatus};
use crate::service::machine;
use crate::service::machine::{
    AfterStop, Outcome, Phase, StateView, TransitionView, FAILED_RETRY_TICKS,
};
use crate::service::route;
use crate::service::snapshot;
use crate::service::snapshot::DaemonSnapshot;
use vstd::prelude::*;

verus! {

// ---------------------------------------------------------------------------
// Running a transition to its end
// ---------------------------------------------------------------------------

/// What the outside answers to each phase of a transition.
pub struct Answers {
    pub stop: Result<(), String>,
    pub remove: Result<(), String>,
    pub disarm: Result<(), String>,
    pub undo: Result<(), String>,
    pub profile: Option<ProxyProfile>,
    pub addresses: Result<Vec<ProxyAddr>, String>,
    pub apply: Result<(), String>,
    pub start: Result<String, String>,
    pub running: bool,
}

/// The answer to a phase.
pub open spec fn answer(a: Answers, phase: Phase) -> Outcome {
    match phase {
        Phase::StopEngine(_) => Outcome::Done(a.stop),
        Phase::RemoveRules(_) => Outcome::Done(a.remove),
        Phase::Disarm(_) => Outcome::Done(a.disarm),
        Phase::FindProfile => Outcome::Profile(a.profile),
        Phase::Resolve => Outcome::Addresses(a.addresses),
        Phase::ApplyRules => Outcome::Done(a.apply),
        Phase::StartEngine => Outcome::Started(a.start),
        Phase::UndoRules => Outcome::Done(a.undo),
        Phase::CheckStarted | Phase::CheckActive | Phase::Finished => Outcome::Running(a.running),
    }
}

/// How many phases a transition can still take, at most.
pub open spec fn phases_left(phase: Phase) -> nat {
    match phase {
        Phase::Finished => 0,
        Phase::Disarm(AfterStop::Finish) => 1,
        Phase::RemoveRules(AfterStop::Finish) => 2,
        Phase::StopEngine(AfterStop::Finish) => 3,
        Phase::UndoRules => 1,
        Phase::CheckActive | Phase::CheckStarted => 4,
        Phase::StartEngine => 5,
        Phase::ApplyRules => 6,
        Phase::Resolve => 7,
        Phase::FindProfile => 8,
        Phase::Disarm(AfterStop::Start) => 9,
        Phase::RemoveRules(AfterStop::Start) => 10,
        Phase::StopEngine(AfterStop::Start) => 11,
    }
}

/// Every transition ends: each phase leaves fewer to come.
pub proof fn transitions_end(t: TransitionView, s: StateView, o: Outcome)
    requires
        machine::fits(t.phase, o),
    ensures
        phases_left(machine::step(t, s, o).0.phase) < phases_left(t.phase),
{
}

/// An outcome that is not one of the phase's changes nothing.
pub proof fn stray_outcome_changes_nothing(t: TransitionView, s: StateView, o: Outcome)
    requires
        !machine::fits(t.phase, o),
    ensures
        machine::step(t, s, o) == (t, s),
{
}

/// The end of a transition, the state it leaves, and the phases it went through.
pub open spec fn run(t: TransitionView, s: StateView, a: Answers) -> (
    TransitionView,
    StateView,
    Seq<Phase>,
)
    decreases phases_left(t.phase),
{
    if t.phase == Phase::Finished {
        (t, s, Seq::empty())
    } else {
        let (next, after) = machine::step(t, s, answer(a, t.phase));
        let (end, left, phases) = run(next, after, a);
        (end, left, seq![t.phase] + phases)
    }
}

// ---------------------------------------------------------------------------
// Starting
// ---------------------------------------------------------------------------

/// A start goes through one phase, then through what is left.
proof fn run_once(t: TransitionView, s: StateView, a: Answers)
    requires
        t.phase != Phase::Finished,
    ensures
        ({
            let (next, after) = machine::step(t, s, answer(a, t.phase));
            run(t, s, a) == (
                run(next, after, a).0,
                run(next, after, a).1,
                seq![t.phase] + run(next, after, a).2,
            )
        }),
{
}

/// The transition and the state when the rules are to be applied.
spec fn at_rules(t: TransitionView, s: StateView, a: Answers) -> (TransitionView, StateView) {
    (
        TransitionView {
            phase: Phase::ApplyRules,
            profile: a.profile,
            route: Some(route::resolved(a.profile->0.proxy.host@, t.iface, a.addresses)->Ok_0),
            ..t
        },
        machine::starting_state(s),
    )
}

proof fn run_to_rules(t: TransitionView, s: StateView, a: Answers)
    requires
        t.phase == Phase::FindProfile,
        a.profile is Some,
        route::resolved(a.profile->0.proxy.host@, t.iface, a.addresses) is Ok,
    ensures
        ({
            let (u, v) = at_rules(t, s, a);
            run(t, s, a) == (
                run(u, v, a).0,
                run(u, v, a).1,
                seq![Phase::FindProfile, Phase::Resolve] + run(u, v, a).2,
            )
        }),
{
    run_once(t, s, a);
    let (t1, s1) = machine::step(t, s, answer(a, t.phase));
    run_once(t1, s1, a);
    let (u, v) = at_rules(t, s, a);
    assert(machine::step(t1, s1, answer(a, t1.phase)) == (u, v));
    assert(seq![Phase::FindProfile] + (seq![Phase::Resolve] + run(u, v, a).2) =~= seq![
        Phase::FindProfile,
        Phase::Resolve,
    ] + run(u, v, a).2);
}

/// A start that nothing hinders: the rules are in place before the engine starts, the
/// engine is checked last, and the proxy is then active for the connection.
pub proof fn start_succeeds(t: TransitionView, s: StateView, a: Answers)
    requires
        t.phase == Phase::FindProfile,
        t.error is None,
        a.profile is Some,
        route::resolved(a.profile->0.proxy.host@, t.iface, a.addresses) is Ok,
        a.apply is Ok,
        a.start is Ok,
        a.running,
    ensures
        run(t, s, a).0.error is None,
        run(t, s, a).0.unhealthy == t.unhealthy,
        run(t, s, a).1 == (StateView {
            proxy_state: ProxyState::Active,
            proxy_active: true,
            last_error: None,
            active_uuid: Some(t.uuid),
            failed_ticks: 0,
            ..s
        }),
        run(t, s, a).2 == seq![
            Phase::FindProfile,
            Phase::Resolve,
            Phase::ApplyRules,
            Phase::StartEngine,
            Phase::CheckStarted,
        ],
{
    run_to_rules(t, s, a);
    let (u, v) = at_rules(t, s, a);
    run_once(u, v, a);
    let (t1, s1) = machine::step(u, v, answer(a, u.phase));
    run_once(t1, s1, a);
    let (t2, s2) = machine::step(t1, s1, answer(a, t1.phase));
    run_once(t2, s2, a);
    let (t3, s3) = machine::step(t2, s2, answer(a, t2.phase));
    assert(run(t3, s3, a).2 =~= Seq::<Phase>::empty());
    assert(run(t, s, a).2 =~= seq![
        Phase::FindProfile,
        Phase::Resolve,
        Phase::ApplyRules,
        Phase::StartEngine,
        Phase::CheckStarted,
    ]);
}

/// Where the engine does not start, the rules are removed again, the proxy is failed
/// with the reason, and the start is answered with the engine's error.
pub proof fn failed_engine_removes_the_rules(t: TransitionView, s: StateView, a: Answers)
    requires
        t.phase == Phase::FindProfile,
        a.profile is Some,
        route::resolved(a.profile->0.proxy.host@, t.iface, a.addresses) is Ok,
        a.apply is Ok,
        a.start is Err,
    ensures
        run(t, s, a).0.error == Some(a.start->Err_0@),
        run(t, s, a).1 == machine::failed_state(
            s,
            "proxy engine failed to start: "@ + a.start->Err_0@,
        ),
        run(t, s, a).2 == seq![
            Phase::FindProfile,
            Phase::Resolve,
            Phase::ApplyRules,
            Phase::StartEngine,
            Phase::UndoRules,
        ],
{
    run_to_rules(t, s, a);
    let (u, v) = at_rules(t, s, a);
    run_once(u, v, a);
    let (t1, s1) = machine::step(u, v, answer(a, u.phase));
    run_once(t1, s1, a);
    let (t2, s2) = machine::step(t1, s1, answer(a, t1.phase));
    run_once(t2, s2, a);
    let (t3, s3) = machine::step(t2, s2, answer(a, t2.phase));
    assert(run(t3, s3, a).2 =~= Seq::<Phase>::empty());
    assert(run(t, s, a).2 =~= seq![
        Phase::FindProfile,
        Phase::Resolve,
        Phase::ApplyRules,
        Phase::StartEngine,
        Phase::UndoRules,
    ]);
}

/// Where the rules cannot be installed, the engine is not started.
pub proof fn failed_rules_start_nothing(t: TransitionView, s: StateView, a: Answers)
    requires
        t.phase == Phase::FindProfile,
        a.profile is Some,
        route::resolved(a.profile->0.proxy.host@, t.iface, a.addresses) is Ok,
        a.apply is Err,
    ensures
        run(t, s, a).0.error == Some(a.apply->Err_0@),
        run(t, s, a).1 == machine::failed_state(s, "firewall setup failed: "@ + a.apply->Err_0@),
        run(t, s, a).2 == seq![Phase::FindProfile, Phase::Resolve, Phase::ApplyRules],
{
    run_to_rules(t, s, a);
    let (u, v) = at_rules(t, s, a);
    run_once(u, v, a);
    let (t1, s1) = machine::step(u, v, answer(a, u.phase));
    assert(run(t1, s1, a).2 =~= Seq::<Phase>::empty());
    assert(run(t, s, a).2 =~= seq![Phase::FindProfile, Phase::Resolve, Phase::ApplyRules]);
}

/// Fail closed: where the engine started but is not running and the profile has the
/// kill switch on, the rules stay, nothing is stopped, and the proxy is failed.
pub proof fn unhealthy_start_keeps_the_rules(t: TransitionView, s: StateView, a: Answers)
    requires
        t.phase == Phase::FindProfile,
        a.profile is Some,
        a.profile->0.kill_switch.enabled,
        route::resolved(a.profile->0.proxy.host@, t.iface, a.addresses) is Ok,
        a.apply is Ok,
        a.start is Ok,
        !a.running,
    ensures
        run(t, s, a).0.error == t.error,
        run(t, s, a).0.unhealthy,
        run(t, s, a).1 == machine::failed_state(
            StateView { active_uuid: Some(t.uuid), ..s },
            machine::health_message(),
        ),
        run(t, s, a).2 == seq![
            Phase::FindProfile,
            Phase::Resolve,
            Phase::ApplyRules,
            Phase::StartEngine,
            Phase::CheckStarted,
        ],
{
    run_to_rules(t, s, a);
    let (u, v) = at_rules(t, s, a);
    run_once(u, v, a);
    let (t1, s1) = machine::step(u, v, answer(a, u.phase));
    run_once(t1, s1, a);
    let (t2, s2) = machine::step(t1, s1, answer(a, t1.phase));
    run_once(t2, s2, a);
    let (t3, s3) = machine::step(t2, s2, answer(a, t2.phase));
    assert(run(t3, s3, a).2 =~= Seq::<Phase>::empty());
    assert(run(t, s, a).2 =~= seq![
        Phase::FindProfile,
        Phase::Resolve,
        Phase::ApplyRules,
        Phase::StartEngine,
        Phase::CheckStarted,
    ]);
}

/// Where the engine started but is not running and the kill switch is off, everything
/// is taken down again.
pub proof fn unhealthy_start_without_kill_switch_stops(t: TransitionView, s: StateView, a: Answers)
    requires
        t.phase == Phase::FindProfile,
        t.error is None,
        a.profile is Some,
        !a.profile->0.kill_switch.enabled,
        route::resolved(a.profile->0.proxy.host@, t.iface, a.addresses) is Ok,
        a.apply is Ok,
        a.start is Ok,
        !a.running,
    ensures
        run(t, s, a).0.error is None,
        run(t, s, a).0.unhealthy,
        run(t, s, a).1 == machine::stopped_state(s),
        run(t, s, a).2 == seq![
            Phase::FindProfile,
            Phase::Resolve,
            Phase::ApplyRules,
            Phase::StartEngine,
            Phase::CheckStarted,
            Phase::StopEngine(AfterStop::Finish),
            Phase::RemoveRules(AfterStop::Finish),
            Phase::Disarm(AfterStop::Finish),
        ],
{
    run_to_rules(t, s, a);
    let (u, v) = at_rules(t, s, a);
    run_once(u, v, a);
    let (t1, s1) = machine::step(u, v, answer(a, u.phase));
    run_once(t1, s1, a);
    let (t2, s2) = machine::step(t1, s1, answer(a, t1.phase));
    run_once(t2, s2, a);
    let (t3, s3) = machine::step(t2, s2, answer(a, t2.phase));
    stop_takes_everything_down(t3, s3, a);
    assert(run(t, s, a).2 =~= seq![
        Phase::FindProfile,
        Phase::Resolve,
        Phase::ApplyRules,
        Phase::StartEngine,
        Phase::CheckStarted,
        Phase::StopEngine(AfterStop::Finish),
        Phase::RemoveRules(AfterStop::Finish),
        Phase::Disarm(AfterStop::Finish),
    ]);
}

// ---------------------------------------------------------------------------
// Stopping
// ---------------------------------------------------------------------------

/// A stop takes the engine and the rules down and disarms the kill switch, whatever
/// comes of each, and leaves the proxy disconnected and without an error.
pub proof fn stop_takes_everything_down(t: TransitionView, s: StateView, a: Answers)
    requires
        t.phase == Phase::StopEngine(AfterStop::Finish),
    ensures
        run(t, s, a).0 == t.at(Phase::Finished),
        run(t, s, a).1 == machine::stopped_state(s),
        run(t, s, a).2 == seq![
            Phase::StopEngine(AfterStop::Finish),
            Phase::RemoveRules(AfterStop::Finish),
            Phase::Disarm(AfterStop::Finish),
        ],
{
    run_once(t, s, a);
    let (t1, s1) = machine::step(t, s, answer(a, t.phase));
    run_once(t1, s1, a);
    let (t2, s2) = machine::step(t1, s1, answer(a, t1.phase));
    run_once(t2, s2, a);
    let (t3, s3) = machine::step(t2, s2, answer(a, t2.phase));
    assert(run(t3, s3, a).2 =~= Seq::<Phase>::empty());
    assert(run(t, s, a).2 =~= seq![
        Phase::StopEngine(AfterStop::Finish),
        Phase::RemoveRules(AfterStop::Finish),
        Phase::Disarm(AfterStop::Finish),
    ]);
}

/// Stopping twice is stopping once.
pub proof fn stop_is_idempotent(s: StateView)
    ensures
        machine::stopped_state(machine::stopped_state(s)) == machine::stopped_state(s),
{
}

/// Where the daemon roamed, the old network's tunnel is down and its rules are gone
/// before anything is done for the new one.
pub proof fn roaming_stops_first(t: TransitionView, s: StateView, a: Answers)
    requires
        t.phase == Phase::StopEngine(AfterStop::Start),
    ensures
        ({
            let restart = run(t.at(Phase::FindProfile), machine::stopped_state(s), a);
            run(t, s, a) == (
                restart.0,
                restart.1,
                seq![
                    Phase::StopEngine(AfterStop::Start),
                    Phase::RemoveRules(AfterStop::Start),
                    Phase::Disarm(AfterStop::Start),
                ] + restart.2,
            )
        }),
{
    run_once(t, s, a);
    let (t1, s1) = machine::step(t, s, answer(a, t.phase));
    run_once(t1, s1, a);
    let (t2, s2) = machine::step(t1, s1, answer(a, t1.phase));
    run_once(t2, s2, a);
    let restart = run(t.at(Phase::FindProfile), machine::stopped_state(s), a);
    assert(seq![Phase::StopEngine(AfterStop::Start)] + (seq![Phase::RemoveRules(AfterStop::Start)]
        + (seq![Phase::Disarm(AfterStop::Start)] + restart.2)) =~= seq![
        Phase::StopEngine(AfterStop::Start),
        Phase::RemoveRules(AfterStop::Start),
        Phase::Disarm(AfterStop::Start),
    ] + restart.2);
}

// ---------------------------------------------------------------------------
// The engine never runs without its rules
// ---------------------------------------------------------------------------

/// The engine is started only right after the rules were installed.
pub proof fn engine_starts_behind_the_rules(t: TransitionView, s: StateView, o: Outcome)
    requires
        machine::fits(t.phase, o),
        machine::step(t, s, o).0.phase == Phase::StartEngine,
    ensures
        t.phase == Phase::ApplyRules,
        o matches Outcome::Done(r) && r is Ok,
{
}

/// The rules are installed for the profile that was found and for the address that its
/// host resolved to, over the interface of the connection.
pub proof fn rules_fit_the_profile(t: TransitionView, s: StateView, o: Outcome)
    requires
        machine::fits(t.phase, o),
        machine::step(t, s, o).0.phase == Phase::ApplyRules,
    ensures
        t.phase == Phase::Resolve,
        o matches Outcome::Addresses(found) && ({
            let next = machine::step(t, s, o).0;
            &&& next.profile == t.profile
            &&& route::resolved(t.profile->0.proxy.host@, t.iface, found) == Ok::<
                route::RouteView,
                Seq<char>,
            >(next.route->0)
            &&& next.route->0.iface == t.iface
        }),
{
}

// ---------------------------------------------------------------------------
// The state at rest
// ---------------------------------------------------------------------------

/// What holds of the state whenever no transition is under way: the proxy is
/// disconnected, active or failed; it is up exactly when it is active, and then for a
/// known connection; an error is shown exactly when it failed; polls are counted only
/// while it is failed; and only a proxy that was started is the user's.
pub open spec fn at_rest(s: StateView) -> bool {
    &&& s.proxy_state == ProxyState::Disconnected || s.proxy_state == ProxyState::Active
        || s.proxy_state == ProxyState::Failed
    &&& s.proxy_active <==> s.proxy_state == ProxyState::Active
    &&& s.proxy_state == ProxyState::Active ==> s.active_uuid is Some
    &&& s.proxy_state == ProxyState::Disconnected ==> s.active_uuid is None
    &&& s.last_error is Some <==> s.proxy_state == ProxyState::Failed
    &&& s.proxy_state != ProxyState::Failed ==> s.failed_ticks == 0
    &&& s.manual ==> s.active_uuid is Some
}

/// What holds of the state while a transition is under way.
spec fn sound(t: TransitionView, s: StateView) -> bool {
    &&& s.manual ==> s.active_uuid is Some
    &&& match t.phase {
        Phase::Finished | Phase::FindProfile => at_rest(s),
        Phase::CheckActive => at_rest(s) && s.proxy_state == ProxyState::Active,
        Phase::CheckStarted => s.proxy_active && s.active_uuid is Some && s.last_error is None
            && s.failed_ticks == 0,
        _ => true,
    }
}

proof fn step_is_sound(t: TransitionView, s: StateView, o: Outcome)
    requires
        machine::ready(t),
        machine::fits(t.phase, o),
        sound(t, s),
        t.phase == Phase::StartEngine ==> s.last_error is None,
    ensures
        sound(machine::step(t, s, o).0, machine::step(t, s, o).1),
        machine::ready(machine::step(t, s, o).0),
{
}

spec fn quiet(t: TransitionView, s: StateView) -> bool {
    t.phase == Phase::Resolve || t.phase == Phase::ApplyRules || t.phase == Phase::StartEngine
        ==> s.last_error is None
}

proof fn run_is_sound(t: TransitionView, s: StateView, a: Answers)
    requires
        machine::ready(t),
        sound(t, s),
        quiet(t, s),
    ensures
        at_rest(run(t, s, a).1),
        run(t, s, a).0.phase == Phase::Finished,
    decreases phases_left(t.phase),
{
    if t.phase != Phase::Finished {
        let o = answer(a, t.phase);
        step_is_sound(t, s, o);
        let (next, after) = machine::step(t, s, o);
        run_is_sound(next, after, a);
    }
}

/// A daemon that has done nothing yet is at rest.
pub proof fn initial_state_is_at_rest()
    ensures
        at_rest(machine::initial_state()),
{
}

/// Every poll leaves the daemon at rest, whatever the outside answers; without Wi-Fi,
/// disconnected.
pub proof fn poll_ends_at_rest(
    s: StateView,
    wifi: Option<ActiveWifi>,
    profile: Option<ProxyProfile>,
    a: Answers,
)
    requires
        at_rest(s),
    ensures
        ({
            let (t, after) = machine::poll(s, wifi, profile);
            &&& at_rest(run(t, after, a).1)
            &&& wifi is None ==> run(t, after, a).1.proxy_state == ProxyState::Disconnected
        }),
{
    let (t, after) = machine::poll(s, wifi, profile);
    run_is_sound(t, after, a);
    if wifi is None && t.phase != Phase::Finished {
        stop_takes_everything_down(t, after, a);
    }
}

/// Every manual start leaves the daemon at rest, also once it is noted.
pub proof fn manual_start_ends_at_rest(s: StateView, uuid: Seq<char>, iface: Seq<char>, a: Answers)
    requires
        at_rest(s),
    ensures
        ({
            let (t, left, _) = run(
                machine::begun(Phase::FindProfile, uuid, iface, false),
                StateView { user_stopped: None, ..s },
                a,
            );
            at_rest(left) && at_rest(machine::noted_start(t, left))
        }),
{
    run_is_sound(
        machine::begun(Phase::FindProfile, uuid, iface, false),
        StateView { user_stopped: None, ..s },
        a,
    );
}

/// The end of a start whose profile is missing or whose host has no address: nothing but
/// the state was touched.
proof fn refused_start_ends(t: TransitionView, s: StateView, a: Answers)
    requires
        t.phase == Phase::FindProfile,
        a.profile is None || route::resolved(
            a.profile->0.proxy.host@,
            t.iface,
            a.addresses,
        ) is Err,
    ensures
        run(t, s, a).0.error is Some,
        run(t, s, a).1 == (if a.profile is None {
            s
        } else {
            machine::failed_state(
                s,
                route::resolved(a.profile->0.proxy.host@, t.iface, a.addresses)->Err_0,
            )
        }),
{
    run_once(t, s, a);
    let (t1, s1) = machine::step(t, s, answer(a, t.phase));
    if a.profile is None {
        assert(run(t1, s1, a).0 == t1);
    } else {
        run_once(t1, s1, a);
        let (t2, s2) = machine::step(t1, s1, answer(a, t1.phase));
        assert(run(t2, s2, a).0 == t2);
    }
}

/// A manual start is answered with success only where it left the proxy active for the
/// connection.
pub proof fn manual_start_is_answered_truly(
    s: StateView,
    uuid: Seq<char>,
    iface: Seq<char>,
    a: Answers,
)
    ensures
        ({
            let (t, left, _) = run(machine::begun(Phase::FindProfile, uuid, iface, false), s, a);
            machine::start_answer(t, left) is Ok ==> left.proxy_state == ProxyState::Active
                && left.active_uuid == Some(uuid)
        }),
{
    let t = machine::begun(Phase::FindProfile, uuid, iface, false);
    if a.profile is None || route::resolved(a.profile->0.proxy.host@, iface, a.addresses) is Err {
        refused_start_ends(t, s, a);
    } else if a.apply is Err {
        failed_rules_start_nothing(t, s, a);
    } else if a.start is Err {
        failed_engine_removes_the_rules(t, s, a);
    } else if a.running {
        start_succeeds(t, s, a);
    } else if a.profile->0.kill_switch.enabled {
        unhealthy_start_keeps_the_rules(t, s, a);
    } else {
        unhealthy_start_without_kill_switch_stops(t, s, a);
    }
}

/// A manual start of a proxy whose engine turns out not to run is answered with what the
/// health check found, with or without the kill switch; it is noted as the user's only
/// where the kill switch kept its rules.
pub proof fn unhealthy_manual_start_is_reported(
    s: StateView,
    uuid: Seq<char>,
    iface: Seq<char>,
    a: Answers,
)
    requires
        a.profile is Some,
        route::resolved(a.profile->0.proxy.host@, iface, a.addresses) is Ok,
        a.apply is Ok,
        a.start is Ok,
        !a.running,
    ensures
        ({
            let (t, left, _) = run(machine::begun(Phase::FindProfile, uuid, iface, false), s, a);
            &&& machine::start_answer(t, left) == Err::<(), Seq<char>>(machine::health_message())
            &&& machine::noted_start(t, left).manual == a.profile->0.kill_switch.enabled
        }),
{
    let t = machine::begun(Phase::FindProfile, uuid, iface, false);
    if a.profile->0.kill_switch.enabled {
        unhealthy_start_keeps_the_rules(t, s, a);
    } else {
        unhealthy_start_without_kill_switch_stops(t, s, a);
    }
}

// ---------------------------------------------------------------------------
// When a poll acts
// ---------------------------------------------------------------------------

/// Whether a transition is to start the proxy.
pub open spec fn is_start(phase: Phase) -> bool {
    phase == Phase::FindProfile || phase == Phase::StopEngine(AfterStop::Start)
}

/// A poll starts the proxy only on a Wi-Fi that carries the default route, for a
/// profile that is enabled and opted into automatic activation, and not where the user
/// stopped it.
pub proof fn poll_starts_only_when_asked(
    s: StateView,
    wifi: Option<ActiveWifi>,
    profile: Option<ProxyProfile>,
)
    requires
        is_start(machine::poll(s, wifi, profile).0.phase),
    ensures
        wifi matches Some(w) && w.has_default_route && s.user_stopped != Some(w.uuid@),
        profile matches Some(p) && p.enabled && p.auto_connect,
{
}

/// A poll starts the proxy where it is asked to and the proxy is down.
pub proof fn poll_starts_when_asked(s: StateView, wifi: ActiveWifi, profile: ProxyProfile)
    requires
        at_rest(s),
        s.proxy_state == ProxyState::Disconnected,
        wifi.has_default_route,
        profile.enabled,
        profile.auto_connect,
        s.user_stopped != Some(wifi.uuid@),
    ensures
        machine::poll(s, Some(wifi), Some(profile)).0 == machine::begun(
            Phase::FindProfile,
            wifi.uuid@,
            wifi.interface@,
            profile.kill_switch.enabled,
        ),
{
}

/// Where there is no Wi-Fi any more, a poll takes down whatever is up: the engine is
/// stopped, the rules are removed and the kill switch is disarmed.
pub proof fn lost_wifi_stops_the_proxy(s: StateView, profile: Option<ProxyProfile>, a: Answers)
    requires
        s.proxy_state != ProxyState::Disconnected,
    ensures
        ({
            let (t, after) = machine::poll(s, None, profile);
            &&& run(t, after, a).1 == machine::stopped_state(StateView { user_stopped: None, ..s })
            &&& run(t, after, a).2 == seq![
                Phase::StopEngine(AfterStop::Finish),
                Phase::RemoveRules(AfterStop::Finish),
                Phase::Disarm(AfterStop::Finish),
            ]
        }),
{
    let (t, after) = machine::poll(s, None, profile);
    stop_takes_everything_down(t, after, a);
}

/// A manual stop sticks: no poll that sees the same connection starts the proxy, or
/// forgets that it was stopped.
pub proof fn manual_stop_sticks(
    s: StateView,
    wifi: ActiveWifi,
    profile: Option<ProxyProfile>,
    a: Answers,
)
    requires
        s.user_stopped == Some(wifi.uuid@),
    ensures
        ({
            let (t, after) = machine::poll(s, Some(wifi), profile);
            &&& !is_start(t.phase)
            &&& run(t, after, a).1.user_stopped == Some(wifi.uuid@)
        }),
{
    let (t, after) = machine::poll(s, Some(wifi), profile);
    run_keeps_the_stop(t, after, a);
}

/// No transition forgets which connection the user stopped.
pub proof fn run_keeps_the_stop(t: TransitionView, s: StateView, a: Answers)
    ensures
        run(t, s, a).1.user_stopped == s.user_stopped,
    decreases phases_left(t.phase),
{
    if t.phase != Phase::Finished {
        let (next, after) = machine::step(t, s, answer(a, t.phase));
        run_keeps_the_stop(next, after, a);
    }
}

/// A manual stop is forgotten once there is no Wi-Fi, or another one.
pub proof fn manual_stop_ends_with_the_connection(
    s: StateView,
    wifi: Option<ActiveWifi>,
    profile: Option<ProxyProfile>,
)
    requires
        wifi matches Some(w) ==> s.user_stopped != Some(w.uuid@),
    ensures
        machine::poll(s, wifi, profile).1.user_stopped is None,
{
}

/// Where the active connection has no enabled profile any more, the next poll takes
/// the proxy down.
pub proof fn removed_profile_stops_the_proxy(s: StateView, wifi: ActiveWifi, a: Answers)
    requires
        s.proxy_state != ProxyState::Disconnected,
    ensures
        ({
            let (t, after) = machine::poll(s, Some(wifi), None);
            run(t, after, a).1.proxy_state == ProxyState::Disconnected && !run(
                t,
                after,
                a,
            ).1.proxy_active
        }),
{
    let (t, after) = machine::poll(s, Some(wifi), None);
    stop_takes_everything_down(t, after, a);
}

/// A proxy that the user started stays up while its own enabled profile matches, also
/// without auto-connect: a poll only checks that it still runs.
pub proof fn manual_start_stays_up(s: StateView, wifi: ActiveWifi, profile: ProxyProfile, a: Answers)
    requires
        at_rest(s),
        s.manual,
        s.proxy_state == ProxyState::Active,
        s.active_uuid == Some(wifi.uuid@),
        a.running,
    ensures
        ({
            let (t, after) = machine::poll(s, Some(wifi), Some(profile));
            &&& t.phase == Phase::CheckActive
            &&& run(t, after, a).1 == machine::polled_state(s, wifi)
            &&& run(t, after, a).1.proxy_state == ProxyState::Active
            &&& run(t, after, a).1.manual
        }),
{
    let (t, after) = machine::poll(s, Some(wifi), Some(profile));
    run_once(t, after, a);
}

/// Fail closed: where the engine of an active proxy died and the profile has the kill
/// switch on, a poll marks the proxy failed and takes nothing down.
pub proof fn dead_engine_keeps_the_rules(s: StateView, wifi: ActiveWifi, profile: ProxyProfile, a: Answers)
    requires
        s.proxy_state == ProxyState::Active,
        s.active_uuid == Some(wifi.uuid@),
        machine::wants_start(s, wifi, Some(profile)) || machine::keeps_manual(s, wifi, Some(profile)),
        profile.kill_switch.enabled,
        !a.running,
    ensures
        ({
            let (t, after) = machine::poll(s, Some(wifi), Some(profile));
            &&& run(t, after, a).1 == machine::failed_state(after, machine::health_message())
            &&& run(t, after, a).2 == seq![Phase::CheckActive]
        }),
{
    let (t, after) = machine::poll(s, Some(wifi), Some(profile));
    run_once(t, after, a);
    let (next, left) = machine::step(t, after, answer(a, t.phase));
    assert(run(next, left, a).2 =~= Seq::<Phase>::empty());
    assert(run(t, after, a).2 =~= seq![Phase::CheckActive]);
}

/// Roaming to a network whose profile is automatic takes the old tunnel down and starts
/// the new one.
pub proof fn roaming_restarts(s: StateView, wifi: ActiveWifi, profile: ProxyProfile)
    requires
        machine::wants_start(s, wifi, Some(profile)),
        machine::roamed(s, wifi),
    ensures
        machine::poll(s, Some(wifi), Some(profile)).0.phase == Phase::StopEngine(AfterStop::Start),
        machine::poll(s, Some(wifi), Some(profile)).0.uuid == wifi.uuid@,
        machine::poll(s, Some(wifi), Some(profile)).0.iface == wifi.interface@,
{
}

/// A transition for a connection leaves no proxy for another one, where there was none.
pub proof fn run_stays_with_the_connection(
    t: TransitionView,
    s: StateView,
    wifi: ActiveWifi,
    a: Answers,
)
    requires
        t.uuid == wifi.uuid@,
        !machine::roamed(s, wifi),
    ensures
        !machine::roamed(run(t, s, a).1, wifi),
    decreases phases_left(t.phase),
{
    if t.phase != Phase::Finished {
        let (next, after) = machine::step(t, s, answer(a, t.phase));
        run_stays_with_the_connection(next, after, wifi, a);
    }
}

/// A poll that saw a connection leaves no proxy for another one, whatever its profile is
/// and whatever the outside answers.
pub proof fn poll_leaves_no_proxy_for_another_connection(
    s: StateView,
    wifi: ActiveWifi,
    profile: Option<ProxyProfile>,
    a: Answers,
)
    requires
        at_rest(s),
    ensures
        ({
            let (t, after) = machine::poll(s, Some(wifi), profile);
            !machine::roamed(run(t, after, a).1, wifi)
        }),
{
    let (t, after) = machine::poll(s, Some(wifi), profile);
    if t.phase == Phase::StopEngine(AfterStop::Start) {
        roaming_stops_first(t, after, a);
        run_stays_with_the_connection(
            t.at(Phase::FindProfile),
            machine::stopped_state(after),
            wifi,
            a,
        );
    } else if t.phase == Phase::StopEngine(AfterStop::Finish) {
        stop_takes_everything_down(t, after, a);
    } else {
        run_stays_with_the_connection(t, after, wifi, a);
    }
}

/// A start that fails leaves the back-off at its beginning, and names no connection but
/// the one that was named before or the one that it was for.
pub proof fn failed_start_begins_the_back_off(t: TransitionView, s: StateView, a: Answers)
    requires
        is_start(t.phase),
        t.error is None,
        a.profile is Some,
        run(t, s, a).1.proxy_state == ProxyState::Failed,
    ensures
        run(t, s, a).1.failed_ticks == 0,
        run(t, s, a).1.active_uuid == s.active_uuid || run(t, s, a).1.active_uuid == Some(t.uuid)
            || (t.phase == Phase::StopEngine(AfterStop::Start) && run(t, s, a).1.active_uuid is None),
    decreases phases_left(t.phase),
{
    if t.phase == Phase::StopEngine(AfterStop::Start) {
        roaming_stops_first(t, s, a);
        failed_start_begins_the_back_off(t.at(Phase::FindProfile), machine::stopped_state(s), a);
    } else if route::resolved(a.profile->0.proxy.host@, t.iface, a.addresses) is Err {
        refused_start_ends(t, s, a);
    } else if a.apply is Err {
        failed_rules_start_nothing(t, s, a);
    } else if a.start is Err {
        failed_engine_removes_the_rules(t, s, a);
    } else if a.running {
        start_succeeds(t, s, a);
    } else if a.profile->0.kill_switch.enabled {
        unhealthy_start_keeps_the_rules(t, s, a);
    } else {
        unhealthy_start_without_kill_switch_stops(t, s, a);
    }
}

/// A poll whose start fails leaves the proxy as the back-off takes it up: no poll is
/// counted yet, the proxy is for no other connection, and it is still wanted.
pub proof fn failed_poll_is_taken_up_by_the_back_off(
    s: StateView,
    wifi: ActiveWifi,
    profile: ProxyProfile,
    a: Answers,
)
    requires
        is_start(machine::poll(s, Some(wifi), Some(profile)).0.phase),
        a.profile is Some,
        ({
            let (t, after) = machine::poll(s, Some(wifi), Some(profile));
            run(t, after, a).1.proxy_state == ProxyState::Failed
        }),
    ensures
        ({
            let (t, after) = machine::poll(s, Some(wifi), Some(profile));
            let left = run(t, after, a).1;
            &&& left.failed_ticks == 0
            &&& !machine::roamed(left, wifi)
            &&& machine::wants_start(left, wifi, Some(profile))
        }),
{
    let (t, after) = machine::poll(s, Some(wifi), Some(profile));
    poll_starts_only_when_asked(s, Some(wifi), Some(profile));
    failed_start_begins_the_back_off(t, after, a);
    run_keeps_the_stop(t, after, a);
    if t.phase == Phase::StopEngine(AfterStop::Start) {
        roaming_stops_first(t, after, a);
        failed_start_begins_the_back_off(t.at(Phase::FindProfile), machine::stopped_state(after), a);
    }
}

/// A manual start that fails, on the connection that the last poll saw, leaves the proxy
/// as the back-off takes it up, where a poll would start it too: the start leaves it
/// failed, no poll is counted yet, and the proxy is for no other connection.
pub proof fn failed_manual_start_is_taken_up_by_the_back_off(
    s: StateView,
    wifi: ActiveWifi,
    seen: Option<ProxyProfile>,
    polled: Answers,
    profile: ProxyProfile,
    a: Answers,
)
    requires
        at_rest(s),
        wifi.has_default_route,
        machine::is_auto(Some(profile)),
        a.profile is Some,
        manually_started(after_poll(s, wifi, seen, polled), wifi, a).proxy_state
            == ProxyState::Failed,
    ensures
        ({
            let left = manually_started(after_poll(s, wifi, seen, polled), wifi, a);
            &&& left.failed_ticks == 0
            &&& !machine::roamed(left, wifi)
            &&& machine::wants_start(left, wifi, Some(profile))
        }),
{
    poll_leaves_no_proxy_for_another_connection(s, wifi, seen, polled);
    let before = StateView { user_stopped: None, ..after_poll(s, wifi, seen, polled) };
    let t = machine::begun(Phase::FindProfile, wifi.uuid@, wifi.interface@, false);
    failed_start_begins_the_back_off(t, before, a);
    run_stays_with_the_connection(t, before, wifi, a);
    run_keeps_the_stop(t, before, a);
}

/// The state that a poll which saw `wifi` leaves.
pub open spec fn after_poll(
    s: StateView,
    wifi: ActiveWifi,
    profile: Option<ProxyProfile>,
    a: Answers,
) -> StateView {
    let (t, noted) = machine::poll(s, Some(wifi), profile);
    run(t, noted, a).1
}

/// The state that a manual start on `wifi` leaves, once it is noted.
pub open spec fn manually_started(s: StateView, wifi: ActiveWifi, a: Answers) -> StateView {
    let (t, left, _) = run(
        machine::begun(Phase::FindProfile, wifi.uuid@, wifi.interface@, false),
        StateView { user_stopped: None, ..s },
        a,
    );
    machine::noted_start(t, left)
}

/// The state after `n` polls that see the same Wi-Fi and profile and decide to do
/// nothing.
pub open spec fn idle_polls(s: StateView, wifi: ActiveWifi, n: nat) -> StateView
    decreases n,
{
    if n == 0 {
        s
    } else {
        machine::polled_state(idle_polls(s, wifi, (n - 1) as nat), wifi)
    }
}

/// A failed proxy is not started again at once: the polls that follow the failure do
/// nothing until as many as the back-off asks for have passed, and that one starts it.
pub proof fn failed_proxy_backs_off(s: StateView, wifi: ActiveWifi, profile: ProxyProfile, n: nat)
    requires
        s.proxy_state == ProxyState::Failed,
        s.failed_ticks == 0,
        machine::wants_start(s, wifi, Some(profile)),
        !machine::roamed(s, wifi),
        n < FAILED_RETRY_TICKS,
    ensures
        machine::poll(idle_polls(s, wifi, n), Some(wifi), Some(profile)).0.phase == (if n + 1
            == FAILED_RETRY_TICKS {
            Phase::FindProfile
        } else {
            Phase::Finished
        }),
        idle_polls(s, wifi, n) == (StateView {
            failed_ticks: n as u32,
            user_stopped: if n == 0 {
                s.user_stopped
            } else {
                None
            },
            ..s
        }),
    decreases n,
{
    if n > 0 {
        failed_proxy_backs_off(s, wifi, profile, (n - 1) as nat);
    }
}

// ---------------------------------------------------------------------------
// What a poll comes to
// ---------------------------------------------------------------------------

/// Where the engine of an active proxy died and the profile has the kill switch off, a
/// poll takes everything down: the engine, the rules and the kill switch, in this order,
/// and nothing of the proxy is left.
pub proof fn dead_engine_without_kill_switch_stops(
    s: StateView,
    wifi: ActiveWifi,
    profile: ProxyProfile,
    a: Answers,
)
    requires
        at_rest(s),
        s.proxy_state == ProxyState::Active,
        s.active_uuid == Some(wifi.uuid@),
        (wifi.has_default_route && profile.enabled && profile.auto_connect && s.user_stopped
            != Some(wifi.uuid@)) || s.manual,
        !profile.kill_switch.enabled,
        !a.running,
    ensures
        ({
            let (t, after) = machine::poll(s, Some(wifi), Some(profile));
            let (_, left, phases) = run(t, after, a);
            &&& phases == seq![
                Phase::CheckActive,
                Phase::StopEngine(AfterStop::Finish),
                Phase::RemoveRules(AfterStop::Finish),
                Phase::Disarm(AfterStop::Finish),
            ]
            &&& left.proxy_state == ProxyState::Disconnected
            &&& !left.proxy_active
            &&& left.active_uuid is None
            &&& left.last_error is None
            &&& !left.manual
            &&& left.failed_ticks == 0
        }),
{
    let (t, after) = machine::poll(s, Some(wifi), Some(profile));
    run_once(t, after, a);
    let (next, left) = machine::step(t, after, answer(a, t.phase));
    stop_takes_everything_down(next, left, a);
    assert(run(t, after, a).2 =~= seq![
        Phase::CheckActive,
        Phase::StopEngine(AfterStop::Finish),
        Phase::RemoveRules(AfterStop::Finish),
        Phase::Disarm(AfterStop::Finish),
    ]);
}

/// The proxy is not active in a phase that does not ask whether it is still running, or
/// take it down.
spec fn not_yet_active(t: TransitionView, s: StateView) -> bool {
    match t.phase {
        Phase::CheckActive | Phase::StopEngine(_) | Phase::RemoveRules(_) | Phase::Disarm(_) => true,
        _ => s.proxy_state != ProxyState::Active,
    }
}

proof fn told_dead_is_not_active(t: TransitionView, s: StateView, a: Answers)
    requires
        !a.running,
        not_yet_active(t, s),
    ensures
        run(t, s, a).1.proxy_state != ProxyState::Active,
    decreases phases_left(t.phase),
{
    if t.phase != Phase::Finished {
        let (next, after) = machine::step(t, s, answer(a, t.phase));
        told_dead_is_not_active(next, after, a);
    }
}

/// Whatever a poll sees and decides, where the engine is not running the proxy is not
/// active afterwards, nor shown as up.
pub proof fn dead_engine_is_never_active(
    s: StateView,
    wifi: Option<ActiveWifi>,
    profile: Option<ProxyProfile>,
    a: Answers,
)
    requires
        at_rest(s),
        !a.running,
    ensures
        ({
            let (t, after) = machine::poll(s, wifi, profile);
            let left = run(t, after, a).1;
            left.proxy_state != ProxyState::Active && !left.proxy_active
        }),
{
    let (t, after) = machine::poll(s, wifi, profile);
    told_dead_is_not_active(t, after, a);
    poll_is_sound(s, wifi, profile, a);
}

/// The same holds of a manual start that finds the proxy down.
pub proof fn dead_engine_is_never_started(s: StateView, uuid: Seq<char>, iface: Seq<char>, a: Answers)
    requires
        at_rest(s),
        s.proxy_state != ProxyState::Active,
        !a.running,
    ensures
        ({
            let left = run(machine::begun(Phase::FindProfile, uuid, iface, false), s, a).1;
            left.proxy_state != ProxyState::Active && !left.proxy_active
        }),
{
    let t = machine::begun(Phase::FindProfile, uuid, iface, false);
    told_dead_is_not_active(t, s, a);
    run_is_sound(t, s, a);
}

proof fn poll_is_sound(
    s: StateView,
    wifi: Option<ActiveWifi>,
    profile: Option<ProxyProfile>,
    a: Answers,
)
    requires
        at_rest(s),
    ensures
        ({
            let (t, after) = machine::poll(s, wifi, profile);
            at_rest(run(t, after, a).1)
        }),
{
    let (t, after) = machine::poll(s, wifi, profile);
    run_is_sound(t, after, a);
}

/// An active proxy that is still wanted and still running is left as it is: a poll asks
/// whether it runs, and does nothing else.
pub proof fn running_proxy_is_left_alone(
    s: StateView,
    wifi: ActiveWifi,
    profile: ProxyProfile,
    a: Answers,
)
    requires
        at_rest(s),
        s.proxy_state == ProxyState::Active,
        s.active_uuid == Some(wifi.uuid@),
        (wifi.has_default_route && profile.enabled && profile.auto_connect && s.user_stopped
            != Some(wifi.uuid@)) || s.manual,
        a.running,
    ensures
        ({
            let (t, after) = machine::poll(s, Some(wifi), Some(profile));
            let (end, left, phases) = run(t, after, a);
            &&& phases == seq![Phase::CheckActive]
            &&& end.error is None
            &&& left.proxy_state == ProxyState::Active
            &&& left.proxy_active
            &&& left.active_uuid == s.active_uuid
            &&& left.last_error is None
            &&& left.manual == s.manual
            &&& left.failed_ticks == 0
        }),
{
    let (t, after) = machine::poll(s, Some(wifi), Some(profile));
    run_once(t, after, a);
    let (next, left) = machine::step(t, after, answer(a, t.phase));
    assert(run(next, left, a).2 =~= Seq::<Phase>::empty());
    assert(run(t, after, a).2 =~= seq![Phase::CheckActive]);
}

/// A proxy that neither the profile nor the user asks for any more is taken down by the
/// next poll: the Wi-Fi lost the default route, the profile is gone, disabled or no longer
/// automatic, or the user stopped it, and it was not started by the user for this
/// connection.
pub proof fn unwanted_proxy_is_stopped(
    s: StateView,
    wifi: ActiveWifi,
    profile: Option<ProxyProfile>,
    a: Answers,
)
    requires
        at_rest(s),
        s.proxy_state != ProxyState::Disconnected,
        !wifi.has_default_route || profile is None || !profile->0.enabled
            || !profile->0.auto_connect || s.user_stopped == Some(wifi.uuid@),
        !s.manual || profile is None || s.active_uuid != Some(wifi.uuid@),
    ensures
        ({
            let (t, after) = machine::poll(s, Some(wifi), profile);
            let (_, left, phases) = run(t, after, a);
            &&& phases == seq![
                Phase::StopEngine(AfterStop::Finish),
                Phase::RemoveRules(AfterStop::Finish),
                Phase::Disarm(AfterStop::Finish),
            ]
            &&& left.proxy_state == ProxyState::Disconnected
            &&& !left.proxy_active
            &&& left.active_uuid is None
            &&& left.last_error is None
            &&& !left.manual
        }),
{
    let (t, after) = machine::poll(s, Some(wifi), profile);
    stop_takes_everything_down(t, after, a);
}

/// A proxy that is down and not asked for stays down, and nothing is done.
pub proof fn idle_daemon_does_nothing(
    s: StateView,
    wifi: Option<ActiveWifi>,
    profile: Option<ProxyProfile>,
    a: Answers,
)
    requires
        at_rest(s),
        s.proxy_state == ProxyState::Disconnected,
        wifi is None || !wifi->0.has_default_route || profile is None || !profile->0.enabled
            || !profile->0.auto_connect || s.user_stopped == Some(wifi->0.uuid@),
    ensures
        ({
            let (t, after) = machine::poll(s, wifi, profile);
            let (_, left, phases) = run(t, after, a);
            &&& phases.len() == 0
            &&& left.proxy_state == ProxyState::Disconnected
            &&& !left.proxy_active
            &&& left.active_uuid is None
            &&& left.last_error is None
            &&& wifi is Some && s.user_stopped == Some(wifi->0.uuid@) ==> left.user_stopped
                == s.user_stopped
        }),
{
}

/// Where a poll is asked to start the proxy and everything outside succeeds, the proxy is
/// up for that connection afterwards, whether it was down, had failed for long enough, or
/// was up for another connection.
pub proof fn asked_poll_brings_the_proxy_up(
    s: StateView,
    wifi: ActiveWifi,
    profile: ProxyProfile,
    a: Answers,
)
    requires
        at_rest(s),
        wifi.has_default_route,
        profile.enabled,
        profile.auto_connect,
        s.user_stopped != Some(wifi.uuid@),
        s.proxy_state == ProxyState::Failed ==> s.failed_ticks + 1 >= FAILED_RETRY_TICKS || (
        s.active_uuid is Some && s.active_uuid != Some(wifi.uuid@)),
        a.profile is Some,
        route::resolved(a.profile->0.proxy.host@, wifi.interface@, a.addresses) is Ok,
        a.apply is Ok,
        a.start is Ok,
        a.running,
    ensures
        ({
            let (t, after) = machine::poll(s, Some(wifi), Some(profile));
            let left = run(t, after, a).1;
            &&& left.proxy_state == ProxyState::Active
            &&& left.proxy_active
            &&& left.active_uuid == Some(wifi.uuid@)
            &&& left.last_error is None
        }),
{
    let (t, after) = machine::poll(s, Some(wifi), Some(profile));
    if t.phase == Phase::StopEngine(AfterStop::Start) {
        roaming_stops_first(t, after, a);
        start_succeeds(t.at(Phase::FindProfile), machine::stopped_state(after), a);
    } else if t.phase == Phase::FindProfile {
        start_succeeds(t, after, a);
    } else {
        running_proxy_is_left_alone(s, wifi, profile, a);
    }
    poll_is_sound(s, Some(wifi), Some(profile), a);
}

/// A start whose host cannot be looked up, or has no address, touches neither the rules
/// nor the engine, and leaves the proxy failed with the reason.
pub proof fn unresolved_host_starts_nothing(t: TransitionView, s: StateView, a: Answers)
    requires
        t.phase == Phase::FindProfile,
        a.profile is Some,
        a.addresses is Err || a.addresses->Ok_0@.len() == 0,
    ensures
        ({
            let (end, left, phases) = run(t, s, a);
            &&& phases == seq![Phase::FindProfile, Phase::Resolve]
            &&& left.proxy_state == ProxyState::Failed
            &&& !left.proxy_active
            &&& end.error is Some
            &&& left.last_error == end.error
            &&& left.active_uuid == s.active_uuid
        }),
{
    run_once(t, s, a);
    let (t1, s1) = machine::step(t, s, answer(a, t.phase));
    run_once(t1, s1, a);
    let (t2, s2) = machine::step(t1, s1, answer(a, t1.phase));
    assert(run(t2, s2, a).2 =~= Seq::<Phase>::empty());
    assert(run(t, s, a).2 =~= seq![Phase::FindProfile, Phase::Resolve]);
}

/// A start without an enabled profile touches nothing at all.
pub proof fn start_without_profile_does_nothing(t: TransitionView, s: StateView, a: Answers)
    requires
        t.phase == Phase::FindProfile,
        a.profile is None,
    ensures
        run(t, s, a).2 == seq![Phase::FindProfile],
        run(t, s, a).1 == s,
        run(t, s, a).0.error is Some,
{
    run_once(t, s, a);
    let (t1, s1) = machine::step(t, s, answer(a, t.phase));
    assert(run(t1, s1, a).2 =~= Seq::<Phase>::empty());
    assert(run(t, s, a).2 =~= seq![Phase::FindProfile]);
}

/// A start that ends with an active proxy went through the whole order of a start, once:
/// the profile, its host, the rules, the engine, the check; it was told yes each time.
pub proof fn active_start_left_nothing_out(t: TransitionView, s: StateView, a: Answers)
    requires
        t.phase == Phase::FindProfile,
        t.error is None,
        s.proxy_state != ProxyState::Active,
        run(t, s, a).1.proxy_state == ProxyState::Active,
    ensures
        a.profile is Some,
        route::resolved(a.profile->0.proxy.host@, t.iface, a.addresses) is Ok,
        a.apply is Ok,
        a.start is Ok,
        a.running,
        run(t, s, a).1.active_uuid == Some(t.uuid),
        run(t, s, a).2 == seq![
            Phase::FindProfile,
            Phase::Resolve,
            Phase::ApplyRules,
            Phase::StartEngine,
            Phase::CheckStarted,
        ],
{
    if a.profile is None || route::resolved(a.profile->0.proxy.host@, t.iface, a.addresses) is Err {
        refused_start_ends(t, s, a);
    } else if a.apply is Err {
        failed_rules_start_nothing(t, s, a);
    } else if a.start is Err {
        failed_engine_removes_the_rules(t, s, a);
    } else if !a.running {
        told_dead_is_not_active(t, s, a);
    } else {
        start_succeeds(t, s, a);
    }
}

// ---------------------------------------------------------------------------
// What the user asks for
// ---------------------------------------------------------------------------

/// A manual start is accepted exactly for the active connection, whether it is named or
/// not, and is then for that connection over its own interface.
pub proof fn manual_start_is_for_the_active_connection(
    wifi: Option<ActiveWifi>,
    asked: Option<Seq<char>>,
)
    ensures
        machine::start_target(wifi, asked) is Ok <==> wifi is Some && (asked is None
            || asked->0.len() == 0 || asked->0 == wifi->0.uuid@),
        machine::start_target(wifi, asked) matches Ok(target) ==> target.0 == wifi->0.uuid@
            && target.1 == wifi->0.interface@,
{
}

/// A manual start in which everything outside succeeds is answered with success, is the
/// user's, and leaves the proxy up.
pub proof fn successful_manual_start_is_answered_so(
    s: StateView,
    uuid: Seq<char>,
    iface: Seq<char>,
    a: Answers,
)
    requires
        a.profile is Some,
        route::resolved(a.profile->0.proxy.host@, iface, a.addresses) is Ok,
        a.apply is Ok,
        a.start is Ok,
        a.running,
    ensures
        ({
            let (t, left, _) = run(machine::begun(Phase::FindProfile, uuid, iface, false), s, a);
            &&& machine::start_answer(t, left) is Ok
            &&& machine::noted_start(t, left).manual
            &&& machine::noted_start(t, left).active_uuid == Some(uuid)
            &&& machine::noted_start(t, left).proxy_state == ProxyState::Active
            &&& machine::noted_start(t, left).proxy_active
        }),
{
    start_succeeds(machine::begun(Phase::FindProfile, uuid, iface, false), s, a);
}

/// A manual start that is answered with an error is answered with the one that the state
/// shows, or with what ended it.
pub proof fn failed_manual_start_says_why(t: TransitionView, s: StateView)
    ensures
        machine::start_answer(t, s) is Ok <==> t.error is None && s.proxy_state
            != ProxyState::Failed && !t.unhealthy,
        t.error is Some ==> machine::start_answer(t, s) == Err::<(), Seq<char>>(t.error->0),
        t.error is None && s.proxy_state == ProxyState::Failed && s.last_error is Some
            ==> machine::start_answer(t, s) == Err::<(), Seq<char>>(s.last_error->0),
{
}

/// Noting a manual start changes nothing but whose the proxy is: it becomes the user's
/// where the start was not refused and a proxy was left behind, and stays the user's
/// where it was.
pub proof fn noting_a_start_only_notes_it(t: TransitionView, s: StateView)
    ensures
        ({
            let noted = machine::noted_start(t, s);
            &&& noted.manual <==> s.manual || (t.error is None && s.active_uuid is Some)
            &&& noted == (StateView { manual: noted.manual, ..s })
        }),
{
}

// ---------------------------------------------------------------------------
// What the daemon shows
// ---------------------------------------------------------------------------

/// What clients are shown after a poll: the Wi-Fi that it saw, the profile that it
/// matched with its own DNS mode and kill switch, and the state that it left.
pub proof fn status_shows_the_poll(
    snap: DaemonSnapshot,
    status: ProxyStatus,
    s: StateView,
    wifi_enabled: bool,
    wifi: ActiveWifi,
    profile: Option<ProxyProfile>,
)
    requires
        machine::is_poll_snapshot(snap, s, wifi_enabled, Some(wifi), profile),
        snapshot::is_status_of(status, snap),
    ensures
        status.wifi == Some(wifi),
        status.wifi_enabled == wifi_enabled,
        status.proxy_state == s.proxy_state,
        status.proxy_active == s.proxy_active,
        crate::models::opt_text(status.message) == s.last_error,
        profile matches Some(p) ==> status.matched_profile_uuid == Some(p.connection_uuid)
            && status.profile_enabled == p.enabled && status.dns_mode == Some(p.dns)
            && status.kill_switch_active == p.kill_switch.enabled,
        profile is None ==> status.matched_profile_uuid is None && !status.profile_enabled
            && status.dns_mode is None && !status.kill_switch_active,
        status.tun_name is None,
        status.last_health_check is None,
{
}

/// What clients are shown after a poll without Wi-Fi: no connection, no profile, no proxy
/// and no error.
pub proof fn status_shows_no_wifi(
    snap: DaemonSnapshot,
    status: ProxyStatus,
    s: StateView,
    wifi_enabled: bool,
    profile: Option<ProxyProfile>,
)
    requires
        machine::is_poll_snapshot(snap, s, wifi_enabled, None, profile),
        snapshot::is_status_of(status, snap),
    ensures
        status.wifi is None,
        status.wifi_enabled == wifi_enabled,
        status.proxy_state == ProxyState::Disconnected,
        !status.proxy_active,
        status.message is None,
        status.matched_profile_uuid is None,
        !status.kill_switch_active,
        status.dns_mode is None,
{
}

/// What clients are shown after a manual start: the connection and the profile of the last
/// poll, and the state that the start left.
pub proof fn status_shows_the_start(
    before: DaemonSnapshot,
    snap: DaemonSnapshot,
    status: ProxyStatus,
    s: StateView,
)
    requires
        machine::is_renewed(snap, before, s),
        snapshot::is_status_of(status, snap),
    ensures
        status.wifi == before.active_wifi,
        status.wifi_enabled == before.wifi_enabled,
        status.matched_profile_uuid == (match before.matched_profile {
            Some(p) => Some(p.connection_uuid),
            None => None,
        }),
        status.proxy_state == s.proxy_state,
        status.proxy_active == s.proxy_active,
        crate::models::opt_text(status.message) == s.last_error,
{
}

/// The address of the proxy is one that its host has: an IPv4 one where there is any, the
/// first of them, and else the first of all. The route is over the interface that it was
/// asked for.
pub proof fn route_prefers_ipv4(host: Seq<char>, iface: Seq<char>, found: Vec<ProxyAddr>)
    ensures
        found@.len() == 0 <==> route::resolved(host, iface, Ok(found)) is Err,
        route::resolved(host, iface, Ok(found)) matches Ok(r) ==> r.iface == iface && exists|i: int|
            0 <= i < found@.len() && #[trigger] found@[i] == r.proxy_ip && (forall|j: int|
                0 <= j < i ==> !(#[trigger] found@[j] is V4)) && (found@[i] is V4 || (i == 0
                && forall|j: int| 0 <= j < found@.len() ==> !(#[trigger] found@[j] is V4))),
{
    let addrs = found@;
    first_v4_is_first(addrs);
    if addrs.len() > 0 {
        match route::first_v4(addrs) {
            Some(ip) => {
                let i = choose|i: int|
                    0 <= i < addrs.len() && #[trigger] addrs[i] == ip && addrs[i] is V4 && forall|
                        j: int,
                    |
                        0 <= j < i ==> !(#[trigger] addrs[j] is V4);
                assert(found@[i] == ip);
            },
            None => {
                assert(found@[0] == route::preferred(addrs)->0);
            },
        }
    }
}

proof fn first_v4_is_first(addrs: Seq<ProxyAddr>)
    ensures
        route::first_v4(addrs) is None ==> forall|j: int|
            0 <= j < addrs.len() ==> !(#[trigger] addrs[j] is V4),
        route::first_v4(addrs) matches Some(ip) ==> exists|i: int|
            0 <= i < addrs.len() && #[trigger] addrs[i] == ip && addrs[i] is V4 && forall|j: int|
                0 <= j < i ==> !(#[trigger] addrs[j] is V4),
    decreases addrs.len(),
{
    if addrs.len() > 0 {
        let rest = addrs.drop_first();
        first_v4_is_first(rest);
        if addrs[0] is V4 {
            assert(addrs[0] == route::first_v4(addrs)->0);
        } else {
            match route::first_v4(rest) {
                Some(ip) => {
                    let i = choose|i: int|
                        0 <= i < rest.len() && #[trigger] rest[i] == ip && rest[i] is V4 && forall|
                            j: int,
                        |
                            0 <= j < i ==> !(#[trigger] rest[j] is V4);
                    assert(addrs[i + 1] == ip);
                    assert forall|j: int| 0 <= j < i + 1 implies !(#[trigger] addrs[j] is V4) by {
                        if j > 0 {
                            assert(rest[j - 1] == addrs[j]);
                        }
                    }
                },
                None => {
                    assert forall|j: int| 0 <= j < addrs.len() implies !(#[trigger] addrs[j] is V4) by {
                        if j > 0 {
                            assert(rest[j - 1] == addrs[j]);
                        }
                    }
                },
            }
        }
    }
}

/// Polls are counted while the proxy has failed, and only then: each adds one, up to what
/// can be counted, and a poll in any other state begins anew.
pub proof fn only_failed_polls_are_counted(s: StateView, wifi: ActiveWifi)
    ensures
        ({
            let after = machine::polled_state(s, wifi);
            &&& s.proxy_state != ProxyState::Failed ==> after.failed_ticks == 0
            &&& s.proxy_state == ProxyState::Failed && s.failed_ticks < u32::MAX
                ==> after.failed_ticks == s.failed_ticks + 1
            &&& after.proxy_state == s.proxy_state
            &&& after.proxy_active == s.proxy_active
            &&& after.last_error == s.last_error
            &&& after.active_uuid == s.active_uuid
            &&& after.manual == s.manual
        }),
{
}

/// A stop by the user is remembered for the connection that the proxy ran for, or else for
/// the one that is up, and nothing else of the state changes; no poll on that connection
/// wants the proxy up again.
pub proof fn manual_stop_is_remembered(
    s: StateView,
    stopped: Option<Seq<char>>,
    wifi: ActiveWifi,
    profile: Option<ProxyProfile>,
)
    requires
        stopped is None || stopped == Some(wifi.uuid@),
    ensures
        ({
            let after = machine::stopped_by_user(s, stopped, Some(wifi));
            &&& after.user_stopped == Some(wifi.uuid@)
            &&& !machine::wants_start(after, wifi, profile)
            &&& after == (StateView { user_stopped: after.user_stopped, ..s })
        }),
        machine::stopped_by_user(s, None, None).user_stopped is None,
{
}

/// Where the proxy ran for another connection than the one that is up, it is that one that
/// was stopped.
pub proof fn stop_is_of_what_ran(s: StateView, uuid: Seq<char>, wifi: Option<ActiveWifi>)
    ensures
        machine::stopped_by_user(s, Some(uuid), wifi).user_stopped == Some(uuid),
{
}

/// After a stop the status says that the proxy is down and that nothing is wrong, and still
/// which network is up and which profile it has.
pub proof fn status_shows_the_stop(snap: DaemonSnapshot, status: ProxyStatus)
    requires
        snapshot::is_status_of(status, machine::cleared_snapshot(snap)),
    ensures
        !status.proxy_active,
        status.proxy_state == ProxyState::Disconnected,
        status.message is None,
        status.wifi == snap.active_wifi,
        status.wifi_enabled == snap.wifi_enabled,
        status.matched_profile_uuid is Some <==> snap.matched_profile is Some,
{
}

/// A proxy is tested just where a network is up that has a profile, with that profile and
/// over that network.
pub proof fn tests_run_over_the_network(
    snap: DaemonSnapshot,
    r: Result<(ProxyProfile, String), String>,
)
    requires
        machine::is_tested(r, snap),
    ensures
        r is Ok <==> snap.matched_profile is Some && snap.active_wifi is Some,
        r matches Ok(t) ==> t.0 == snap.matched_profile->0 && t.1@ == snap.active_wifi->0.interface@,
{
}

/// A manual start begins by looking for the profile of the connection that is up, over its
/// interface, and takes back a stop by the user; nothing else of the state changes. It is
/// refused just where no connection is up or another one is asked for.
pub proof fn manual_start_begins_with_the_profile(
    s: StateView,
    wifi: Option<ActiveWifi>,
    uuid: Option<Seq<char>>,
)
    ensures
        machine::manual_start(s, wifi, uuid) is Err <==> wifi is None || (uuid is Some
            && uuid->0.len() > 0 && uuid->0 != wifi->0.uuid@),
        machine::manual_start(s, wifi, uuid) matches Ok(begun) ==> ({
            &&& begun.0.phase == Phase::FindProfile
            &&& begun.0.uuid == wifi->0.uuid@
            &&& begun.0.iface == wifi->0.interface@
            &&& begun.0.error is None && !begun.0.unhealthy
            &&& begun.1 == (StateView { user_stopped: None, ..s })
        }),
{
}

/// A proxy that has failed on this connection, and is wanted, is tried again at the sixth
/// poll that finds it failed, and not before.
pub proof fn failed_proxy_waits_for_six_polls(
    s: StateView,
    wifi: ActiveWifi,
    profile: Option<ProxyProfile>,
)
    requires
        machine::wants_start(s, wifi, profile),
        s.proxy_state == ProxyState::Failed,
        s.active_uuid is None || s.active_uuid == Some(wifi.uuid@),
        s.failed_ticks < u32::MAX,
    ensures
        machine::poll(s, Some(wifi), profile).0.phase == Phase::FindProfile <==> s.failed_ticks >= 5,
        machine::poll(s, Some(wifi), profile).0.phase == Phase::Finished <==> s.failed_ticks < 5,
{
}

} // verus!
