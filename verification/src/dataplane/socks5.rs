//! The SOCKS5 probe: a login, a connection to 1.1.1.1:443 and a request for a UDP relay,
//! each in a session of its own.
//!
//! A [`Talk`] is one session. Its stage says whether bytes are to be sent or read next;
//! what was read is handed back. A [`Socks5Probe`] puts the sessions in order.

use crate::dataplane::probe;
use crate::dataplane::probe::Credentials;
use crate::models;
use crate::models::ProxyTestResult;
use crate::text;
use vstd::prelude::*;

verus! {

// ---------------------------------------------------------------------------
// Messages
// ---------------------------------------------------------------------------

/// What opens a session: version 5 and one authentication method, RFC 1929 login where
/// there are credentials and none where there are not.
pub open spec fn greeting_bytes(login: bool) -> Seq<u8> {
    seq![
        5u8,
        1,
        if login {
            2
        } else {
            0
        },
    ]
}

/// What opens a session.
pub fn greeting(login: bool) -> (r: Vec<u8>)
    ensures
        r@ == greeting_bytes(login),
{
    let method: u8 = if login {
        2
    } else {
        0
    };
    let r: Vec<u8> = vec![5, 1, method];
    assert(r@ =~= greeting_bytes(login));
    r
}

/// The RFC 1929 login.
pub open spec fn login_bytes(username: Seq<u8>, password: Seq<u8>) -> Seq<u8> {
    seq![1u8, username.len() as u8] + username + seq![password.len() as u8] + password
}

/// What a login's user name and password are, as bytes; both are empty where there are
/// no credentials.
pub open spec fn login_parts(creds: Option<Credentials>) -> (Seq<u8>, Seq<u8>) {
    match creds {
        Some(c) => (vstd::utf8::encode_utf8(c.username@), vstd::utf8::encode_utf8(c.password@)),
        None => (Seq::empty(), Seq::empty()),
    }
}

/// What follows the proxy's choice of an authentication method: the login to send,
/// nothing, or the refusal.
pub open spec fn method_answer(reply: Seq<u8>, creds: Option<Credentials>) -> Result<
    Option<Seq<u8>>,
    Seq<char>,
> {
    let (username, password) = login_parts(creds);
    if reply[0] != 5 || reply[1] == 0xff {
        Err("proxy rejected the authentication method"@)
    } else if reply[1] != 2 {
        Ok(None)
    } else if username.len() > 255 || password.len() > 255 {
        Err("credentials too long for SOCKS5"@)
    } else {
        Ok(Some(login_bytes(username, password)))
    }
}

/// A result taken by the views of its parts.
pub open spec fn message_view(r: Result<Option<Vec<u8>>, String>) -> Result<
    Option<Seq<u8>>,
    Seq<char>,
> {
    match r {
        Ok(Some(v)) => Ok(Some(v@)),
        Ok(None) => Ok(None),
        Err(e) => Err(e@),
    }
}

/// What follows the proxy's choice of an authentication method.
pub fn after_method(reply: &[u8], creds: &Option<Credentials>) -> (r: Result<
    Option<Vec<u8>>,
    String,
>)
    requires
        reply@.len() == 2,
    ensures
        message_view(r) == method_answer(reply@, *creds),
{
    if reply[0] != 5 || reply[1] == 0xff {
        return Err("proxy rejected the authentication method".to_owned());
    }
    if reply[1] != 2 {
        return Ok(None);
    }
    let mut message: Vec<u8> = Vec::new();
    message.push(1);
    match creds {
        Some(c) => {
            let username = c.username.as_str().as_bytes();
            let password = c.password.as_str().as_bytes();
            let (m, n): (usize, usize) = (username.len(), password.len());
            if m > 255 || n > 255 {
                return Err("credentials too long for SOCKS5".to_owned());
            }
            message.push(m as u8);
            message.extend_from_slice(username);
            message.push(n as u8);
            message.extend_from_slice(password);
            assert(message@ =~= login_bytes(username@, password@));
        },
        None => {
            message.push(0);
            message.push(0);
            assert(message@ =~= login_bytes(Seq::empty(), Seq::empty()));
        },
    }
    Ok(Some(message))
}

/// A request, and what it is for.
pub struct Request {
    pub bytes: Vec<u8>,
    pub what: String,
}

/// What a [`Request`] says.
pub struct RequestView {
    pub bytes: Seq<u8>,
    pub what: Seq<char>,
}

impl View for Request {
    type V = RequestView;

    open spec fn view(&self) -> RequestView {
        RequestView { bytes: self.bytes@, what: self.what@ }
    }
}

/// The request to connect to 1.1.1.1, port 443.
pub open spec fn connect_request() -> RequestView {
    RequestView {
        bytes: seq![5u8, 1, 0, 1, 1, 1, 1, 1, 0x01, 0xbb],
        what: "CONNECT to 1.1.1.1:443"@,
    }
}

/// The request for a UDP relay.
pub open spec fn relay_request() -> RequestView {
    RequestView { bytes: seq![5u8, 3, 0, 1, 0, 0, 0, 0, 0, 0], what: "UDP ASSOCIATE"@ }
}

fn make_connect_request() -> (r: Request)
    ensures
        r@ == connect_request(),
{
    let r = Request {
        bytes: vec![5, 1, 0, 1, 1, 1, 1, 1, 0x01, 0xbb],
        what: "CONNECT to 1.1.1.1:443".to_owned(),
    };
    assert(r@.bytes =~= connect_request().bytes);
    r
}

fn make_relay_request() -> (r: Request)
    ensures
        r@ == relay_request(),
{
    let r = Request {
        bytes: vec![5, 3, 0, 1, 0, 0, 0, 0, 0, 0],
        what: "UDP ASSOCIATE".to_owned(),
    };
    assert(r@.bytes =~= relay_request().bytes);
    r
}

/// Why a request was refused.
pub open spec fn refusal(what: Seq<char>, code: u8) -> Seq<char> {
    "proxy refused "@ + what + " (reply code "@ + text::decimal_text(code as nat) + ")"@
}

fn refuse(what: &str, code: u8) -> (r: String)
    ensures
        r@ == refusal(what@, code),
{
    let mut why = "proxy refused ".to_owned();
    why.append(what);
    why.append(" (reply code ");
    why.append(text::decimal(code as u64).as_str());
    why.append(")");
    why
}

// ---------------------------------------------------------------------------
// One session
// ---------------------------------------------------------------------------

/// Where a session stands.
#[derive(Debug, Clone, Copy, PartialEq, Eq, Structural)]
pub enum Stage {
    /// The greeting is to be sent.
    Greeting,
    /// The choice of an authentication method is to be read.
    Method,
    /// The login is to be sent.
    Login,
    /// The answer to the login is to be read.
    LoginReply,
    /// The request is to be sent.
    Asking,
    /// The head of the answer to the request is to be read.
    Head,
    /// The session is over: everything was granted, or something was refused.
    Over,
}

/// A session.
pub struct Talk {
    stage: Stage,
    creds: Option<Credentials>,
    request: Option<Request>,
    message: Vec<u8>,
    error: Option<String>,
}

/// What a [`Talk`] says.
#[verifier::ext_equal]
pub struct TalkView {
    pub stage: Stage,
    pub creds: Option<Credentials>,
    pub request: Option<RequestView>,
    /// What is to be sent next, or was sent last.
    pub message: Seq<u8>,
    /// Why the proxy refused.
    pub error: Option<Seq<char>>,
}

/// The view of an optional request.
pub open spec fn opt_request(r: Option<Request>) -> Option<RequestView> {
    match r {
        Some(x) => Some(x@),
        None => None,
    }
}

impl View for Talk {
    type V = TalkView;

    closed spec fn view(&self) -> TalkView {
        TalkView {
            stage: self.stage,
            creds: self.creds,
            request: opt_request(self.request),
            message: self.message@,
            error: models::opt_text(self.error),
        }
    }
}

/// A session that has not begun.
pub open spec fn fresh(creds: Option<Credentials>, request: Option<RequestView>) -> TalkView {
    TalkView {
        stage: Stage::Greeting,
        creds,
        request,
        message: greeting_bytes(creds is Some),
        error: None,
    }
}

impl TalkView {
    /// The session once it is open: the request is next, where there is one.
    pub open spec fn opened(self) -> TalkView {
        match self.request {
            Some(q) => TalkView { stage: Stage::Asking, message: q.bytes, ..self },
            None => TalkView { stage: Stage::Over, ..self },
        }
    }

    /// The session, ended by a refusal.
    pub open spec fn refused(self, why: Seq<char>) -> TalkView {
        TalkView { stage: Stage::Over, error: Some(why), ..self }
    }
}

/// Whether bytes are to be sent.
pub open spec fn is_sending(stage: Stage) -> bool {
    stage == Stage::Greeting || stage == Stage::Login || stage == Stage::Asking
}

/// How many bytes are to be read.
pub open spec fn to_read(stage: Stage) -> nat {
    match stage {
        Stage::Method | Stage::LoginReply => 2,
        Stage::Head => 4,
        _ => 0,
    }
}

/// The session once its message was sent.
pub open spec fn after_sending(t: TalkView) -> TalkView {
    match t.stage {
        Stage::Greeting => TalkView { stage: Stage::Method, ..t },
        Stage::Login => TalkView { stage: Stage::LoginReply, ..t },
        Stage::Asking => TalkView { stage: Stage::Head, ..t },
        _ => t,
    }
}

/// The session once `reply` was read; the same session, where that is not as much as was
/// to be read.
pub open spec fn after_reading(t: TalkView, reply: Seq<u8>) -> TalkView {
    if reply.len() != to_read(t.stage) {
        t
    } else {
        after_reply(t, reply)
    }
}

/// The session once all of `reply` was read.
pub open spec fn after_reply(t: TalkView, reply: Seq<u8>) -> TalkView {
    match t.stage {
        Stage::Method => match method_answer(reply, t.creds) {
            Err(why) => t.refused(why),
            Ok(Some(message)) => TalkView { stage: Stage::Login, message, ..t },
            Ok(None) => t.opened(),
        },
        Stage::LoginReply => if reply[1] != 0 {
            t.refused("proxy rejected the credentials"@)
        } else {
            t.opened()
        },
        Stage::Head => if reply[1] != 0 {
            t.refused(refusal(t.request->0.what, reply[1]))
        } else {
            TalkView { stage: Stage::Over, ..t }
        },
        _ => t,
    }
}

impl Talk {
    #[verifier::type_invariant]
    spec fn inv(self) -> bool {
        self.stage == Stage::Head || self.stage == Stage::Asking ==> self.request is Some
    }

    /// A session that has not begun.
    pub fn new(creds: Option<Credentials>, request: Option<Request>) -> (r: Talk)
        ensures
            r@ == fresh(creds, opt_request(request)),
    {
        let message = greeting(creds.is_some());
        Talk { stage: Stage::Greeting, creds, request, message, error: None }
    }

    /// Where the session stands.
    pub fn stage(&self) -> (r: Stage)
        ensures
            r == self@.stage,
    {
        self.stage
    }

    /// What is to be sent.
    pub fn message(&self) -> (r: &Vec<u8>)
        ensures
            r@ == self@.message,
    {
        &self.message
    }

    /// Why the proxy refused.
    pub fn error(&self) -> (r: Option<&String>)
        ensures
            (match r {
                Some(e) => Some(e@),
                None => None,
            }) == self@.error,
    {
        self.error.as_ref()
    }

    /// Take note that the message was sent; nothing changes where none was to be sent.
    pub fn sent(self) -> (r: Talk)
        ensures
            r@ == after_sending(self@),
    {
        proof {
            use_type_invariant(&self);
        }
        let stage = match self.stage {
            Stage::Greeting => Stage::Method,
            Stage::Login => Stage::LoginReply,
            Stage::Asking => Stage::Head,
            stage => stage,
        };
        Talk { stage, ..self }
    }

    fn opened(self) -> (r: Talk)
        ensures
            r@ == self@.opened(),
    {
        let message: Vec<u8> = match &self.request {
            Some(q) => {
                let copy = q.bytes.clone();
                assert(copy@ =~= q.bytes@);
                copy
            },
            None => {
                return Talk { stage: Stage::Over, ..self };
            },
        };
        Talk { stage: Stage::Asking, message, ..self }
    }

    /// How many bytes are to be read.
    pub fn wanted(&self) -> (r: usize)
        ensures
            r == to_read(self@.stage),
    {
        match self.stage {
            Stage::Method | Stage::LoginReply => 2,
            Stage::Head => 4,
            _ => 0,
        }
    }

    /// Take note of what was read; nothing changes where that is not as much as was to be
    /// read.
    pub fn received(self, reply: &[u8]) -> (r: Talk)
        ensures
            r@ == after_reading(self@, reply@),
    {
        proof {
            use_type_invariant(&self);
        }
        if reply.len() != self.wanted() {
            return self;
        }
        match self.stage {
            Stage::Method => match after_method(reply, &self.creds) {
                Err(why) => Talk { stage: Stage::Over, error: Some(why), ..self },
                Ok(Some(message)) => Talk { stage: Stage::Login, message, ..self },
                Ok(None) => self.opened(),
            },
            Stage::LoginReply => if reply[1] != 0 {
                Talk {
                    stage: Stage::Over,
                    error: Some("proxy rejected the credentials".to_owned()),
                    ..self
                }
            } else {
                self.opened()
            },
            Stage::Head => if reply[1] != 0 {
                let why = match &self.request {
                    Some(q) => refuse(q.what.as_str(), reply[1]),
                    None => String::new(),
                };
                Talk { stage: Stage::Over, error: Some(why), ..self }
            } else {
                Talk { stage: Stage::Over, ..self }
            },
            _ => self,
        }
    }
}

// ---------------------------------------------------------------------------
// The probe
// ---------------------------------------------------------------------------

/// What the probe does next.
#[derive(Debug, Clone, Copy, PartialEq, Eq, Structural)]
pub enum ProbePhase {
    /// Open a session without a request.
    Session,
    /// The session was not opened: find out whether the proxy can be connected to at
    /// all, to tell a refused login from an unreachable proxy.
    Reach,
    /// Ask for a connection, in a fresh session.
    Connect,
    /// Ask for a UDP relay, in a fresh session. It is optional in SOCKS5.
    Relay,
    Finished,
}

/// What came of a phase: how a session went, or whether the proxy was reached.
pub enum ProbeOutcome {
    Session(Result<(), String>),
    Reached(bool),
}

/// Whether an outcome is one of the phase's.
pub open spec fn fits(phase: ProbePhase, o: ProbeOutcome) -> bool {
    match phase {
        ProbePhase::Session | ProbePhase::Connect | ProbePhase::Relay => o is Session,
        ProbePhase::Reach => o is Reached,
        ProbePhase::Finished => false,
    }
}

/// A probe that is under way. It never fails: its result says how far it got.
pub struct Socks5Probe {
    phase: ProbePhase,
    /// Why the session was not opened.
    error: String,
    connect: Result<(), String>,
    result: ProxyTestResult,
}

/// What a [`Socks5Probe`] says.
#[verifier::ext_equal]
pub struct ProbeView {
    pub phase: ProbePhase,
    pub error: Seq<char>,
    pub connect: Result<(), String>,
    pub result: ProxyTestResult,
}

impl View for Socks5Probe {
    type V = ProbeView;

    closed spec fn view(&self) -> ProbeView {
        ProbeView {
            phase: self.phase,
            error: self.error@,
            connect: self.connect,
            result: self.result,
        }
    }
}

/// Whether a probe has done nothing yet: a session is to be opened, nothing was refused,
/// and the result says that nothing was found to work and that nothing went wrong.
pub open spec fn is_untried(t: ProbeView) -> bool {
    &&& t.phase == ProbePhase::Session
    &&& t.error.len() == 0
    &&& t.connect is Ok
    &&& probe::says(t.result, false, false, false, false, false, None)
}

/// What a probe becomes, given what came of the phase; what it was, where the outcome is
/// not one of the phase's.
pub open spec fn is_next(n: ProbeView, t: ProbeView, o: ProbeOutcome) -> bool {
    match (t.phase, o) {
        (ProbePhase::Session, ProbeOutcome::Session(Ok(_))) => n == (ProbeView {
            phase: ProbePhase::Connect,
            ..t
        }),
        (ProbePhase::Session, ProbeOutcome::Session(Err(e))) => n == (ProbeView {
            phase: ProbePhase::Reach,
            error: e@,
            ..t
        }),
        (ProbePhase::Reach, ProbeOutcome::Reached(reachable)) => n.phase == ProbePhase::Finished
            && probe::says(n.result, reachable, false, false, false, false, Some(t.error)),
        (ProbePhase::Connect, ProbeOutcome::Session(r)) => n == (ProbeView {
            phase: ProbePhase::Relay,
            connect: r,
            ..t
        }),
        (ProbePhase::Relay, ProbeOutcome::Session(r)) => n.phase == ProbePhase::Finished
            && probe::says(
            n.result,
            true,
            true,
            t.connect is Ok,
            r is Ok,
            false,
            probe::first_error(t.connect, r),
        ),
        _ => n == t,
    }
}

impl Socks5Probe {
    /// A probe that has done nothing yet.
    pub fn new() -> (r: Socks5Probe)
        ensures
            is_untried(r@),
    {
        Socks5Probe {
            phase: ProbePhase::Session,
            error: String::new(),
            connect: Ok(()),
            result: ProxyTestResult {
                reachable: false,
                authentication_ok: false,
                tcp_ok: false,
                dns_ok: false,
                ipv4_ok: false,
                ipv6_ok: false,
                udp_ok: false,
                external_ip: None,
                error: None,
            },
        }
    }

    /// What the probe does next.
    pub fn phase(&self) -> (r: ProbePhase)
        ensures
            r == self@.phase,
    {
        self.phase
    }

    /// The session that the phase takes.
    pub fn talk(&self, creds: Option<Credentials>) -> (r: Talk)
        ensures
            r@ == fresh(
                creds,
                match self@.phase {
                    ProbePhase::Connect => Some(connect_request()),
                    ProbePhase::Relay => Some(relay_request()),
                    _ => None,
                },
            ),
    {
        let request = match self.phase {
            ProbePhase::Connect => Some(make_connect_request()),
            ProbePhase::Relay => Some(make_relay_request()),
            _ => None,
        };
        Talk::new(creds, request)
    }

    /// Take note of what came of the phase. An outcome that is not one of the phase's
    /// changes nothing.
    pub fn resume(self, outcome: ProbeOutcome) -> (r: Socks5Probe)
        ensures
            is_next(r@, self@, outcome),
    {
        match (self.phase, outcome) {
            (ProbePhase::Session, ProbeOutcome::Session(r)) => match r {
                Ok(_) => Socks5Probe { phase: ProbePhase::Connect, ..self },
                Err(error) => Socks5Probe { phase: ProbePhase::Reach, error, ..self },
            },
            (ProbePhase::Reach, ProbeOutcome::Reached(reachable)) => {
                let result = probe::session_refused(self.error.clone(), reachable);
                Socks5Probe { phase: ProbePhase::Finished, result, ..self }
            },
            (ProbePhase::Connect, ProbeOutcome::Session(connect)) => Socks5Probe {
                phase: ProbePhase::Relay,
                connect,
                ..self
            },
            (ProbePhase::Relay, ProbeOutcome::Session(relay)) => {
                let Socks5Probe { phase: _, error, connect: first, result: _ } = self;
                let result = probe::session_opened(first, relay);
                Socks5Probe { phase: ProbePhase::Finished, error, connect: Ok(()), result }
            },
            _ => self,
        }
    }

    /// The result of the probe; until it is finished, that nothing was found to work.
    pub fn result(self) -> (r: ProxyTestResult)
        ensures
            r == self@.result,
    {
        self.result
    }
}

// ---------------------------------------------------------------------------
// Laws
// ---------------------------------------------------------------------------

/// A session goes on without an error only where the proxy speaks version 5 and accepted
/// a method, took the login where it asked for one, and granted the request.
pub proof fn session_goes_on_only_when_granted(t: TalkView, reply: Seq<u8>)
    requires
        to_read(t.stage) > 0,
        reply.len() == to_read(t.stage),
        after_reading(t, reply).error is None,
    ensures
        t.stage == Stage::Method ==> reply[0] == 5 && reply[1] != 0xff,
        t.stage == Stage::LoginReply ==> reply[1] == 0,
        t.stage == Stage::Head ==> reply[1] == 0,
{
}

/// The password is sent only to a proxy that asked for the login.
pub proof fn password_is_sent_only_when_asked(t: TalkView, reply: Seq<u8>)
    requires
        t.stage != Stage::Login,
        after_reading(t, reply).stage == Stage::Login,
    ensures
        t.stage == Stage::Method,
        reply[0] == 5,
        reply[1] == 2,
        after_reading(t, reply).message == login_bytes(
            login_parts(t.creds).0,
            login_parts(t.creds).1,
        ),
{
}

/// How many messages a session can still take, at most.
pub open spec fn steps_left(stage: Stage) -> nat {
    match stage {
        Stage::Greeting => 6,
        Stage::Method => 5,
        Stage::Login => 4,
        Stage::LoginReply => 3,
        Stage::Asking => 2,
        Stage::Head => 1,
        Stage::Over => 0,
    }
}

/// Every session ends: each message that is sent or read in full leaves fewer to come.
pub proof fn sessions_end(t: TalkView, reply: Seq<u8>)
    ensures
        is_sending(t.stage) ==> steps_left(after_sending(t).stage) < steps_left(t.stage),
        to_read(t.stage) > 0 && reply.len() == to_read(t.stage) ==> steps_left(
            after_reading(t, reply).stage,
        ) < steps_left(t.stage),
{
}

/// How many phases a probe can still take, at most.
pub open spec fn probe_phases_left(phase: ProbePhase) -> nat {
    match phase {
        ProbePhase::Session => 3,
        ProbePhase::Connect => 2,
        ProbePhase::Reach | ProbePhase::Relay => 1,
        ProbePhase::Finished => 0,
    }
}

/// Every probe ends: each phase leaves fewer to come. Until then its result is what it was
/// at the beginning, and an outcome that is not one of the phase's changes nothing.
pub proof fn probes_end(n: ProbeView, t: ProbeView, o: ProbeOutcome)
    requires
        is_next(n, t, o),
    ensures
        fits(t.phase, o) ==> probe_phases_left(n.phase) < probe_phases_left(t.phase),
        n.phase != ProbePhase::Finished ==> n.result == t.result,
        !fits(t.phase, o) ==> n == t,
{
}

/// The user name that stands in a login message.
pub open spec fn login_username(message: Seq<u8>) -> Seq<u8> {
    message.subrange(2, 2 + message[1] as int)
}

/// The password that stands in a login message.
pub open spec fn login_password(message: Seq<u8>) -> Seq<u8> {
    let at = 2 + message[1] as int;
    message.subrange(at + 1, at + 1 + message[at] as int)
}

/// A login says the user name and the password, and nothing else.
pub proof fn login_reads_back(username: Seq<u8>, password: Seq<u8>)
    requires
        username.len() <= 255,
        password.len() <= 255,
    ensures
        login_username(login_bytes(username, password)) == username,
        login_password(login_bytes(username, password)) == password,
        login_bytes(username, password).len() == 3 + username.len() + password.len(),
{
    let m = login_bytes(username, password);
    assert(login_username(m) =~= username);
    assert(m[2 + username.len() as int] == password.len());
    assert(login_password(m) =~= password);
}

/// What opens a session names version 5 and one method: the login where there are
/// credentials, and none where there are not.
pub proof fn greeting_offers_one_method(login: bool)
    ensures
        ({
            let g = greeting_bytes(login);
            &&& g.len() == 3
            &&& g[0] == 5
            &&& g[1] == 1
            &&& g[2] == 2 <==> login
            &&& g[2] == 0 <==> !login
        }),
{
}

/// The requests are of version 5: one to connect to the address 1.1.1.1 and port 443, the
/// other for a UDP relay from anywhere.
pub proof fn requests_ask_for_what_they_say()
    ensures
        ({
            let c = connect_request().bytes;
            &&& c.len() == 10
            &&& c[0] == 5 && c[1] == 1 && c[2] == 0 && c[3] == 1
            &&& c[4] == 1 && c[5] == 1 && c[6] == 1 && c[7] == 1
            &&& c[8] * 256 + c[9] == 443
        }),
        ({
            let u = relay_request().bytes;
            &&& u.len() == 10
            &&& u[0] == 5 && u[1] == 3 && u[2] == 0 && u[3] == 1
            &&& u.skip(4) == seq![0u8, 0, 0, 0, 0, 0]
        }),
{
    assert(relay_request().bytes.skip(4) =~= seq![0u8, 0, 0, 0, 0, 0]);
}

/// Where a proxy wants no login, the request follows its choice of a method at once; where
/// it wants one, the login follows, and the request once it was taken.
pub proof fn request_follows_the_login(creds: Option<Credentials>, q: RequestView, answer: Seq<u8>)
    requires
        answer.len() == 2,
        answer[1] == 0,
        login_parts(creds).0.len() <= 255,
        login_parts(creds).1.len() <= 255,
    ensures
        ({
            let begun = after_sending(fresh(creds, Some(q)));
            let plain = after_reading(begun, seq![5u8, 0]);
            let asked = after_reading(begun, seq![5u8, 2]);
            let taken = after_reading(after_sending(asked), answer);
            &&& fresh(creds, Some(q)).stage == Stage::Greeting
            &&& fresh(creds, Some(q)).message[2] == 2 <==> creds is Some
            &&& plain.stage == Stage::Asking && plain.message == q.bytes && plain.error is None
            &&& asked.stage == Stage::Login && asked.error is None
            &&& login_username(asked.message) == login_parts(creds).0
            &&& login_password(asked.message) == login_parts(creds).1
            &&& taken.stage == Stage::Asking && taken.message == q.bytes && taken.error is None
        }),
{
    login_reads_back(login_parts(creds).0, login_parts(creds).1);
}

/// A request ends the session, granted just where the code in its answer is 0; a refusal
/// names the request and the code.
pub proof fn answer_ends_the_session(t: TalkView, head: Seq<u8>)
    requires
        t.stage == Stage::Asking,
        t.request is Some,
        t.error is None,
        head.len() == 4,
    ensures
        ({
            let over = after_reading(after_sending(t), head);
            &&& over.stage == Stage::Over
            &&& over.error is None <==> head[1] == 0
            &&& head[1] != 0 ==> over.error == Some(
                "proxy refused "@ + t.request->0.what + " (reply code "@ + text::decimal_text(
                    head[1] as nat,
                ) + ")"@,
            )
        }),
{
}

/// A login that is refused ends the session, and so does a proxy that accepts no method or
/// does not speak version 5.
pub proof fn refused_login_ends_the_session(t: TalkView, reply: Seq<u8>)
    requires
        reply.len() == 2,
        t.stage == Stage::LoginReply && reply[1] != 0 || t.stage == Stage::Method && (reply[0] != 5
            || reply[1] == 255),
    ensures
        after_reading(t, reply).stage == Stage::Over,
        after_reading(t, reply).error is Some,
{
}

/// A probe opens a session, then asks for a connection, then for a relay; its result says
/// what came of each.
pub proof fn probe_tells_what_was_granted(
    t: ProbeView,
    opened: ProbeView,
    connected: ProbeView,
    done: ProbeView,
    connect: Result<(), String>,
    relay: Result<(), String>,
)
    requires
        is_untried(t),
        is_next(opened, t, ProbeOutcome::Session(Ok(()))),
        is_next(connected, opened, ProbeOutcome::Session(connect)),
        is_next(done, connected, ProbeOutcome::Session(relay)),
    ensures
        t.phase == ProbePhase::Session,
        opened.phase == ProbePhase::Connect,
        connected.phase == ProbePhase::Relay,
        done.phase == ProbePhase::Finished,
        done.result.reachable && done.result.authentication_ok,
        done.result.tcp_ok == connect is Ok,
        done.result.ipv4_ok == connect is Ok,
        done.result.udp_ok == relay is Ok,
        !done.result.dns_ok && !done.result.ipv6_ok,
        done.result.error is None <==> connect is Ok && relay is Ok,
        connect is Err ==> done.result.error is Some && done.result.error->0@ == connect->Err_0@,
        connect is Ok && relay is Err ==> done.result.error is Some && done.result.error->0@
            == relay->Err_0@,
{
}

/// A probe whose session is refused finds out whether the proxy is there at all, and says
/// so beside the reason; it says that nothing else works.
pub proof fn refused_probe_tells_why(
    t: ProbeView,
    refused: ProbeView,
    done: ProbeView,
    why: String,
    reachable: bool,
)
    requires
        is_untried(t),
        is_next(refused, t, ProbeOutcome::Session(Err(why))),
        is_next(done, refused, ProbeOutcome::Reached(reachable)),
    ensures
        refused.phase == ProbePhase::Reach,
        done.phase == ProbePhase::Finished,
        done.result.reachable == reachable,
        !done.result.authentication_ok && !done.result.tcp_ok && !done.result.udp_ok,
        done.result.error is Some && done.result.error->0@ == why@,
{
}

/// Credentials that do not fit into a login are refused and never sent cut short.
pub proof fn long_credentials_are_not_sent(t: TalkView, reply: Seq<u8>)
    requires
        t.stage == Stage::Method,
        reply.len() == 2,
        reply[0] == 5,
        reply[1] == 2,
    ensures
        login_parts(t.creds).0.len() > 255 || login_parts(t.creds).1.len() > 255 <==> after_reading(
            t,
            reply,
        ).error is Some && after_reading(t, reply).stage == Stage::Over,
        login_parts(t.creds).0.len() > 255 || login_parts(t.creds).1.len() > 255 ==> after_reading(
            t,
            reply,
        ).message == t.message,
{
}

/// The user name and the password that are sent are those of the credentials.
pub proof fn login_is_of_the_credentials(c: Credentials)
    ensures
        login_parts(Some(c)).0 == vstd::utf8::encode_utf8(c.username@),
        login_parts(Some(c)).1 == vstd::utf8::encode_utf8(c.password@),
        login_parts(None).0.len() == 0 && login_parts(None).1.len() == 0,
{
}

} // verus!
