//! The results of probes, and the probe of an HTTP proxy.

use crate::dataplane::encode;
use crate::models;
use crate::models::{DnsMode, ProxyProfile, ProxyTestResult};
use crate::text;
use vstd::prelude::*;

verus! {

/// A user name and a password.
pub struct Credentials {
    pub username: String,
    pub password: String,
}

impl Clone for Credentials {
    fn clone(&self) -> (r: Self)
        ensures
            r == *self,
    {
        Credentials { username: self.username.clone(), password: self.password.clone() }
    }
}

// ---------------------------------------------------------------------------
// Results
// ---------------------------------------------------------------------------

/// What a test result says; a probe never learns the external address, and IPv6 is not
/// probed.
pub open spec fn says(
    r: ProxyTestResult,
    reachable: bool,
    authentication: bool,
    tcp: bool,
    udp: bool,
    dns: bool,
    error: Option<Seq<char>>,
) -> bool {
    &&& r.reachable == reachable
    &&& r.authentication_ok == authentication
    &&& r.tcp_ok == tcp
    &&& r.ipv4_ok == tcp
    &&& r.udp_ok == udp
    &&& r.dns_ok == dns
    &&& !r.ipv6_ok
    &&& r.external_ip is None
    &&& models::opt_text(r.error) == error
}

/// The result of a SOCKS5 probe whose session could not be opened; `reachable` tells
/// whether the proxy can be connected to at all.
pub fn session_refused(error: String, reachable: bool) -> (r: ProxyTestResult)
    ensures
        says(r, reachable, false, false, false, false, Some(error@)),
{
    ProxyTestResult {
        reachable,
        authentication_ok: false,
        tcp_ok: false,
        dns_ok: false,
        ipv4_ok: false,
        ipv6_ok: false,
        udp_ok: false,
        external_ip: None,
        error: Some(error),
    }
}

/// The error that a probe shows: that of the connection, or else that of the relay.
pub open spec fn first_error(connect: Result<(), String>, relay: Result<(), String>) -> Option<
    Seq<char>,
> {
    match (connect, relay) {
        (Err(e), _) => Some(e@),
        (Ok(_), Err(e)) => Some(e@),
        (Ok(_), Ok(_)) => None,
    }
}

/// The result of a SOCKS5 probe whose session was opened: what came of the connection
/// and of the UDP relay, which is optional in SOCKS5.
pub fn session_opened(connect: Result<(), String>, relay: Result<(), String>) -> (r: ProxyTestResult)
    ensures
        says(r, true, true, connect is Ok, relay is Ok, false, first_error(connect, relay)),
{
    let tcp = connect.is_ok();
    let udp = relay.is_ok();
    let error = match connect {
        Err(e) => Some(e),
        Ok(_) => match relay {
            Err(e) => Some(e),
            Ok(_) => None,
        },
    };
    ProxyTestResult {
        reachable: true,
        authentication_ok: true,
        tcp_ok: tcp,
        dns_ok: false,
        ipv4_ok: tcp,
        ipv6_ok: false,
        udp_ok: udp,
        external_ip: None,
        error,
    }
}

/// Whether a test resolves a name through the tunnel.
pub open spec fn is_dns_tested(profile: ProxyProfile, running: bool) -> bool {
    running && profile.dns is Proxied
}

/// Whether a test resolves a name through the tunnel: where DNS is proxied and the engine
/// is running.
pub fn tests_dns(profile: &ProxyProfile, running: bool) -> (r: bool)
    ensures
        r == is_dns_tested(*profile, running),
        r == (profile.dns == DnsMode::Proxied && running),
{
    profile.dns == DnsMode::Proxied && running
}

/// The result with what came of resolving a name through the tunnel.
pub fn with_dns(result: ProxyTestResult, dns_ok: bool) -> (r: ProxyTestResult)
    ensures
        r.dns_ok == dns_ok,
        (r.reachable, r.authentication_ok, r.tcp_ok, r.ipv4_ok, r.ipv6_ok, r.udp_ok, r.external_ip)
            == (
            result.reachable,
            result.authentication_ok,
            result.tcp_ok,
            result.ipv4_ok,
            result.ipv6_ok,
            result.udp_ok,
            result.external_ip,
        ),
        models::opt_text(r.error) == (if !dns_ok && result.error is None {
            Some("DNS through the tunnel failed"@)
        } else {
            models::opt_text(result.error)
        }),
{
    let error = match result.error {
        Some(e) => Some(e),
        None => if dns_ok {
            None
        } else {
            Some("DNS through the tunnel failed".to_owned())
        },
    };
    ProxyTestResult { dns_ok, error, ..result }
}

// ---------------------------------------------------------------------------
// HTTP
// ---------------------------------------------------------------------------

/// The bytes of `username:password`.
pub open spec fn basic_bytes(c: Credentials) -> Seq<u8> {
    vstd::utf8::encode_utf8(c.username@ + ":"@ + c.password@)
}

/// The request to an HTTP proxy to connect to 1.1.1.1, port 443.
pub open spec fn http_request_text(creds: Option<Credentials>) -> Seq<char> {
    "CONNECT 1.1.1.1:443 HTTP/1.1\r\nHost: 1.1.1.1:443\r\n"@ + (match creds {
        Some(c) => "Proxy-Authorization: Basic "@ + encode::base64_text(basic_bytes(c)) + "\r\n"@,
        None => ""@,
    }) + "\r\n"@
}

/// The request to an HTTP proxy to connect to 1.1.1.1, port 443.
pub fn http_request(creds: Option<&Credentials>) -> (r: String)
    ensures
        r@ == http_request_text(
            match creds {
                Some(c) => Some(*c),
                None => None,
            },
        ),
{
    let auth = match creds {
        Some(c) => {
            let mut pair = c.username.clone();
            pair.append(":");
            pair.append(c.password.as_str());
            let mut line = "Proxy-Authorization: Basic ".to_owned();
            line.append(encode::base64(pair.as_str().as_bytes()).as_str());
            line.append("\r\n");
            line
        },
        None => "".to_owned(),
    };
    let mut r = "CONNECT 1.1.1.1:443 HTTP/1.1\r\nHost: 1.1.1.1:443\r\n".to_owned();
    r.append(auth.as_str());
    r.append("\r\n");
    r
}

/// The result of an HTTP probe that could not connect.
pub fn http_unreachable(error: String) -> (r: ProxyTestResult)
    ensures
        says(r, false, false, false, false, false, Some(error@)),
{
    session_refused(error, false)
}

/// The status code in the start of an HTTP answer: its second word.
pub open spec fn http_code(status: Seq<char>) -> Seq<char> {
    let words = text::words_text(status);
    if words.len() > 1 {
        words[1]
    } else {
        ""@
    }
}

/// The first line of an answer, or that there was none.
pub open spec fn answer_line(status: Seq<char>) -> Seq<char> {
    let lines = text::lines_text(status);
    if lines.len() > 0 {
        lines[0]
    } else {
        "nothing"@
    }
}

/// The first line of an answer, or that there was none.
pub fn first_line(status: &str) -> (r: String)
    ensures
        r@ == answer_line(status@),
{
    let lines = text::lines(status);
    assert(text::texts(lines@).len() == lines@.len());
    if lines.len() > 0 {
        assert(text::texts(lines@)[0] == lines@[0]@);
        lines[0].clone()
    } else {
        "nothing".to_owned()
    }
}

/// What is said of an answer other than 200; `shown` is its first line, quoted.
pub open spec fn answer_error(shown: Seq<char>) -> Seq<char> {
    "proxy answered "@ + shown + " to CONNECT"@
}

/// Whether `r` is the result of an HTTP probe, given the text of the answer and its first
/// line as it is shown in an error.
pub open spec fn is_verdict(r: ProxyTestResult, status: Seq<char>, shown: Seq<char>) -> bool {
    let code = http_code(status);
    let granted = code == "200"@;
    says(
        r,
        true,
        code != "407"@,
        granted,
        false,
        false,
        if granted {
            None
        } else {
            Some(answer_error(shown))
        },
    )
}

/// The result of an HTTP probe, given the text of the answer and its first line as it
/// is shown in an error: 200 grants the connection, and 407 means bad credentials.
pub fn http_verdict(status: &str, shown: &str) -> (r: ProxyTestResult)
    ensures
        is_verdict(r, status@, shown@),
        says(
            r,
            true,
            http_code(status@) != "407"@,
            http_code(status@) == "200"@,
            false,
            false,
            if http_code(status@) == "200"@ {
                None
            } else {
                Some(answer_error(shown@))
            },
        ),
{
    let words = text::split_whitespace(status);
    assert(text::texts(words@).len() == words@.len());
    let code = if words.len() > 1 {
        assert(text::texts(words@)[1] == words@[1]@);
        words[1].clone()
    } else {
        "".to_owned()
    };
    let granted = text::same_text(code.as_str(), "200");
    let error = if granted {
        None
    } else {
        let mut why = "proxy answered ".to_owned();
        why.append(shown);
        why.append(" to CONNECT");
        Some(why)
    };
    ProxyTestResult {
        reachable: true,
        authentication_ok: !text::same_text(code.as_str(), "407"),
        tcp_ok: granted,
        dns_ok: false,
        ipv4_ok: granted,
        ipv6_ok: false,
        udp_ok: false,
        external_ip: None,
        error,
    }
}

/// The result of an HTTP probe, given the start of the proxy's answer (empty where
/// nothing could be sent or read).
pub fn http_result(reply: &[u8]) -> (r: ProxyTestResult)
    ensures
        ({
            let status = text::shown_text(reply@);
            says(
                r,
                true,
                http_code(status) != "407"@,
                http_code(status) == "200"@,
                false,
                false,
                if http_code(status) == "200"@ {
                    None
                } else {
                    Some(answer_error(text::debug_text(answer_line(status))))
                },
            )
        }),
{
    let status = text::decode(reply);
    let shown = text::debug(first_line(status.as_str()).as_str());
    http_verdict(status.as_str(), shown.as_str())
}

// ---------------------------------------------------------------------------
// Laws
// ---------------------------------------------------------------------------

/// A result says of each check just what came of it.
pub proof fn result_says_each_check(
    r: ProxyTestResult,
    reachable: bool,
    authentication: bool,
    tcp: bool,
    udp: bool,
    dns: bool,
    error: Option<Seq<char>>,
)
    requires
        says(r, reachable, authentication, tcp, udp, dns, error),
    ensures
        r.reachable == reachable,
        r.authentication_ok == authentication,
        r.tcp_ok == tcp,
        r.ipv4_ok == r.tcp_ok,
        r.udp_ok == udp,
        r.dns_ok == dns,
        !r.ipv6_ok,
        r.external_ip is None,
        r.error is None <==> error is None,
        r.error is Some ==> r.error->0@ == error->0,
{
}

/// The error of a probe is that of the connection, where it failed, and that of the relay
/// only where the connection did not; there is none just where both succeeded.
pub proof fn connection_error_comes_first(connect: Result<(), String>, relay: Result<(), String>)
    ensures
        first_error(connect, relay) is None <==> connect is Ok && relay is Ok,
        connect is Err ==> first_error(connect, relay) == Some(connect->Err_0@),
        connect is Ok && relay is Err ==> first_error(connect, relay) == Some(relay->Err_0@),
{
}

/// A request to an HTTP proxy asks for 1.1.1.1, port 443, and carries the credentials where
/// there are any, and only then: the Base64 text in it stands for the user name, a colon and
/// the password.
pub proof fn request_carries_the_credentials(c: Credentials)
    ensures
        exists|code: Seq<char>|
            http_request_text(Some(c))
                == "CONNECT 1.1.1.1:443 HTTP/1.1\r\nHost: 1.1.1.1:443\r\nProxy-Authorization: Basic "@
                + code + "\r\n\r\n"@ && #[trigger] encode::base64_decode(code)
                == vstd::utf8::encode_utf8(c.username@.push(':') + c.password@),
        http_request_text(None) == "CONNECT 1.1.1.1:443 HTTP/1.1\r\nHost: 1.1.1.1:443\r\n\r\n"@,
{
    reveal_strlit(":");
    reveal_strlit("");
    reveal_strlit("\r\n");
    reveal_strlit("\r\n\r\n");
    reveal_strlit("Proxy-Authorization: Basic ");
    reveal_strlit("CONNECT 1.1.1.1:443 HTTP/1.1\r\nHost: 1.1.1.1:443\r\n");
    reveal_strlit("CONNECT 1.1.1.1:443 HTTP/1.1\r\nHost: 1.1.1.1:443\r\n\r\n");
    reveal_strlit(
        "CONNECT 1.1.1.1:443 HTTP/1.1\r\nHost: 1.1.1.1:443\r\nProxy-Authorization: Basic ",
    );
    let code = encode::base64_text(basic_bytes(c));
    encode::base64_reads_back(basic_bytes(c));
    assert(c.username@ + ":"@ + c.password@ =~= c.username@.push(':') + c.password@);
    assert(http_request_text(Some(c))
        =~= "CONNECT 1.1.1.1:443 HTTP/1.1\r\nHost: 1.1.1.1:443\r\nProxy-Authorization: Basic "@ + code
        + "\r\n\r\n"@);
    assert(http_request_text(None)
        =~= "CONNECT 1.1.1.1:443 HTTP/1.1\r\nHost: 1.1.1.1:443\r\n\r\n"@);
    assert(encode::base64_decode(code) == vstd::utf8::encode_utf8(
        c.username@.push(':') + c.password@,
    ));
}

/// The status code of an answer is the word behind the first word of it.
pub proof fn status_code_is_the_second_word(
    version: Seq<char>,
    code: Seq<char>,
    reason: Seq<char>,
)
    requires
        text::is_one_word(version),
        text::is_one_word(code),
    ensures
        http_code(version.push(' ') + (code.push(' ') + reason)) == code,
{
    text::word_in_front(code, reason);
    text::word_in_front(version, code.push(' ') + reason);
}

/// The line that is shown of an answer is its first: what stands before the first line end.
pub proof fn shown_line_is_the_first(line: Seq<char>, rest: Seq<char>)
    requires
        forall|i: int| 0 <= i < line.len() ==> #[trigger] line[i] != '\n' && line[i] != '\r',
    ensures
        answer_line(line.push('\r').push('\n') + rest) == line,
        answer_line(line.push('\n') + rest) == line,
        line.len() > 0 ==> answer_line(line) == line,
{
    let ended = line.push('\r');
    assert(ended.drop_last() =~= line);
    text::lines_after_the_first(ended, rest);
    text::lines_after_the_first(line, rest);
    text::lines_of_one_line(line);
}

/// An HTTP proxy that answers at all is reachable. The connection is granted just where the
/// second word of its answer is 200, and there is an error just where it is not, which shows
/// the answer; the credentials are bad just where that word is 407.
pub proof fn http_answers_are_told_apart(
    r: ProxyTestResult,
    version: Seq<char>,
    code: Seq<char>,
    reason: Seq<char>,
    shown: Seq<char>,
)
    requires
        text::is_one_word(version),
        text::is_one_word(code),
        is_verdict(r, version.push(' ') + (code.push(' ') + reason), shown),
    ensures
        r.reachable,
        r.tcp_ok <==> code == "200"@,
        r.ipv4_ok <==> code == "200"@,
        !r.authentication_ok <==> code == "407"@,
        r.error is None <==> code == "200"@,
        r.error is Some ==> r.error->0@ == "proxy answered "@ + shown + " to CONNECT"@,
        !r.udp_ok && !r.dns_ok && !r.ipv6_ok,
{
    status_code_is_the_second_word(version, code, reason);
}

/// A name is resolved through the tunnel just where there is a tunnel that carries DNS.
pub proof fn dns_is_tested_where_proxied(profile: ProxyProfile)
    ensures
        !is_dns_tested(profile, false),
        is_dns_tested(profile, true) <==> profile.dns is Proxied,
{
}

} // verus!
