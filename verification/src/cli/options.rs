//! Options of the command line.

use crate::models::{LocalNetMode, ProxyType, UdpMode};
use crate::text;
use vstd::prelude::*;

verus! {

/// The UDP mode that an option names; letter case does not matter.
pub open spec fn udp_named(name: Seq<char>) -> Option<UdpMode> {
    if name == "proxy"@ {
        Some(UdpMode::Proxy)
    } else if name == "block"@ {
        Some(UdpMode::Block)
    } else if name == "direct"@ {
        Some(UdpMode::Direct)
    } else {
        None
    }
}

/// The UDP mode that `raw` names, or why it names none.
pub fn parse_udp(raw: &str) -> (r: Result<UdpMode, String>)
    ensures
        match udp_named(text::lowered(raw@)) {
            Some(m) => r == Ok::<UdpMode, String>(m),
            None => r matches Err(e) && e@ == "unknown UDP mode '"@ + text::lowered(raw@)
                + "' (proxy, block, direct)"@,
        },
{
    let name = text::to_lowercase(raw);
    if text::same_text(name.as_str(), "proxy") {
        return Ok(UdpMode::Proxy);
    }
    if text::same_text(name.as_str(), "block") {
        return Ok(UdpMode::Block);
    }
    if text::same_text(name.as_str(), "direct") {
        return Ok(UdpMode::Direct);
    }
    let mut why = "unknown UDP mode '".to_owned();
    why.append(name.as_str());
    why.append("' (proxy, block, direct)");
    Err(why)
}

/// The local-network mode that an option names; letter case does not matter.
pub open spec fn local_named(name: Seq<char>) -> Option<LocalNetMode> {
    if name == "proxy"@ {
        Some(LocalNetMode::Proxy)
    } else if name == "direct"@ {
        Some(LocalNetMode::Direct)
    } else if name == "block"@ {
        Some(LocalNetMode::Block)
    } else {
        None
    }
}

/// The local-network mode that `raw` names, or why it names none.
pub fn parse_local_network(raw: &str) -> (r: Result<LocalNetMode, String>)
    ensures
        match local_named(text::lowered(raw@)) {
            Some(m) => r == Ok::<LocalNetMode, String>(m),
            None => r matches Err(e) && e@ == "unknown local-network mode '"@ + text::lowered(raw@)
                + "' (proxy, direct, block)"@,
        },
{
    let name = text::to_lowercase(raw);
    if text::same_text(name.as_str(), "proxy") {
        return Ok(LocalNetMode::Proxy);
    }
    if text::same_text(name.as_str(), "direct") {
        return Ok(LocalNetMode::Direct);
    }
    if text::same_text(name.as_str(), "block") {
        return Ok(LocalNetMode::Block);
    }
    let mut why = "unknown local-network mode '".to_owned();
    why.append(name.as_str());
    why.append("' (proxy, direct, block)");
    Err(why)
}

/// The proxy type that an option names; letter case does not matter.
pub open spec fn type_named(name: Seq<char>) -> Option<ProxyType> {
    if name == "socks5"@ || name == "socks"@ {
        Some(ProxyType::Socks5)
    } else if name == "http"@ {
        Some(ProxyType::Http)
    } else {
        None
    }
}

/// The proxy type that `raw` names, or why it names none.
pub fn parse_proxy_type(raw: &str) -> (r: Result<ProxyType, String>)
    ensures
        match type_named(text::lowered(raw@)) {
            Some(t) => r == Ok::<ProxyType, String>(t),
            None => r matches Err(e) && e@ == "unsupported proxy type '"@ + text::lowered(raw@)
                + "' (supported: socks5, http)"@,
        },
{
    let name = text::to_lowercase(raw);
    if text::same_text(name.as_str(), "socks5") || text::same_text(name.as_str(), "socks") {
        return Ok(ProxyType::Socks5);
    }
    if text::same_text(name.as_str(), "http") {
        return Ok(ProxyType::Http);
    }
    let mut why = "unsupported proxy type '".to_owned();
    why.append(name.as_str());
    why.append("' (supported: socks5, http)");
    Err(why)
}

/// `line` without the line ends behind it.
pub open spec fn without_line_end(line: Seq<char>) -> Seq<char>
    decreases line.len(),
{
    if line.len() > 0 && (line.last() == '\r' || line.last() == '\n') {
        without_line_end(line.drop_last())
    } else {
        line
    }
}

/// The passphrase on a line of input.
pub fn passphrase(line: &str) -> (r: String)
    ensures
        r@ == without_line_end(line@),
{
    let chars = text::chars_of(line);
    let mut n: usize = chars.len();
    assert(chars@.take(n as int) =~= chars@);
    while n > 0 && (chars[n - 1] == '\r' || chars[n - 1] == '\n')
        invariant
            n <= chars@.len(),
            without_line_end(chars@) == without_line_end(chars@.take(n as int)),
        decreases n,
    {
        proof {
            assert(chars@.take(n as int).last() == chars@[n - 1]);
            assert(chars@.take(n as int).drop_last() =~= chars@.take(n - 1));
        }
        n -= 1;
    }
    proof {
        if n > 0 {
            assert(chars@.take(n as int).last() == chars@[n - 1]);
        }
        assert(chars@.take(n as int) =~= chars@.subrange(0, n as int));
    }
    text::string_of(&chars, 0, n)
}

// ---------------------------------------------------------------------------
// Laws
// ---------------------------------------------------------------------------

/// The name of a UDP mode names it.
pub proof fn udp_names_read_back(m: UdpMode)
    ensures
        udp_named(text::lowered(m.name())) == Some(m),
{
    reveal_strlit("proxy");
    reveal_strlit("block");
    reveal_strlit("direct");
    assert(text::lowered(m.name()) =~= m.name());
    assert("proxy"@[0] == 'p' && "block"@[0] == 'b' && "direct"@[0] == 'd');
}

/// The name of a local-network mode names it.
pub proof fn local_names_read_back(m: LocalNetMode)
    ensures
        local_named(text::lowered(m.name())) == Some(m),
{
    reveal_strlit("proxy");
    reveal_strlit("block");
    reveal_strlit("direct");
    assert(text::lowered(m.name()) =~= m.name());
    assert("proxy"@[0] == 'p' && "block"@[0] == 'b' && "direct"@[0] == 'd');
}

/// The name of a proxy type names it.
pub proof fn type_names_read_back(t: ProxyType)
    ensures
        type_named(text::lowered(t.name())) == Some(t),
{
    reveal_strlit("socks5");
    reveal_strlit("socks");
    reveal_strlit("http");
    assert(text::lowered(t.name()) =~= t.name());
    assert("socks5"@[0] == 's' && "socks"@[0] == 's' && "http"@[0] == 'h');
}

/// A passphrase is its line without the line ends behind it: what is cut is line ends and
/// nothing else, and none is left.
pub proof fn passphrase_loses_line_ends_only(line: Seq<char>)
    ensures
        without_line_end(line).len() <= line.len(),
        without_line_end(line) == line.take(without_line_end(line).len() as int),
        forall|i: int|
            without_line_end(line).len() <= i < line.len() ==> #[trigger] line[i] == '\r' || line[i]
                == '\n',
        without_line_end(line).len() > 0 ==> without_line_end(line).last() != '\r'
            && without_line_end(line).last() != '\n',
    decreases line.len(),
{
    if line.len() > 0 && (line.last() == '\r' || line.last() == '\n') {
        let shorter = line.drop_last();
        passphrase_loses_line_ends_only(shorter);
        let n = without_line_end(line).len() as int;
        assert(shorter.take(n) =~= line.take(n));
        assert forall|i: int| n <= i < line.len() implies #[trigger] line[i] == '\r' || line[i]
            == '\n' by {
            if i < shorter.len() {
                assert(shorter[i] == line[i]);
            }
        }
    } else {
        assert(line.take(line.len() as int) =~= line);
    }
}

/// The words that name modes and proxy types, each what it names; no other word does.
pub proof fn words_name_what_they_say(name: Seq<char>)
    ensures
        udp_named(name) == Some(UdpMode::Proxy) <==> name == "proxy"@,
        udp_named(name) == Some(UdpMode::Block) <==> name == "block"@,
        udp_named(name) == Some(UdpMode::Direct) <==> name == "direct"@,
        local_named(name) == Some(LocalNetMode::Proxy) <==> name == "proxy"@,
        local_named(name) == Some(LocalNetMode::Block) <==> name == "block"@,
        local_named(name) == Some(LocalNetMode::Direct) <==> name == "direct"@,
        type_named(name) == Some(ProxyType::Http) <==> name == "http"@,
        type_named(name) == Some(ProxyType::Socks5) <==> name == "socks5"@ || name == "socks"@,
{
    reveal_strlit("http");
    reveal_strlit("socks5");
    reveal_strlit("socks");
    reveal_strlit("proxy");
    reveal_strlit("block");
    reveal_strlit("direct");
    assert("http"@[0] == 'h' && "socks5"@[0] == 's' && "socks"@[0] == 's');
    assert("proxy"@[0] == 'p' && "block"@[0] == 'b' && "direct"@[0] == 'd');
}

} // verus!
