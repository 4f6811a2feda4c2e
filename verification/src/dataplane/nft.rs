//! How nft reads the ruleset: what the words of a rule mean for a packet.
//!
//! The script is text. This is a reading of that text alone, and what follows from it: the
//! rules as they are written match and do what [`leaks`] says of them.

use crate::addr;
use crate::addr::ProxyAddr;
use crate::dataplane::leaks;
use crate::dataplane::leaks::{Destination, Packet, Transport};
use crate::dataplane::ruleset;
use crate::dataplane::ruleset::{Rule, RulesetParams};
use crate::text;
use vstd::prelude::*;

verus! {

// ---------------------------------------------------------------------------
// The reading
// ---------------------------------------------------------------------------

/// What a rule does with a packet that it matches.
pub enum Verdict {
    Accept,
    Drop,
    Reject,
    /// The packet gets this mark.
    Mark(nat),
    /// The packet goes to this address and port instead.
    Redirect(Seq<char>),
}

/// The value of a hexadecimal digit.
pub open spec fn hex_digit(c: char) -> nat {
    if '0' <= c <= '9' {
        (c as u32 - 48) as nat
    } else if 'a' <= c <= 'f' {
        (c as u32 - 87) as nat
    } else {
        0
    }
}

/// The number that hexadecimal digits stand for.
pub open spec fn hex_number(s: Seq<char>) -> nat
    decreases s.len(),
{
    if s.len() == 0 {
        0
    } else {
        hex_number(s.drop_last()) * 16 + hex_digit(s.last())
    }
}

/// The number after `0x`.
pub open spec fn prefixed_number(s: Seq<char>) -> Option<nat> {
    if s.len() > 2 && s[0] == '0' && s[1] == 'x' {
        Some(hex_number(s.skip(2)))
    } else {
        None
    }
}

/// Whether a quoted word names an interface.
pub open spec fn names(word: Seq<char>, oif: Seq<char>) -> bool {
    word == seq!['"'] + oif + seq!['"']
}

/// Two to the power of `n`.
pub open spec fn two_to(n: nat) -> nat
    decreases n,
{
    if n == 0 {
        1
    } else {
        2 * two_to((n - 1) as nat)
    }
}

/// An IPv4 address as a number.
pub open spec fn number_of(a: nat, b: nat, c: nat, d: nat) -> nat {
    a * 0x1000000 + b * 0x10000 + c * 0x100 + d
}

/// How an address is printed.
pub open spec fn printed(d: Destination) -> Seq<char> {
    match d {
        Destination::V4(a, b, c, e) => addr::dotted(a, b, c, e),
        Destination::V6(_, _, shown) => shown,
    }
}

/// Whether an address is what a word says: the address that is printed so, or one in the
/// network with that address and prefix length.
pub open spec fn is_at(word: Seq<char>, d: Destination) -> bool {
    let parts = text::split_text(word, '/');
    if parts.len() == 1 {
        printed(d) == word
    } else {
        let len = addr::digits_value(parts[1]);
        match d {
            Destination::V4(a, b, c, e) => {
                let o = text::split_text(parts[0], '.');
                &&& o.len() == 4
                &&& len <= 32
                &&& number_of(a as nat, b as nat, c as nat, e as nat) / two_to((32 - len) as nat)
                    == number_of(
                    addr::digits_value(o[0]),
                    addr::digits_value(o[1]),
                    addr::digits_value(o[2]),
                    addr::digits_value(o[3]),
                ) / two_to((32 - len) as nat)
            },
            Destination::V6(a, b, _) => {
                let g = text::split_text(parts[0], ':');
                &&& g.len() == 3
                &&& g[1].len() == 0
                &&& g[2].len() == 0
                &&& len <= 16
                &&& (a as nat * 256 + b as nat) / two_to((16 - len) as nat) == hex_number(g[0])
                    / two_to((16 - len) as nat)
            },
        }
    }
}

/// What is compared: a port, or an address.
pub enum Field {
    Port(u16),
    Address(Destination),
}

/// Whether a field is what a word says.
pub open spec fn is_value(word: Seq<char>, f: Field) -> bool {
    match f {
        Field::Port(p) => addr::digits_value(word) == p,
        Field::Address(d) => is_at(word, d),
    }
}

/// An element of a set without the comma behind it.
pub open spec fn element(word: Seq<char>) -> Seq<char> {
    if word.len() > 0 && word.last() == ',' {
        word.drop_last()
    } else {
        word
    }
}

/// Whether a field is in the set that the words go on with, up to the closing brace.
pub open spec fn in_set(words: Seq<Seq<char>>, f: Field) -> bool
    decreases words.len(),
{
    if words.len() == 0 || words[0] == "}"@ {
        false
    } else {
        is_value(element(words[0]), f) || in_set(words.drop_first(), f)
    }
}

/// The words behind the set.
pub open spec fn behind_set(words: Seq<Seq<char>>) -> Seq<Seq<char>>
    decreases words.len(),
{
    if words.len() == 0 {
        words
    } else if words[0] == "}"@ {
        words.drop_first()
    } else {
        behind_set(words.drop_first())
    }
}

/// Whether a comparison holds of a field; the words begin behind what is compared.
pub open spec fn compares(words: Seq<Seq<char>>, f: Field) -> bool {
    let negated = words.len() > 0 && words[0] == "!="@;
    let value = if negated {
        words.drop_first()
    } else {
        words
    };
    if value.len() == 0 {
        false
    } else if value[0] == "{"@ {
        in_set(value.drop_first(), f) != negated
    } else {
        is_value(value[0], f) != negated
    }
}

/// The words behind a comparison.
pub open spec fn behind(words: Seq<Seq<char>>) -> Seq<Seq<char>> {
    let negated = words.len() > 0 && words[0] == "!="@;
    let value = if negated {
        words.drop_first()
    } else {
        words
    };
    if value.len() == 0 {
        value
    } else if value[0] == "{"@ {
        behind_set(value.drop_first())
    } else {
        value.drop_first()
    }
}

/// No more words stand behind a set than from its beginning on.
pub proof fn behind_set_shrinks(words: Seq<Seq<char>>)
    ensures
        behind_set(words).len() <= words.len(),
    decreases words.len(),
{
    if words.len() > 0 && words[0] != "}"@ {
        behind_set_shrinks(words.drop_first());
    }
}

/// No more words stand behind a comparison than from its beginning on.
pub proof fn behind_shrinks(words: Seq<Seq<char>>)
    ensures
        behind(words).len() <= words.len(),
{
    let negated = words.len() > 0 && words[0] == "!="@;
    let value = if negated {
        words.drop_first()
    } else {
        words
    };
    if value.len() > 0 {
        behind_set_shrinks(value.drop_first());
    }
}

/// What the words of a rule do with a packet: every match in turn has to hold, and the
/// last statement says what becomes of it. `None` where the rule does not apply.
pub open spec fn reading(words: Seq<Seq<char>>, k: Packet) -> Option<Verdict>
    decreases words.len(),
{
    if words.len() == 0 {
        None
    } else if words[0] == "accept"@ {
        Some(Verdict::Accept)
    } else if words[0] == "drop"@ {
        Some(Verdict::Drop)
    } else if words[0] == "reject"@ {
        Some(Verdict::Reject)
    } else if words.len() < 3 {
        None
    } else if words[0] == "oifname"@ {
        if words[1] == "!="@ {
            if !names(words[2], k.oif) {
                reading(words.skip(3), k)
            } else {
                None
            }
        } else if names(words[1], k.oif) {
            reading(words.skip(2), k)
        } else {
            None
        }
    } else if words[0] == "meta"@ && words[1] == "nfproto"@ {
        if (words[2] == "ipv4"@ && k.to is V4) || (words[2] == "ipv6"@ && k.to is V6) {
            reading(words.skip(3), k)
        } else {
            None
        }
    } else if words[0] == "meta"@ && words[1] == "l4proto"@ {
        if (words[2] == "udp"@ && k.transport is Udp) || (words[2] == "tcp"@ && k.transport is Tcp) {
            reading(words.skip(3), k)
        } else {
            None
        }
    } else if words[0] == "meta"@ && words[1] == "mark"@ && words[2] == "set"@ {
        if words.len() > 3 && prefixed_number(words[3]) is Some {
            Some(Verdict::Mark(prefixed_number(words[3])->0))
        } else {
            None
        }
    } else if words[0] == "meta"@ && words[1] == "mark"@ {
        if prefixed_number(words[2]) == Some(k.mark as nat) {
            reading(words.skip(3), k)
        } else {
            None
        }
    } else if words[0] == "udp"@ && words[1] == "dport"@ {
        proof {
            behind_shrinks(words.skip(2));
        }
        if k.transport is Udp && compares(words.skip(2), Field::Port(k.transport->Udp_0)) {
            reading(behind(words.skip(2)), k)
        } else {
            None
        }
    } else if words[0] == "tcp"@ && words[1] == "dport"@ {
        proof {
            behind_shrinks(words.skip(2));
        }
        if k.transport is Tcp && compares(words.skip(2), Field::Port(k.transport->Tcp_0)) {
            reading(behind(words.skip(2)), k)
        } else {
            None
        }
    } else if (words[0] == "ip"@ || words[0] == "ip6"@) && words[1] == "daddr"@ {
        proof {
            behind_shrinks(words.skip(2));
        }
        if (words[0] == "ip"@ <==> k.to is V4) && compares(words.skip(2), Field::Address(k.to)) {
            reading(behind(words.skip(2)), k)
        } else {
            None
        }
    } else if words[0] == "dnat"@ && words[1] == "ip"@ && words[2] == "to"@ && words.len() > 3 {
        Some(Verdict::Redirect(words[3]))
    } else {
        None
    }
}

// ---------------------------------------------------------------------------
// Words
// ---------------------------------------------------------------------------

/// The words of the rules are told apart by their lengths and first letters, and each is
/// one word.
proof fn keywords()
    ensures
        "accept"@.len() == 6 && "accept"@[0] == 'a',
        "drop"@.len() == 4 && "drop"@[0] == 'd' && "drop"@[1] == 'r',
        "reject"@.len() == 6 && "reject"@[0] == 'r',
        "oifname"@.len() == 7 && "oifname"@[0] == 'o',
        "meta"@.len() == 4 && "meta"@[0] == 'm',
        "udp"@.len() == 3 && "udp"@[0] == 'u',
        "tcp"@.len() == 3 && "tcp"@[0] == 't',
        "ip"@.len() == 2 && "ip"@[0] == 'i',
        "ip6"@.len() == 3 && "ip6"@[0] == 'i',
        "dnat"@.len() == 4 && "dnat"@[0] == 'd' && "dnat"@[1] == 'n',
        "!="@.len() == 2 && "!="@[0] == '!',
        "{"@.len() == 1 && "{"@[0] == '{',
        "}"@.len() == 1 && "}"@[0] == '}',
        "nfproto"@.len() == 7 && "nfproto"@[0] == 'n',
        "l4proto"@.len() == 7 && "l4proto"@[0] == 'l',
        "mark"@.len() == 4 && "mark"@[0] == 'm',
        "set"@.len() == 3 && "set"@[0] == 's',
        "dport"@.len() == 5 && "dport"@[0] == 'd',
        "daddr"@.len() == 5 && "daddr"@[0] == 'd',
        "ipv4"@.len() == 4 && "ipv4"@[3] == '4',
        "ipv6"@.len() == 4 && "ipv6"@[3] == '6',
        "to"@.len() == 2,
{
    reveal_strlit("accept");
    reveal_strlit("drop");
    reveal_strlit("reject");
    reveal_strlit("oifname");
    reveal_strlit("meta");
    reveal_strlit("udp");
    reveal_strlit("tcp");
    reveal_strlit("ip");
    reveal_strlit("ip6");
    reveal_strlit("dnat");
    reveal_strlit("!=");
    reveal_strlit("{");
    reveal_strlit("}");
    reveal_strlit("nfproto");
    reveal_strlit("l4proto");
    reveal_strlit("mark");
    reveal_strlit("set");
    reveal_strlit("dport");
    reveal_strlit("daddr");
    reveal_strlit("ipv4");
    reveal_strlit("ipv6");
    reveal_strlit("to");
}

proof fn read_verdicts(k: Packet)
    ensures
        reading(seq!["accept"@], k) == Some(Verdict::Accept),
        reading(seq!["drop"@], k) == Some(Verdict::Drop),
        reading(seq!["reject"@], k) == Some(Verdict::Reject),
{
    keywords();
}

proof fn read_interface(name: Seq<char>, rest: Seq<Seq<char>>, k: Packet)
    requires
        rest.len() > 0,
        name.len() > 0,
    ensures
        reading(seq!["oifname"@, seq!['"'] + name + seq!['"']] + rest, k) == (if name == k.oif {
            reading(rest, k)
        } else {
            None
        }),
        reading(seq!["oifname"@, "!="@, seq!['"'] + name + seq!['"']] + rest, k) == (if name
            != k.oif {
            reading(rest, k)
        } else {
            None
        }),
{
    keywords();
    let quoted = seq!['"'] + name + seq!['"'];
    let words = seq!["oifname"@, quoted] + rest;
    assert(words.skip(2) =~= rest);
    assert(quoted[0] == '"');
    let negated = seq!["oifname"@, "!="@, quoted] + rest;
    assert(negated.skip(3) =~= rest);
    if quoted == seq!['"'] + k.oif + seq!['"'] {
        assert(name =~= quoted.subrange(1, quoted.len() - 1));
        assert(k.oif =~= quoted.subrange(1, quoted.len() - 1));
    }
}

proof fn read_meta(rest: Seq<Seq<char>>, k: Packet)
    ensures
        reading(seq!["meta"@, "nfproto"@, "ipv6"@] + rest, k) == (if k.to is V6 {
            reading(rest, k)
        } else {
            None
        }),
        reading(seq!["meta"@, "nfproto"@, "ipv4"@] + rest, k) == (if k.to is V4 {
            reading(rest, k)
        } else {
            None
        }),
        reading(seq!["meta"@, "l4proto"@, "udp"@] + rest, k) == (if k.transport is Udp {
            reading(rest, k)
        } else {
            None
        }),
{
    keywords();
    assert((seq!["meta"@, "nfproto"@, "ipv6"@] + rest).skip(3) =~= rest);
    assert((seq!["meta"@, "nfproto"@, "ipv4"@] + rest).skip(3) =~= rest);
    assert((seq!["meta"@, "l4proto"@, "udp"@] + rest).skip(3) =~= rest);
}

proof fn read_mark(word: Seq<char>, rest: Seq<Seq<char>>, k: Packet)
    requires
        prefixed_number(word) is Some,
    ensures
        reading(seq!["meta"@, "mark"@, word] + rest, k) == (if prefixed_number(word) == Some(
            k.mark as nat,
        ) {
            reading(rest, k)
        } else {
            None
        }),
        reading(seq!["meta"@, "mark"@, "set"@, word], k) == Some(
            Verdict::Mark(prefixed_number(word)->0),
        ),
{
    keywords();
    assert((seq!["meta"@, "mark"@, word] + rest).skip(3) =~= rest);
}

proof fn read_comparison(tail: Seq<Seq<char>>, k: Packet)
    requires
        tail.len() > 0,
    ensures
        reading(seq!["udp"@, "dport"@] + tail, k) == (if k.transport is Udp && compares(
            tail,
            Field::Port(k.transport->Udp_0),
        ) {
            reading(behind(tail), k)
        } else {
            None
        }),
        reading(seq!["tcp"@, "dport"@] + tail, k) == (if k.transport is Tcp && compares(
            tail,
            Field::Port(k.transport->Tcp_0),
        ) {
            reading(behind(tail), k)
        } else {
            None
        }),
        reading(seq!["ip"@, "daddr"@] + tail, k) == (if k.to is V4 && compares(
            tail,
            Field::Address(k.to),
        ) {
            reading(behind(tail), k)
        } else {
            None
        }),
        reading(seq!["ip6"@, "daddr"@] + tail, k) == (if k.to is V6 && compares(
            tail,
            Field::Address(k.to),
        ) {
            reading(behind(tail), k)
        } else {
            None
        }),
{
    keywords();
    assert((seq!["udp"@, "dport"@] + tail).skip(2) =~= tail);
    assert((seq!["tcp"@, "dport"@] + tail).skip(2) =~= tail);
    assert((seq!["ip"@, "daddr"@] + tail).skip(2) =~= tail);
    assert((seq!["ip6"@, "daddr"@] + tail).skip(2) =~= tail);
}

/// A comparison with one value.
proof fn compare_one(word: Seq<char>, rest: Seq<Seq<char>>, f: Field)
    requires
        word.len() > 0,
        word[0] != '{',
        word[0] != '!',
    ensures
        compares(seq![word] + rest, f) == is_value(word, f),
        behind(seq![word] + rest) == rest,
        compares(seq!["!="@, word] + rest, f) == !is_value(word, f),
        behind(seq!["!="@, word] + rest) == rest,
{
    keywords();
    assert((seq![word] + rest).drop_first() =~= rest);
    assert((seq!["!="@, word] + rest).drop_first() =~= seq![word] + rest);
}

/// Whether a field is one of the elements of a set.
spec fn is_one_of(elements: Seq<Seq<char>>, f: Field) -> bool {
    exists|i: int| 0 <= i < elements.len() && is_value(element(#[trigger] elements[i]), f)
}

proof fn read_set(elements: Seq<Seq<char>>, rest: Seq<Seq<char>>, f: Field)
    requires
        forall|i: int|
            0 <= i < elements.len() ==> (#[trigger] elements[i]).len() > 0 && elements[i][0] != '}',
    ensures
        in_set(elements + seq!["}"@] + rest, f) == is_one_of(elements, f),
        behind_set(elements + seq!["}"@] + rest) == rest,
    decreases elements.len(),
{
    keywords();
    let words = elements + seq!["}"@] + rest;
    if elements.len() == 0 {
        assert(words[0] == "}"@);
        assert(words.drop_first() =~= rest);
    } else {
        let fewer = elements.drop_first();
        assert forall|i: int| 0 <= i < fewer.len() implies (#[trigger] fewer[i]).len() > 0
            && fewer[i][0] != '}' by {
            assert(fewer[i] == elements[i + 1]);
        }
        read_set(fewer, rest, f);
        assert(words.drop_first() =~= fewer + seq!["}"@] + rest);
        assert(words[0] == elements[0]);
        assert(elements[0][0] != '}');
        if is_one_of(elements, f) {
            let i = choose|i: int|
                0 <= i < elements.len() && is_value(element(#[trigger] elements[i]), f);
            if i > 0 {
                assert(fewer[i - 1] == elements[i]);
            }
        }
        if is_one_of(fewer, f) {
            let i = choose|i: int| 0 <= i < fewer.len() && is_value(element(#[trigger] fewer[i]), f);
            assert(elements[i + 1] == fewer[i]);
        }
    }
}

/// A comparison with a set.
proof fn compare_set(elements: Seq<Seq<char>>, rest: Seq<Seq<char>>, f: Field)
    requires
        forall|i: int|
            0 <= i < elements.len() ==> (#[trigger] elements[i]).len() > 0 && elements[i][0] != '}',
    ensures
        ({
            let set = seq!["{"@] + elements + seq!["}"@] + rest;
            &&& compares(set, f) == is_one_of(elements, f)
            &&& behind(set) == rest
            &&& compares(seq!["!="@] + set, f) == !is_one_of(elements, f)
            &&& behind(seq!["!="@] + set) == rest
        }),
{
    keywords();
    read_set(elements, rest, f);
    let set = seq!["{"@] + elements + seq!["}"@] + rest;
    assert(set.drop_first() =~= elements + seq!["}"@] + rest);
    assert((seq!["!="@] + set).drop_first() =~= set);
}

// ---------------------------------------------------------------------------
// Addresses and numbers
// ---------------------------------------------------------------------------

proof fn dotted_has_digits_and_dots(a: u8, b: u8, c: u8, d: u8)
    ensures
        addr::dotted(a, b, c, d).len() > 0,
        forall|i: int|
            0 <= i < addr::dotted(a, b, c, d).len() ==> addr::is_digit(
                #[trigger] addr::dotted(a, b, c, d)[i],
            ) || addr::dotted(a, b, c, d)[i] == '.',
{
    addr::decimal_reads_back(a as nat);
    addr::decimal_reads_back(b as nat);
    addr::decimal_reads_back(c as nat);
    addr::decimal_reads_back(d as nat);
    let (p, q, r, t) = (
        text::decimal_text(a as nat),
        text::decimal_text(b as nat),
        text::decimal_text(c as nat),
        text::decimal_text(d as nat),
    );
    let s = addr::dotted(a, b, c, d);
    assert forall|i: int| 0 <= i < s.len() implies addr::is_digit(#[trigger] s[i]) || s[i] == '.' by {
        let w = p.push('.');
        let x = w + q.push('.');
        let y = x + r.push('.');
        if i < w.len() {
            assert(s[i] == w[i]);
            assert(i < w.len() - 1 ==> addr::is_digit(p[i]));
        } else if i < x.len() {
            assert(s[i] == q.push('.')[i - w.len()]);
            assert(i < x.len() - 1 ==> addr::is_digit(q[i - w.len()]));
        } else if i < y.len() {
            assert(s[i] == r.push('.')[i - x.len()]);
            assert(i < y.len() - 1 ==> addr::is_digit(r[i - x.len()]));
        } else {
            assert(addr::is_digit(t[i - y.len()]));
        }
    }
}

/// A network is the addresses that agree with it in the bits of its prefix.
pub proof fn network_v4(a: u8, b: u8, c: u8, d: u8, len: nat, to: Destination)
    requires
        len <= 32,
    ensures
        is_at(addr::dotted(a, b, c, d).push('/') + text::decimal_text(len), to) <==> (
        to matches Destination::V4(w, x, y, z) && number_of(w as nat, x as nat, y as nat, z as nat)
            / two_to((32 - len) as nat) == number_of(a as nat, b as nat, c as nat, d as nat)
            / two_to((32 - len) as nat)),
{
    let host = addr::dotted(a, b, c, d);
    let size = text::decimal_text(len);
    dotted_has_digits_and_dots(a, b, c, d);
    addr::decimal_reads_back(len);
    text::split_at_the_first(host, size, '/');
    text::split_of_a_piece(size, '/');
    text::split_of_a_piece(host, ':');
    let word = host.push('/') + size;
    assert(text::split_text(word, '/') =~= seq![host, size]);
    addr::dotted_pieces(a, b, c, d);
    addr::decimal_reads_back(a as nat);
    addr::decimal_reads_back(b as nat);
    addr::decimal_reads_back(c as nat);
    addr::decimal_reads_back(d as nat);
}

/// An address is at the place that is printed so, and nowhere else.
proof fn single_address(word: Seq<char>, to: Destination)
    requires
        forall|i: int| 0 <= i < word.len() ==> #[trigger] word[i] != '/',
    ensures
        is_at(word, to) <==> printed(to) == word,
{
    text::split_of_a_piece(word, '/');
}

/// An IPv6 network that its first group and its prefix length name.
pub proof fn network_v6(group: Seq<char>, len: nat, to: Destination)
    requires
        len <= 16,
        forall|i: int| 0 <= i < group.len() ==> #[trigger] group[i] != ':' && group[i] != '/'
            && group[i] != '.',
    ensures
        is_at(group + seq![':', ':', '/'] + text::decimal_text(len), to) <==> (
        to matches Destination::V6(a, b, _) && (a as nat * 256 + b as nat) / two_to(
            (16 - len) as nat,
        ) == hex_number(group) / two_to((16 - len) as nat)),
{
    let size = text::decimal_text(len);
    let host = group + seq![':', ':'];
    let word = group + seq![':', ':', '/'] + size;
    addr::decimal_reads_back(len);
    assert(word =~= host.push('/') + size);
    text::split_at_the_first(host, size, '/');
    text::split_of_a_piece(size, '/');
    assert(text::split_text(word, '/') =~= seq![host, size]);
    let one = seq![':'];
    let none = Seq::<char>::empty();
    assert(host =~= group.push(':') + one);
    text::split_at_the_first(group, one, ':');
    assert(one =~= none.push(':') + none);
    text::split_at_the_first(none, none, ':');
    text::split_of_a_piece(none, ':');
    assert(text::split_text(host, ':') =~= seq![group, none, none]);
    text::split_of_a_piece(host, '.');
}

proof fn powers()
    ensures
        two_to(24) == 0x1000000,
        two_to(20) == 0x100000,
        two_to(16) == 0x10000,
        two_to(9) == 512,
        two_to(6) == 64,
        two_to(8) == 256,
{
    reveal_with_fuel(two_to, 25);
}

/// The elements of the set of local IPv4 networks.
spec fn local_v4_words() -> Seq<Seq<char>> {
    seq!["10.0.0.0/8,"@, "172.16.0.0/12,"@, "192.168.0.0/16,"@, "169.254.0.0/16"@]
}

proof fn local_v4_elements()
    ensures
        element("10.0.0.0/8,"@) == addr::dotted(10, 0, 0, 0).push('/') + text::decimal_text(8),
        element("172.16.0.0/12,"@) == addr::dotted(172, 16, 0, 0).push('/') + text::decimal_text(12),
        element("192.168.0.0/16,"@) == addr::dotted(192, 168, 0, 0).push('/') + text::decimal_text(
            16,
        ),
        element("169.254.0.0/16"@) == addr::dotted(169, 254, 0, 0).push('/') + text::decimal_text(
            16,
        ),
        text::is_one_word("10.0.0.0/8,"@),
        text::is_one_word("172.16.0.0/12,"@),
        text::is_one_word("192.168.0.0/16,"@),
        text::is_one_word("169.254.0.0/16"@),
        forall|i: int|
            0 <= i < 4 ==> (#[trigger] local_v4_words()[i]).len() > 0 && local_v4_words()[i][0]
                != '}',
{
    reveal_with_fuel(text::decimal_text, 4);
    reveal_strlit("10.0.0.0/8,");
    reveal_strlit("172.16.0.0/12,");
    reveal_strlit("192.168.0.0/16,");
    reveal_strlit("169.254.0.0/16");
    assert(element("10.0.0.0/8,"@) =~= addr::dotted(10, 0, 0, 0).push('/') + text::decimal_text(8));
    assert(element("172.16.0.0/12,"@) =~= addr::dotted(172, 16, 0, 0).push('/')
        + text::decimal_text(12));
    assert(element("192.168.0.0/16,"@) =~= addr::dotted(192, 168, 0, 0).push('/')
        + text::decimal_text(16));
    assert(element("169.254.0.0/16"@) =~= addr::dotted(169, 254, 0, 0).push('/')
        + text::decimal_text(16));
}

proof fn local_v4_set(to: Destination)
    ensures
        is_one_of(local_v4_words(), Field::Address(to)) <==> leaks::is_local_v4(to),
{
    local_v4_elements();
    powers();
    network_v4(10, 0, 0, 0, 8, to);
    network_v4(172, 16, 0, 0, 12, to);
    network_v4(192, 168, 0, 0, 16, to);
    network_v4(169, 254, 0, 0, 16, to);
    let (w, f) = (local_v4_words(), Field::Address(to));
    assert(is_one_of(w, f) <==> is_value(element(w[0]), f) || is_value(element(w[1]), f)
        || is_value(element(w[2]), f) || is_value(element(w[3]), f));
    if let Destination::V4(a, b, c, d) = to {
        let (a, b, c, d) = (a as nat, b as nat, c as nat, d as nat);
        let n = number_of(a, b, c, d);
        assert(n / two_to(24) == n / 0x1000000);
        assert(n / two_to(20) == n / 0x100000);
        assert(n / two_to(16) == n / 0x10000);
        assert(n / 0x1000000 == a);
        assert(n / 0x10000 == a * 256 + b);
        assert(n / 0x100000 == a * 16 + b / 16);
        assert(number_of(10, 0, 0, 0) / two_to(24) == number_of(10, 0, 0, 0) / 0x1000000);
        assert(number_of(172, 16, 0, 0) / two_to(20) == number_of(172, 16, 0, 0) / 0x100000);
        assert(number_of(192, 168, 0, 0) / two_to(16) == number_of(192, 168, 0, 0) / 0x10000);
        assert(number_of(169, 254, 0, 0) / two_to(16) == number_of(169, 254, 0, 0) / 0x10000);
        assert(is_value(element(w[0]), f) <==> a == 10);
        assert(is_value(element(w[1]), f) <==> a == 172 && 16 <= b < 32);
        assert(is_value(element(w[2]), f) <==> a == 192 && b == 168);
        assert(is_value(element(w[3]), f) <==> a == 169 && b == 254);
    }
}

proof fn v6_elements()
    ensures
        element("fc00::/7,"@) == "fc00"@ + seq![':', ':', '/'] + text::decimal_text(7),
        element("fe80::/10"@) == "fe80"@ + seq![':', ':', '/'] + text::decimal_text(10),
        element("fe80::/10,"@) == "fe80"@ + seq![':', ':', '/'] + text::decimal_text(10),
        element("ff00::/8"@) == "ff00"@ + seq![':', ':', '/'] + text::decimal_text(8),
        text::is_one_word("fc00::/7,"@),
        text::is_one_word("fe80::/10"@),
        text::is_one_word("fe80::/10,"@),
        text::is_one_word("ff00::/8"@),
        "fc00::/7,"@[0] == 'f' && "fe80::/10"@[0] == 'f' && "fe80::/10,"@[0] == 'f'
            && "ff00::/8"@[0] == 'f',
        hex_number("fc00"@) == 0xfc00,
        hex_number("fe80"@) == 0xfe80,
        hex_number("ff00"@) == 0xff00,
{
    reveal_with_fuel(text::decimal_text, 3);
    reveal_strlit("fc00::/7,");
    reveal_strlit("fe80::/10");
    reveal_strlit("fe80::/10,");
    reveal_strlit("ff00::/8");
    reveal_strlit("fc00");
    reveal_strlit("fe80");
    reveal_strlit("ff00");
    assert(element("fc00::/7,"@) =~= "fc00"@ + seq![':', ':', '/'] + text::decimal_text(7));
    assert(element("fe80::/10"@) =~= "fe80"@ + seq![':', ':', '/'] + text::decimal_text(10));
    assert(element("fe80::/10,"@) =~= "fe80"@ + seq![':', ':', '/'] + text::decimal_text(10));
    assert(element("ff00::/8"@) =~= "ff00"@ + seq![':', ':', '/'] + text::decimal_text(8));
    reveal_with_fuel(hex_number, 5);
}

proof fn local_v6_set(to: Destination)
    ensures
        is_one_of(seq!["fc00::/7,"@, "fe80::/10"@], Field::Address(to)) <==> leaks::is_local_v6(to),
        is_one_of(seq!["fe80::/10,"@, "ff00::/8"@], Field::Address(to)) <==> leaks::is_link_local(to)
            || leaks::is_multicast(to),
{
    v6_elements();
    powers();
    reveal_strlit("fc00");
    reveal_strlit("fe80");
    reveal_strlit("ff00");
    network_v6("fc00"@, 7, to);
    network_v6("fe80"@, 10, to);
    network_v6("ff00"@, 8, to);
    let f = Field::Address(to);
    let (w, x) = (seq!["fc00::/7,"@, "fe80::/10"@], seq!["fe80::/10,"@, "ff00::/8"@]);
    assert(is_one_of(w, f) <==> is_value(element(w[0]), f) || is_value(element(w[1]), f));
    assert(is_one_of(x, f) <==> is_value(element(x[0]), f) || is_value(element(x[1]), f));
    if let Destination::V6(a, b, _) = to {
        let n = a as nat * 256 + b as nat;
        assert(n / two_to(9) == n / 512);
        assert(n / two_to(8) == n / 256);
        assert(n / two_to(6) == n / 64);
        assert(n / 512 == a as nat / 2);
        assert(n / 256 == a as nat);
        assert(n / 64 == a as nat * 4 + b as nat / 64);
        assert(0xfc00nat / two_to(9) == 0xfc00nat / 512);
        assert(0xfe80nat / two_to(6) == 0xfe80nat / 64);
        assert(0xff00nat / two_to(8) == 0xff00nat / 256);
        assert(is_value(element(w[0]), f) <==> 0xfc <= a <= 0xfd);
        assert(is_value(element(w[1]), f) <==> a == 0xfe && 0x80 <= b < 0xc0);
        assert(is_value(element(x[0]), f) <==> a == 0xfe && 0x80 <= b < 0xc0);
        assert(is_value(element(x[1]), f) <==> a == 0xff);
    }
}

// ---------------------------------------------------------------------------
// The texts of the rules, word by word
// ---------------------------------------------------------------------------

/// Each of the words is one.
proof fn single_words()
    ensures
        text::is_one_word("udp"@),
        text::is_one_word("dport"@),
        text::is_one_word("{"@),
        text::is_one_word("67,"@),
        text::is_one_word("547"@),
        text::is_one_word("}"@),
        text::is_one_word("accept"@),
        text::is_one_word("5335"@),
        text::is_one_word("meta"@),
        text::is_one_word("l4proto"@),
        text::is_one_word("reject"@),
        text::is_one_word("nfproto"@),
        text::is_one_word("ipv6"@),
        text::is_one_word("mark"@),
        text::is_one_word("0x5057"@),
        text::is_one_word("53"@),
        text::is_one_word("drop"@),
        text::is_one_word("ip"@),
        text::is_one_word("daddr"@),
        text::is_one_word("10.0.0.0/8,"@),
        text::is_one_word("172.16.0.0/12,"@),
        text::is_one_word("192.168.0.0/16,"@),
        text::is_one_word("169.254.0.0/16"@),
        text::is_one_word("ip6"@),
        text::is_one_word("fc00::/7,"@),
        text::is_one_word("fe80::/10"@),
        text::is_one_word("!="@),
        text::is_one_word("fe80::/10,"@),
        text::is_one_word("ff00::/8"@),
        text::is_one_word("set"@),
        text::is_one_word("oifname"@),
        text::is_one_word("dnat"@),
        text::is_one_word("to"@),
        text::is_one_word("tcp"@),
        text::is_one_word("ipv4"@),
{
    reveal_strlit("udp");
    reveal_strlit("dport");
    reveal_strlit("{");
    reveal_strlit("67,");
    reveal_strlit("547");
    reveal_strlit("}");
    reveal_strlit("accept");
    reveal_strlit("5335");
    reveal_strlit("meta");
    reveal_strlit("l4proto");
    reveal_strlit("reject");
    reveal_strlit("nfproto");
    reveal_strlit("ipv6");
    reveal_strlit("mark");
    reveal_strlit("0x5057");
    reveal_strlit("53");
    reveal_strlit("drop");
    reveal_strlit("ip");
    reveal_strlit("daddr");
    reveal_strlit("10.0.0.0/8,");
    reveal_strlit("172.16.0.0/12,");
    reveal_strlit("192.168.0.0/16,");
    reveal_strlit("169.254.0.0/16");
    reveal_strlit("ip6");
    reveal_strlit("fc00::/7,");
    reveal_strlit("fe80::/10");
    reveal_strlit("!=");
    reveal_strlit("fe80::/10,");
    reveal_strlit("ff00::/8");
    reveal_strlit("set");
    reveal_strlit("oifname");
    reveal_strlit("dnat");
    reveal_strlit("to");
    reveal_strlit("tcp");
    reveal_strlit("ipv4");
}

proof fn lease_words()
    ensures
        text::words_text("udp dport { 67, 547 } accept"@) == seq![
            "udp"@,
            "dport"@,
            "{"@,
            "67,"@,
            "547"@,
            "}"@,
            "accept"@,
        ],
{
    single_words();
    let t6 = "accept"@;
    text::word_is_its_only_word(t6);
    let t5 = "}"@.push(' ') + t6;
    text::word_in_front("}"@, t6);
    let t4 = "547"@.push(' ') + t5;
    text::word_in_front("547"@, t5);
    let t3 = "67,"@.push(' ') + t4;
    text::word_in_front("67,"@, t4);
    let t2 = "{"@.push(' ') + t3;
    text::word_in_front("{"@, t3);
    let t1 = "dport"@.push(' ') + t2;
    text::word_in_front("dport"@, t2);
    let t0 = "udp"@.push(' ') + t1;
    text::word_in_front("udp"@, t1);
    reveal_strlit("udp dport { 67, 547 } accept");
    reveal_strlit("udp");
    reveal_strlit("dport");
    reveal_strlit("{");
    reveal_strlit("67,");
    reveal_strlit("547");
    reveal_strlit("}");
    reveal_strlit("accept");
    assert("udp dport { 67, 547 } accept"@ =~= t0);
    assert(text::words_text(t0) =~= seq!["udp"@, "dport"@, "{"@, "67,"@, "547"@, "}"@, "accept"@]);
}

proof fn forwarder_words()
    ensures
        text::words_text("udp dport 5335 accept"@) == seq!["udp"@, "dport"@, "5335"@, "accept"@],
{
    single_words();
    let t3 = "accept"@;
    text::word_is_its_only_word(t3);
    let t2 = "5335"@.push(' ') + t3;
    text::word_in_front("5335"@, t3);
    let t1 = "dport"@.push(' ') + t2;
    text::word_in_front("dport"@, t2);
    let t0 = "udp"@.push(' ') + t1;
    text::word_in_front("udp"@, t1);
    reveal_strlit("udp dport 5335 accept");
    reveal_strlit("udp");
    reveal_strlit("dport");
    reveal_strlit("5335");
    reveal_strlit("accept");
    assert("udp dport 5335 accept"@ =~= t0);
    assert(text::words_text(t0) =~= seq!["udp"@, "dport"@, "5335"@, "accept"@]);
}

proof fn udp_reject_words()
    ensures
        text::words_text("meta l4proto udp reject"@) == seq![
            "meta"@,
            "l4proto"@,
            "udp"@,
            "reject"@,
        ],
{
    single_words();
    let t3 = "reject"@;
    text::word_is_its_only_word(t3);
    let t2 = "udp"@.push(' ') + t3;
    text::word_in_front("udp"@, t3);
    let t1 = "l4proto"@.push(' ') + t2;
    text::word_in_front("l4proto"@, t2);
    let t0 = "meta"@.push(' ') + t1;
    text::word_in_front("meta"@, t1);
    reveal_strlit("meta l4proto udp reject");
    reveal_strlit("meta");
    reveal_strlit("l4proto");
    reveal_strlit("udp");
    reveal_strlit("reject");
    assert("meta l4proto udp reject"@ =~= t0);
    assert(text::words_text(t0) =~= seq!["meta"@, "l4proto"@, "udp"@, "reject"@]);
}

proof fn ipv6_udp_reject_words()
    ensures
        text::words_text("meta nfproto ipv6 meta l4proto udp reject"@) == seq![
            "meta"@,
            "nfproto"@,
            "ipv6"@,
            "meta"@,
            "l4proto"@,
            "udp"@,
            "reject"@,
        ],
{
    single_words();
    let t6 = "reject"@;
    text::word_is_its_only_word(t6);
    let t5 = "udp"@.push(' ') + t6;
    text::word_in_front("udp"@, t6);
    let t4 = "l4proto"@.push(' ') + t5;
    text::word_in_front("l4proto"@, t5);
    let t3 = "meta"@.push(' ') + t4;
    text::word_in_front("meta"@, t4);
    let t2 = "ipv6"@.push(' ') + t3;
    text::word_in_front("ipv6"@, t3);
    let t1 = "nfproto"@.push(' ') + t2;
    text::word_in_front("nfproto"@, t2);
    let t0 = "meta"@.push(' ') + t1;
    text::word_in_front("meta"@, t1);
    reveal_strlit("meta nfproto ipv6 meta l4proto udp reject");
    reveal_strlit("meta");
    reveal_strlit("nfproto");
    reveal_strlit("ipv6");
    reveal_strlit("l4proto");
    reveal_strlit("udp");
    reveal_strlit("reject");
    assert("meta nfproto ipv6 meta l4proto udp reject"@ =~= t0);
    assert(text::words_text(t0) =~= seq![
        "meta"@,
        "nfproto"@,
        "ipv6"@,
        "meta"@,
        "l4proto"@,
        "udp"@,
        "reject"@,
    ]);
}

proof fn marked_words()
    ensures
        text::words_text("meta l4proto udp meta mark 0x5057 accept"@) == seq![
            "meta"@,
            "l4proto"@,
            "udp"@,
            "meta"@,
            "mark"@,
            "0x5057"@,
            "accept"@,
        ],
{
    single_words();
    let t6 = "accept"@;
    text::word_is_its_only_word(t6);
    let t5 = "0x5057"@.push(' ') + t6;
    text::word_in_front("0x5057"@, t6);
    let t4 = "mark"@.push(' ') + t5;
    text::word_in_front("mark"@, t5);
    let t3 = "meta"@.push(' ') + t4;
    text::word_in_front("meta"@, t4);
    let t2 = "udp"@.push(' ') + t3;
    text::word_in_front("udp"@, t3);
    let t1 = "l4proto"@.push(' ') + t2;
    text::word_in_front("l4proto"@, t2);
    let t0 = "meta"@.push(' ') + t1;
    text::word_in_front("meta"@, t1);
    reveal_strlit("meta l4proto udp meta mark 0x5057 accept");
    reveal_strlit("meta");
    reveal_strlit("l4proto");
    reveal_strlit("udp");
    reveal_strlit("mark");
    reveal_strlit("0x5057");
    reveal_strlit("accept");
    assert("meta l4proto udp meta mark 0x5057 accept"@ =~= t0);
    assert(text::words_text(t0) =~= seq![
        "meta"@,
        "l4proto"@,
        "udp"@,
        "meta"@,
        "mark"@,
        "0x5057"@,
        "accept"@,
    ]);
}

proof fn relay_words()
    ensures
        text::words_text("meta l4proto udp accept"@) == seq![
            "meta"@,
            "l4proto"@,
            "udp"@,
            "accept"@,
        ],
{
    single_words();
    let t3 = "accept"@;
    text::word_is_its_only_word(t3);
    let t2 = "udp"@.push(' ') + t3;
    text::word_in_front("udp"@, t3);
    let t1 = "l4proto"@.push(' ') + t2;
    text::word_in_front("l4proto"@, t2);
    let t0 = "meta"@.push(' ') + t1;
    text::word_in_front("meta"@, t1);
    reveal_strlit("meta l4proto udp accept");
    reveal_strlit("meta");
    reveal_strlit("l4proto");
    reveal_strlit("udp");
    reveal_strlit("accept");
    assert("meta l4proto udp accept"@ =~= t0);
    assert(text::words_text(t0) =~= seq!["meta"@, "l4proto"@, "udp"@, "accept"@]);
}

proof fn ipv6_dns_words()
    ensures
        text::words_text("meta nfproto ipv6 udp dport 53 drop"@) == seq![
            "meta"@,
            "nfproto"@,
            "ipv6"@,
            "udp"@,
            "dport"@,
            "53"@,
            "drop"@,
        ],
{
    single_words();
    let t6 = "drop"@;
    text::word_is_its_only_word(t6);
    let t5 = "53"@.push(' ') + t6;
    text::word_in_front("53"@, t6);
    let t4 = "dport"@.push(' ') + t5;
    text::word_in_front("dport"@, t5);
    let t3 = "udp"@.push(' ') + t4;
    text::word_in_front("udp"@, t4);
    let t2 = "ipv6"@.push(' ') + t3;
    text::word_in_front("ipv6"@, t3);
    let t1 = "nfproto"@.push(' ') + t2;
    text::word_in_front("nfproto"@, t2);
    let t0 = "meta"@.push(' ') + t1;
    text::word_in_front("meta"@, t1);
    reveal_strlit("meta nfproto ipv6 udp dport 53 drop");
    reveal_strlit("meta");
    reveal_strlit("nfproto");
    reveal_strlit("ipv6");
    reveal_strlit("udp");
    reveal_strlit("dport");
    reveal_strlit("53");
    reveal_strlit("drop");
    assert("meta nfproto ipv6 udp dport 53 drop"@ =~= t0);
    assert(text::words_text(t0) =~= seq![
        "meta"@,
        "nfproto"@,
        "ipv6"@,
        "udp"@,
        "dport"@,
        "53"@,
        "drop"@,
    ]);
}

proof fn local_v4_drop_words()
    ensures
        text::words_text("ip daddr { 10.0.0.0/8, 172.16.0.0/12, 192.168.0.0/16, 169.254.0.0/16 } drop"@) == seq![
            "ip"@,
            "daddr"@,
            "{"@,
            "10.0.0.0/8,"@,
            "172.16.0.0/12,"@,
            "192.168.0.0/16,"@,
            "169.254.0.0/16"@,
            "}"@,
            "drop"@,
        ],
{
    single_words();
    let t8 = "drop"@;
    text::word_is_its_only_word(t8);
    let t7 = "}"@.push(' ') + t8;
    text::word_in_front("}"@, t8);
    let t6 = "169.254.0.0/16"@.push(' ') + t7;
    text::word_in_front("169.254.0.0/16"@, t7);
    let t5 = "192.168.0.0/16,"@.push(' ') + t6;
    text::word_in_front("192.168.0.0/16,"@, t6);
    let t4 = "172.16.0.0/12,"@.push(' ') + t5;
    text::word_in_front("172.16.0.0/12,"@, t5);
    let t3 = "10.0.0.0/8,"@.push(' ') + t4;
    text::word_in_front("10.0.0.0/8,"@, t4);
    let t2 = "{"@.push(' ') + t3;
    text::word_in_front("{"@, t3);
    let t1 = "daddr"@.push(' ') + t2;
    text::word_in_front("daddr"@, t2);
    let t0 = "ip"@.push(' ') + t1;
    text::word_in_front("ip"@, t1);
    reveal_strlit("ip daddr { 10.0.0.0/8, 172.16.0.0/12, 192.168.0.0/16, 169.254.0.0/16 } drop");
    reveal_strlit("ip");
    reveal_strlit("daddr");
    reveal_strlit("{");
    reveal_strlit("10.0.0.0/8,");
    reveal_strlit("172.16.0.0/12,");
    reveal_strlit("192.168.0.0/16,");
    reveal_strlit("169.254.0.0/16");
    reveal_strlit("}");
    reveal_strlit("drop");
    assert("ip daddr { 10.0.0.0/8, 172.16.0.0/12, 192.168.0.0/16, 169.254.0.0/16 } drop"@ =~= t0);
    assert(text::words_text(t0) =~= seq![
        "ip"@,
        "daddr"@,
        "{"@,
        "10.0.0.0/8,"@,
        "172.16.0.0/12,"@,
        "192.168.0.0/16,"@,
        "169.254.0.0/16"@,
        "}"@,
        "drop"@,
    ]);
}

proof fn local_v4_accept_words()
    ensures
        text::words_text("ip daddr { 10.0.0.0/8, 172.16.0.0/12, 192.168.0.0/16, 169.254.0.0/16 } accept"@) == seq![
            "ip"@,
            "daddr"@,
            "{"@,
            "10.0.0.0/8,"@,
            "172.16.0.0/12,"@,
            "192.168.0.0/16,"@,
            "169.254.0.0/16"@,
            "}"@,
            "accept"@,
        ],
{
    single_words();
    let t8 = "accept"@;
    text::word_is_its_only_word(t8);
    let t7 = "}"@.push(' ') + t8;
    text::word_in_front("}"@, t8);
    let t6 = "169.254.0.0/16"@.push(' ') + t7;
    text::word_in_front("169.254.0.0/16"@, t7);
    let t5 = "192.168.0.0/16,"@.push(' ') + t6;
    text::word_in_front("192.168.0.0/16,"@, t6);
    let t4 = "172.16.0.0/12,"@.push(' ') + t5;
    text::word_in_front("172.16.0.0/12,"@, t5);
    let t3 = "10.0.0.0/8,"@.push(' ') + t4;
    text::word_in_front("10.0.0.0/8,"@, t4);
    let t2 = "{"@.push(' ') + t3;
    text::word_in_front("{"@, t3);
    let t1 = "daddr"@.push(' ') + t2;
    text::word_in_front("daddr"@, t2);
    let t0 = "ip"@.push(' ') + t1;
    text::word_in_front("ip"@, t1);
    reveal_strlit("ip daddr { 10.0.0.0/8, 172.16.0.0/12, 192.168.0.0/16, 169.254.0.0/16 } accept");
    reveal_strlit("ip");
    reveal_strlit("daddr");
    reveal_strlit("{");
    reveal_strlit("10.0.0.0/8,");
    reveal_strlit("172.16.0.0/12,");
    reveal_strlit("192.168.0.0/16,");
    reveal_strlit("169.254.0.0/16");
    reveal_strlit("}");
    reveal_strlit("accept");
    assert("ip daddr { 10.0.0.0/8, 172.16.0.0/12, 192.168.0.0/16, 169.254.0.0/16 } accept"@ =~= t0);
    assert(text::words_text(t0) =~= seq![
        "ip"@,
        "daddr"@,
        "{"@,
        "10.0.0.0/8,"@,
        "172.16.0.0/12,"@,
        "192.168.0.0/16,"@,
        "169.254.0.0/16"@,
        "}"@,
        "accept"@,
    ]);
}

proof fn local_v6_drop_words()
    ensures
        text::words_text("ip6 daddr { fc00::/7, fe80::/10 } drop"@) == seq![
            "ip6"@,
            "daddr"@,
            "{"@,
            "fc00::/7,"@,
            "fe80::/10"@,
            "}"@,
            "drop"@,
        ],
{
    single_words();
    let t6 = "drop"@;
    text::word_is_its_only_word(t6);
    let t5 = "}"@.push(' ') + t6;
    text::word_in_front("}"@, t6);
    let t4 = "fe80::/10"@.push(' ') + t5;
    text::word_in_front("fe80::/10"@, t5);
    let t3 = "fc00::/7,"@.push(' ') + t4;
    text::word_in_front("fc00::/7,"@, t4);
    let t2 = "{"@.push(' ') + t3;
    text::word_in_front("{"@, t3);
    let t1 = "daddr"@.push(' ') + t2;
    text::word_in_front("daddr"@, t2);
    let t0 = "ip6"@.push(' ') + t1;
    text::word_in_front("ip6"@, t1);
    reveal_strlit("ip6 daddr { fc00::/7, fe80::/10 } drop");
    reveal_strlit("ip6");
    reveal_strlit("daddr");
    reveal_strlit("{");
    reveal_strlit("fc00::/7,");
    reveal_strlit("fe80::/10");
    reveal_strlit("}");
    reveal_strlit("drop");
    assert("ip6 daddr { fc00::/7, fe80::/10 } drop"@ =~= t0);
    assert(text::words_text(t0) =~= seq![
        "ip6"@,
        "daddr"@,
        "{"@,
        "fc00::/7,"@,
        "fe80::/10"@,
        "}"@,
        "drop"@,
    ]);
}

proof fn local_v6_accept_words()
    ensures
        text::words_text("ip6 daddr { fc00::/7, fe80::/10 } accept"@) == seq![
            "ip6"@,
            "daddr"@,
            "{"@,
            "fc00::/7,"@,
            "fe80::/10"@,
            "}"@,
            "accept"@,
        ],
{
    single_words();
    let t6 = "accept"@;
    text::word_is_its_only_word(t6);
    let t5 = "}"@.push(' ') + t6;
    text::word_in_front("}"@, t6);
    let t4 = "fe80::/10"@.push(' ') + t5;
    text::word_in_front("fe80::/10"@, t5);
    let t3 = "fc00::/7,"@.push(' ') + t4;
    text::word_in_front("fc00::/7,"@, t4);
    let t2 = "{"@.push(' ') + t3;
    text::word_in_front("{"@, t3);
    let t1 = "daddr"@.push(' ') + t2;
    text::word_in_front("daddr"@, t2);
    let t0 = "ip6"@.push(' ') + t1;
    text::word_in_front("ip6"@, t1);
    reveal_strlit("ip6 daddr { fc00::/7, fe80::/10 } accept");
    reveal_strlit("ip6");
    reveal_strlit("daddr");
    reveal_strlit("{");
    reveal_strlit("fc00::/7,");
    reveal_strlit("fe80::/10");
    reveal_strlit("}");
    reveal_strlit("accept");
    assert("ip6 daddr { fc00::/7, fe80::/10 } accept"@ =~= t0);
    assert(text::words_text(t0) =~= seq![
        "ip6"@,
        "daddr"@,
        "{"@,
        "fc00::/7,"@,
        "fe80::/10"@,
        "}"@,
        "accept"@,
    ]);
}

proof fn ipv6_drop_words()
    ensures
        text::words_text("ip6 daddr != { fe80::/10, ff00::/8 } drop"@) == seq![
            "ip6"@,
            "daddr"@,
            "!="@,
            "{"@,
            "fe80::/10,"@,
            "ff00::/8"@,
            "}"@,
            "drop"@,
        ],
{
    single_words();
    let t7 = "drop"@;
    text::word_is_its_only_word(t7);
    let t6 = "}"@.push(' ') + t7;
    text::word_in_front("}"@, t7);
    let t5 = "ff00::/8"@.push(' ') + t6;
    text::word_in_front("ff00::/8"@, t6);
    let t4 = "fe80::/10,"@.push(' ') + t5;
    text::word_in_front("fe80::/10,"@, t5);
    let t3 = "{"@.push(' ') + t4;
    text::word_in_front("{"@, t4);
    let t2 = "!="@.push(' ') + t3;
    text::word_in_front("!="@, t3);
    let t1 = "daddr"@.push(' ') + t2;
    text::word_in_front("daddr"@, t2);
    let t0 = "ip6"@.push(' ') + t1;
    text::word_in_front("ip6"@, t1);
    reveal_strlit("ip6 daddr != { fe80::/10, ff00::/8 } drop");
    reveal_strlit("ip6");
    reveal_strlit("daddr");
    reveal_strlit("!=");
    reveal_strlit("{");
    reveal_strlit("fe80::/10,");
    reveal_strlit("ff00::/8");
    reveal_strlit("}");
    reveal_strlit("drop");
    assert("ip6 daddr != { fe80::/10, ff00::/8 } drop"@ =~= t0);
    assert(text::words_text(t0) =~= seq![
        "ip6"@,
        "daddr"@,
        "!="@,
        "{"@,
        "fe80::/10,"@,
        "ff00::/8"@,
        "}"@,
        "drop"@,
    ]);
}

proof fn mark_set_words()
    ensures
        text::words_text("meta l4proto udp meta mark set 0x5057"@) == seq![
            "meta"@,
            "l4proto"@,
            "udp"@,
            "meta"@,
            "mark"@,
            "set"@,
            "0x5057"@,
        ],
{
    single_words();
    let t6 = "0x5057"@;
    text::word_is_its_only_word(t6);
    let t5 = "set"@.push(' ') + t6;
    text::word_in_front("set"@, t6);
    let t4 = "mark"@.push(' ') + t5;
    text::word_in_front("mark"@, t5);
    let t3 = "meta"@.push(' ') + t4;
    text::word_in_front("meta"@, t4);
    let t2 = "udp"@.push(' ') + t3;
    text::word_in_front("udp"@, t3);
    let t1 = "l4proto"@.push(' ') + t2;
    text::word_in_front("l4proto"@, t2);
    let t0 = "meta"@.push(' ') + t1;
    text::word_in_front("meta"@, t1);
    reveal_strlit("meta l4proto udp meta mark set 0x5057");
    reveal_strlit("meta");
    reveal_strlit("l4proto");
    reveal_strlit("udp");
    reveal_strlit("mark");
    reveal_strlit("set");
    reveal_strlit("0x5057");
    assert("meta l4proto udp meta mark set 0x5057"@ =~= t0);
    assert(text::words_text(t0) =~= seq![
        "meta"@,
        "l4proto"@,
        "udp"@,
        "meta"@,
        "mark"@,
        "set"@,
        "0x5057"@,
    ]);
}

// ---------------------------------------------------------------------------
// What the rules do
// ---------------------------------------------------------------------------

proof fn name_is_a_word(name: Seq<char>)
    requires
        ruleset::is_word(name),
    ensures
        text::is_one_word(name),
        text::is_one_word(seq!['"'] + name + seq!['"']),
{
    let quoted = seq!['"'] + name + seq!['"'];
    assert forall|i: int| 0 <= i < name.len() implies !text::is_white(#[trigger] name[i]) by {
        assert(ruleset::is_word_char(name[i]));
    }
    assert forall|i: int| 0 <= i < quoted.len() implies !text::is_white(#[trigger] quoted[i]) by {
        if 0 < i < quoted.len() - 1 {
            assert(quoted[i] == name[i - 1]);
        }
    }
}

/// A rule on what leaves an interface is read as such, and then goes on.
proof fn read_leaving(name: Seq<char>, rest: Seq<char>, k: Packet)
    requires
        ruleset::is_word(name),
        text::words_text(rest).len() > 0,
    ensures
        reading(text::words_text(ruleset::leaving(name, rest)), k) == (if name == k.oif {
            reading(text::words_text(rest), k)
        } else {
            None
        }),
{
    single_words();
    name_is_a_word(name);
    let quoted = seq!['"'] + name + seq!['"'];
    let words = text::words_text(rest);
    text::word_in_front(quoted, rest);
    text::word_in_front("oifname"@, quoted.push(' ') + rest);
    reveal_strlit("oifname");
    reveal_strlit("oifname \"");
    reveal_strlit("\" ");
    assert(ruleset::leaving(name, rest) =~= "oifname"@.push(' ') + (quoted.push(' ') + rest));
    assert(text::words_text(ruleset::leaving(name, rest)) =~= seq!["oifname"@, quoted] + words);
    read_interface(name, words, k);
}

proof fn ports()
    ensures
        addr::digits_value("53"@) == 53,
        addr::digits_value("5335"@) == 5335,
        element("67,"@) == "67"@,
        addr::digits_value("67"@) == 67,
        element("547"@) == "547"@,
        addr::digits_value("547"@) == 547,
        prefixed_number("0x5057"@) == Some(0x5057nat),
        "53"@.len() > 0 && "53"@[0] == '5',
        "5335"@.len() > 0 && "5335"@[0] == '5',
        "67,"@.len() > 0 && "67,"@[0] == '6',
        "547"@.len() > 0 && "547"@[0] == '5',
{
    reveal_strlit("53");
    reveal_strlit("5335");
    reveal_strlit("67,");
    reveal_strlit("67");
    reveal_strlit("547");
    reveal_strlit("0x5057");
    reveal_with_fuel(addr::digits_value, 5);
    reveal_with_fuel(hex_number, 5);
    assert("67,"@.drop_last() =~= "67"@);
}

/// Addresses that are printed alike are alike.
proof fn printed_alike(a: u8, b: u8, c: u8, d: u8, w: u8, x: u8, y: u8, z: u8)
    requires
        addr::dotted(a, b, c, d) == addr::dotted(w, x, y, z),
    ensures
        a == w && b == x && c == y && d == z,
{
    addr::dotted_pieces(a, b, c, d);
    addr::dotted_pieces(w, x, y, z);
    let pieces = text::split_text(addr::dotted(a, b, c, d), '.');
    addr::decimal_reads_back(a as nat);
    addr::decimal_reads_back(b as nat);
    addr::decimal_reads_back(c as nat);
    addr::decimal_reads_back(d as nat);
    addr::decimal_reads_back(w as nat);
    addr::decimal_reads_back(x as nat);
    addr::decimal_reads_back(y as nat);
    addr::decimal_reads_back(z as nat);
    assert(pieces[0] == text::decimal_text(a as nat) && pieces[0] == text::decimal_text(w as nat));
    assert(pieces[1] == text::decimal_text(b as nat) && pieces[1] == text::decimal_text(x as nat));
    assert(pieces[2] == text::decimal_text(c as nat) && pieces[2] == text::decimal_text(y as nat));
    assert(pieces[3] == text::decimal_text(d as nat) && pieces[3] == text::decimal_text(z as nat));
}

/// Whether a rule does to a packet what `verdict` says, where it applies.
spec fn does(rule: Rule, p: RulesetParams, tun: Seq<char>, k: Packet, verdict: Verdict) -> bool {
    reading(text::words_text(ruleset::rule_text(rule, p, tun)), k) == (if leaks::applies(
        rule,
        p,
        tun,
        k,
    ) {
        Some(verdict)
    } else {
        None
    })
}

proof fn read_lease(p: RulesetParams, tun: Seq<char>, k: Packet)
    requires
        ruleset::is_word(p.iface@),
    ensures
        does(Rule::DhcpAccept, p, tun, k, Verdict::Accept),
{
    lease_words();
    ports();
    read_leaving(p.iface@, "udp dport { 67, 547 } accept"@, k);
    let elements = seq!["67,"@, "547"@];
    let rest = seq!["accept"@];
    let tail = seq!["{"@] + elements + seq!["}"@] + rest;
    assert(seq!["udp"@, "dport"@] + tail =~= seq![
        "udp"@,
        "dport"@,
        "{"@,
        "67,"@,
        "547"@,
        "}"@,
        "accept"@,
    ]);
    read_comparison(tail, k);
    read_verdicts(k);
    if k.transport is Udp {
        let f = Field::Port(k.transport->Udp_0);
        compare_set(elements, rest, f);
        assert(is_one_of(elements, f) <==> is_value(element(elements[0]), f) || is_value(
            element(elements[1]),
            f,
        ));
    }
}

proof fn read_forwarder(p: RulesetParams, tun: Seq<char>, k: Packet)
    requires
        addr::is_dotted(tun),
    ensures
        does(Rule::ForwarderAccept, p, tun, k, Verdict::Accept),
{
    let (a, b, c, d) = choose|a: u8, b: u8, c: u8, d: u8| tun == #[trigger] addr::dotted(a, b, c, d);
    dotted_has_digits_and_dots(a, b, c, d);
    ruleset::dotted_is_a_word(a, b, c, d);
    name_is_a_word(tun);
    single_words();
    forwarder_words();
    ports();
    let last = "udp dport 5335 accept"@;
    text::word_in_front(tun, last);
    text::word_in_front("daddr"@, tun.push(' ') + last);
    text::word_in_front("ip"@, "daddr"@.push(' ') + (tun.push(' ') + last));
    reveal_strlit("ip");
    reveal_strlit("daddr");
    reveal_strlit("ip daddr ");
    reveal_strlit(" udp dport 5335 accept");
    reveal_strlit("udp dport 5335 accept");
    let all = ruleset::rule_text(Rule::ForwarderAccept, p, tun);
    assert(all =~= "ip"@.push(' ') + ("daddr"@.push(' ') + (tun.push(' ') + last)));
    let accept = seq!["accept"@];
    let port = seq!["5335"@] + accept;
    let rest = seq!["udp"@, "dport"@] + port;
    let tail = seq![tun] + rest;
    assert(text::words_text(all) =~= seq!["ip"@, "daddr"@] + tail);
    read_comparison(tail, k);
    compare_one(tun, rest, Field::Address(k.to));
    single_address(tun, k.to);
    read_comparison(port, k);
    read_verdicts(k);
    if k.transport is Udp {
        compare_one("5335"@, accept, Field::Port(k.transport->Udp_0));
    }
}

proof fn read_udp(p: RulesetParams, tun: Seq<char>, k: Packet)
    requires
        ruleset::is_word(p.iface@),
    ensures
        does(Rule::UdpReject, p, tun, k, Verdict::Reject),
        does(Rule::Ipv6UdpReject, p, tun, k, Verdict::Reject),
        does(Rule::MarkedUdpAccept, p, tun, k, Verdict::Accept),
{
    udp_reject_words();
    ipv6_udp_reject_words();
    marked_words();
    read_verdicts(k);
    ports();
    let reject = seq!["reject"@];
    read_meta(reject, k);
    let udp = seq!["meta"@, "l4proto"@, "udp"@] + reject;
    assert(udp =~= seq!["meta"@, "l4proto"@, "udp"@, "reject"@]);
    read_meta(udp, k);
    assert(seq!["meta"@, "nfproto"@, "ipv6"@] + udp =~= seq![
        "meta"@,
        "nfproto"@,
        "ipv6"@,
        "meta"@,
        "l4proto"@,
        "udp"@,
        "reject"@,
    ]);
    read_leaving(p.iface@, "meta l4proto udp meta mark 0x5057 accept"@, k);
    let accept = seq!["accept"@];
    let mark = seq!["meta"@, "mark"@, "0x5057"@] + accept;
    read_mark("0x5057"@, accept, k);
    read_meta(mark, k);
    assert(seq!["meta"@, "l4proto"@, "udp"@] + mark =~= seq![
        "meta"@,
        "l4proto"@,
        "udp"@,
        "meta"@,
        "mark"@,
        "0x5057"@,
        "accept"@,
    ]);
}

proof fn read_plain(p: RulesetParams, tun: Seq<char>, k: Packet)
    requires
        ruleset::is_word(p.iface@),
    ensures
        does(Rule::LoopbackAccept, p, tun, k, Verdict::Accept),
        does(Rule::TunnelAccept, p, tun, k, Verdict::Accept),
        does(Rule::KillSwitchDrop, p, tun, k, Verdict::Drop),
{
    single_words();
    text::word_is_its_only_word("accept"@);
    text::word_is_its_only_word("drop"@);
    read_verdicts(k);
    reveal_strlit("lo");
    reveal_strlit("pwtun0");
    read_leaving("lo"@, "accept"@, k);
    read_leaving(ruleset::TUN_NAME@, "accept"@, k);
    read_leaving(p.iface@, "drop"@, k);
    reveal_strlit("oifname \"lo\" accept");
    reveal_strlit("oifname \"");
    reveal_strlit("\" ");
    reveal_strlit("accept");
    assert("oifname \"lo\" accept"@ =~= ruleset::leaving("lo"@, "accept"@));
}

proof fn read_ipv6_dns(p: RulesetParams, tun: Seq<char>, k: Packet)
    ensures
        does(Rule::Ipv6DnsDrop, p, tun, k, Verdict::Drop),
{
    single_words();
    ipv6_dns_words();
    ports();
    reveal_strlit("lo");
    name_is_a_word("lo"@);
    let quoted = seq!['"'] + "lo"@ + seq!['"'];
    let last = "meta nfproto ipv6 udp dport 53 drop"@;
    text::word_in_front(quoted, last);
    text::word_in_front("!="@, quoted.push(' ') + last);
    text::word_in_front("oifname"@, "!="@.push(' ') + (quoted.push(' ') + last));
    let all = ruleset::rule_text(Rule::Ipv6DnsDrop, p, tun);
    reveal_strlit("oifname != \"lo\" meta nfproto ipv6 udp dport 53 drop");
    reveal_strlit("meta nfproto ipv6 udp dport 53 drop");
    reveal_strlit("oifname");
    reveal_strlit("!=");
    assert(all =~= "oifname"@.push(' ') + ("!="@.push(' ') + (quoted.push(' ') + last)));
    let drop = seq!["drop"@];
    let port = seq!["53"@] + drop;
    let udp = seq!["udp"@, "dport"@] + port;
    let rest = seq!["meta"@, "nfproto"@, "ipv6"@] + udp;
    assert(text::words_text(all) =~= seq!["oifname"@, "!="@, quoted] + rest);
    read_interface("lo"@, rest, k);
    read_meta(udp, k);
    read_comparison(port, k);
    read_verdicts(k);
    if k.transport is Udp {
        compare_one("53"@, drop, Field::Port(k.transport->Udp_0));
    }
}

/// A rule on the proxy's address is read as such, and then goes on.
proof fn read_to_proxy(p: RulesetParams, rest: Seq<char>, k: Packet)
    requires
        p.proxy_ip.wf(),
        text::words_text(rest).len() > 0,
    ensures
        ({
            let all = ruleset::family(p.proxy_ip) + " daddr "@ + p.proxy_ip.name() + seq![' ']
                + rest;
            &&& text::words_text(all).len() > 0
            &&& reading(text::words_text(all), k) == (if leaks::is_proxy(k.to, p.proxy_ip) {
                reading(text::words_text(rest), k)
            } else {
                None
            })
        }),
{
    let (family, name) = (ruleset::family(p.proxy_ip), p.proxy_ip.name());
    let all = family + " daddr "@ + name + seq![' '] + rest;
    single_words();
    if let ProxyAddr::V4(a, b, c, d) = p.proxy_ip {
        dotted_has_digits_and_dots(a, b, c, d);
        ruleset::dotted_is_a_word(a, b, c, d);
        if let Destination::V4(w, x, y, z) = k.to {
            if addr::dotted(a, b, c, d) == addr::dotted(w, x, y, z) {
                printed_alike(a, b, c, d, w, x, y, z);
            }
        }
    } else {
        assert forall|i: int| 0 <= i < name.len() implies ruleset::is_word_char(#[trigger] name[i]) by {
            assert(addr::is_v6_char(name[i]));
        }
        assert forall|i: int| 0 <= i < name.len() implies #[trigger] name[i] != '/' by {
            assert(addr::is_v6_char(name[i]));
        }
    }
    assert(ruleset::is_word_char(name[0]));
    name_is_a_word(name);
    text::word_in_front(name, rest);
    text::word_in_front("daddr"@, name.push(' ') + rest);
    text::word_in_front(family, "daddr"@.push(' ') + (name.push(' ') + rest));
    reveal_strlit("daddr");
    reveal_strlit(" daddr ");
    assert(all =~= family.push(' ') + ("daddr"@.push(' ') + (name.push(' ') + rest)));
    let words = text::words_text(rest);
    let tail = seq![name] + words;
    assert(text::words_text(all) =~= seq![family, "daddr"@] + tail);
    read_comparison(tail, k);
    compare_one(name, words, Field::Address(k.to));
    single_address(name, k.to);
}

proof fn read_proxy(p: RulesetParams, tun: Seq<char>, k: Packet)
    requires
        ruleset::is_word(p.iface@),
        p.proxy_ip.wf(),
    ensures
        does(Rule::ProxyTcpAccept, p, tun, k, Verdict::Accept),
        does(Rule::ProxyUdpAccept, p, tun, k, Verdict::Accept),
{
    single_words();
    relay_words();
    read_verdicts(k);
    let accept = seq!["accept"@];
    let relay = "meta l4proto udp accept"@;
    let to = ruleset::family(p.proxy_ip) + " daddr "@ + p.proxy_ip.name();
    read_to_proxy(p, relay, k);
    read_leaving(p.iface@, to + seq![' '] + relay, k);
    reveal_strlit(" meta l4proto udp accept");
    reveal_strlit("meta l4proto udp accept");
    assert(to + seq![' '] + relay =~= to + " meta l4proto udp accept"@);
    read_meta(accept, k);
    assert(seq!["meta"@, "l4proto"@, "udp"@] + accept =~= seq![
        "meta"@,
        "l4proto"@,
        "udp"@,
        "accept"@,
    ]);
    let port = text::decimal_text(p.proxy_port as nat);
    addr::decimal_reads_back(p.proxy_port as nat);
    assert(addr::is_digit(port[0]));
    assert forall|i: int| 0 <= i < port.len() implies ruleset::is_word_char(#[trigger] port[i]) by {
        assert(addr::is_digit(port[i]));
    }
    name_is_a_word(port);
    text::word_is_its_only_word("accept"@);
    text::word_in_front(port, "accept"@);
    text::word_in_front("dport"@, port.push(' ') + "accept"@);
    let tcp = "tcp"@.push(' ') + ("dport"@.push(' ') + (port.push(' ') + "accept"@));
    text::word_in_front("tcp"@, "dport"@.push(' ') + (port.push(' ') + "accept"@));
    let tail = seq![port] + accept;
    assert(text::words_text(tcp) =~= seq!["tcp"@, "dport"@] + tail);
    read_to_proxy(p, tcp, k);
    read_leaving(p.iface@, to + seq![' '] + tcp, k);
    reveal_strlit(" tcp dport ");
    reveal_strlit("tcp");
    reveal_strlit("dport");
    reveal_strlit(" accept");
    reveal_strlit("accept");
    assert(to + seq![' '] + tcp =~= to + " tcp dport "@ + port + " accept"@);
    read_comparison(tail, k);
    if k.transport is Tcp {
        compare_one(port, accept, Field::Port(k.transport->Tcp_0));
    }
}

proof fn read_local(p: RulesetParams, tun: Seq<char>, k: Packet)
    requires
        ruleset::is_word(p.iface@),
    ensures
        does(Rule::LocalV4Drop, p, tun, k, Verdict::Drop),
        does(Rule::LocalV4Accept, p, tun, k, Verdict::Accept),
{
    local_v4_drop_words();
    local_v4_accept_words();
    read_leaving(
        p.iface@,
        "ip daddr { 10.0.0.0/8, 172.16.0.0/12, 192.168.0.0/16, 169.254.0.0/16 } drop"@,
        k,
    );
    read_leaving(
        p.iface@,
        "ip daddr { 10.0.0.0/8, 172.16.0.0/12, 192.168.0.0/16, 169.254.0.0/16 } accept"@,
        k,
    );
    local_v4_elements();
    local_v4_set(k.to);
    read_verdicts(k);
    let (drop, accept) = (seq!["drop"@], seq!["accept"@]);
    let v4 = local_v4_words();
    compare_set(v4, drop, Field::Address(k.to));
    compare_set(v4, accept, Field::Address(k.to));
    let dropped = seq!["{"@] + v4 + seq!["}"@] + drop;
    let accepted = seq!["{"@] + v4 + seq!["}"@] + accept;
    read_comparison(dropped, k);
    read_comparison(accepted, k);
    assert(seq!["ip"@, "daddr"@] + dropped =~= text::words_text(
        "ip daddr { 10.0.0.0/8, 172.16.0.0/12, 192.168.0.0/16, 169.254.0.0/16 } drop"@,
    ));
    assert(seq!["ip"@, "daddr"@] + accepted =~= text::words_text(
        "ip daddr { 10.0.0.0/8, 172.16.0.0/12, 192.168.0.0/16, 169.254.0.0/16 } accept"@,
    ));
}

proof fn read_ipv6(p: RulesetParams, tun: Seq<char>, k: Packet)
    requires
        ruleset::is_word(p.iface@),
    ensures
        does(Rule::LocalV6Drop, p, tun, k, Verdict::Drop),
        does(Rule::LocalV6Accept, p, tun, k, Verdict::Accept),
        does(Rule::Ipv6Drop, p, tun, k, Verdict::Drop),
{
    local_v6_drop_words();
    local_v6_accept_words();
    ipv6_drop_words();
    read_leaving(p.iface@, "ip6 daddr { fc00::/7, fe80::/10 } drop"@, k);
    read_leaving(p.iface@, "ip6 daddr { fc00::/7, fe80::/10 } accept"@, k);
    read_leaving(p.iface@, "ip6 daddr != { fe80::/10, ff00::/8 } drop"@, k);
    v6_elements();
    local_v6_set(k.to);
    read_verdicts(k);
    let (drop, accept) = (seq!["drop"@], seq!["accept"@]);
    let local = seq!["fc00::/7,"@, "fe80::/10"@];
    let link = seq!["fe80::/10,"@, "ff00::/8"@];
    compare_set(local, drop, Field::Address(k.to));
    compare_set(local, accept, Field::Address(k.to));
    compare_set(link, drop, Field::Address(k.to));
    let dropped = seq!["{"@] + local + seq!["}"@] + drop;
    let accepted = seq!["{"@] + local + seq!["}"@] + accept;
    let other = seq!["!="@] + (seq!["{"@] + link + seq!["}"@] + drop);
    read_comparison(dropped, k);
    read_comparison(accepted, k);
    read_comparison(other, k);
    assert(seq!["ip6"@, "daddr"@] + dropped =~= text::words_text(
        "ip6 daddr { fc00::/7, fe80::/10 } drop"@,
    ));
    assert(seq!["ip6"@, "daddr"@] + accepted =~= text::words_text(
        "ip6 daddr { fc00::/7, fe80::/10 } accept"@,
    ));
    assert(seq!["ip6"@, "daddr"@] + other =~= text::words_text(
        "ip6 daddr != { fe80::/10, ff00::/8 } drop"@,
    ));
}

/// The text of a rule, as nft reads it, matches just the packets that the rule applies to,
/// and lets them through where the rule accepts. What it does not let through is dropped,
/// but for UDP that is answered with an error.
pub proof fn rules_do_what_they_say(rule: Rule, p: RulesetParams, tun: Seq<char>, k: Packet)
    requires
        ruleset::is_iface(p.iface@),
        p.proxy_ip.wf(),
        addr::is_dotted(tun),
    ensures
        ({
            let read = reading(text::words_text(ruleset::rule_text(rule, p, tun)), k);
            &&& read is Some <==> leaks::applies(rule, p, tun, k)
            &&& leaks::applies(rule, p, tun, k) ==> read == Some(
                if leaks::accepts(rule) {
                    Verdict::Accept
                } else if rule is UdpReject || rule is Ipv6UdpReject {
                    Verdict::Reject
                } else {
                    Verdict::Drop
                },
            )
        }),
{
    assert forall|i: int| 0 <= i < p.iface@.len() implies ruleset::is_word_char(
        #[trigger] p.iface@[i],
    ) by {
        assert(ruleset::is_iface_char(p.iface@[i]));
    }
    read_lease(p, tun, k);
    read_forwarder(p, tun, k);
    read_udp(p, tun, k);
    read_plain(p, tun, k);
    read_ipv6_dns(p, tun, k);
    read_proxy(p, tun, k);
    read_local(p, tun, k);
    read_ipv6(p, tun, k);
}

/// Rejecting UDP knows no interface: what the text of the rule does to a packet is the same
/// whatever interface it leaves by.
pub proof fn rejected_udp_is_rejected_everywhere(
    p: RulesetParams,
    tun: Seq<char>,
    k: Packet,
    other: Seq<char>,
)
    requires
        ruleset::is_iface(p.iface@),
        p.proxy_ip.wf(),
        addr::is_dotted(tun),
    ensures
        ({
            let words = text::words_text(ruleset::rule_text(Rule::UdpReject, p, tun));
            &&& reading(words, k) == reading(words, Packet { oif: other, ..k })
            &&& reading(words, k) == (if k.transport is Udp {
                Some(Verdict::Reject)
            } else {
                None
            })
            &&& !words.contains("oifname"@)
        }),
{
    rules_do_what_they_say(Rule::UdpReject, p, tun, k);
    rules_do_what_they_say(Rule::UdpReject, p, tun, Packet { oif: other, ..k });
    udp_reject_words();
    keywords();
}

// ---------------------------------------------------------------------------
// The script
// ---------------------------------------------------------------------------

/// The lines of a script, each as its words.
pub open spec fn script_lines(s: Seq<char>) -> Seq<Seq<Seq<char>>> {
    text::lines_text(s).map_values(|l: Seq<char>| text::words_text(l))
}

/// The lines up to the one that closes the block.
pub open spec fn block(lines: Seq<Seq<Seq<char>>>) -> Seq<Seq<Seq<char>>>
    decreases lines.len(),
{
    if lines.len() == 0 || lines[0] == seq!["}"@] {
        Seq::empty()
    } else {
        seq![lines[0]] + block(lines.drop_first())
    }
}

/// The lines of the first chain of that name; none where there is no such chain.
pub open spec fn chain_in(lines: Seq<Seq<Seq<char>>>, name: Seq<char>) -> Seq<Seq<Seq<char>>>
    decreases lines.len(),
{
    if lines.len() == 0 {
        Seq::empty()
    } else if lines[0] == seq!["chain"@, name, "{"@] {
        block(lines.drop_first())
    } else {
        chain_in(lines.drop_first(), name)
    }
}

/// What the first rule that applies does with a packet; `None` where none applies.
pub open spec fn chain_verdict(rules: Seq<Seq<Seq<char>>>, k: Packet) -> Option<Verdict>
    decreases rules.len(),
{
    if rules.len() == 0 {
        None
    } else if reading(rules[0], k) is Some {
        reading(rules[0], k)
    } else {
        chain_verdict(rules.drop_first(), k)
    }
}

/// Whether a text has no line end in it.
spec fn plain(s: Seq<char>) -> bool {
    forall|i: int| 0 <= i < s.len() ==> #[trigger] s[i] != '\n' && s[i] != '\r'
}

proof fn plain_together(a: Seq<char>, b: Seq<char>)
    ensures
        plain(a) && plain(b) ==> plain(a + b),
{
    if plain(a) && plain(b) {
        assert forall|i: int| 0 <= i < (a + b).len() implies #[trigger] (a + b)[i] != '\n' && (a
            + b)[i] != '\r' by {
            if i < a.len() {
                assert((a + b)[i] == a[i]);
            } else {
                assert((a + b)[i] == b[i - a.len()]);
            }
        }
    }
}

proof fn word_is_plain(name: Seq<char>)
    requires
        ruleset::is_word(name),
    ensures
        plain(name),
{
    assert forall|i: int| 0 <= i < name.len() implies #[trigger] name[i] != '\n' && name[i] != '\r' by {
        assert(ruleset::is_word_char(name[i]));
    }
}

proof fn short_texts_are_plain()
    ensures
        plain("udp dport { 67, 547 } accept"@),
        plain(" udp dport 5335 accept"@),
        plain("meta l4proto udp reject"@),
        plain("meta nfproto ipv6 meta l4proto udp reject"@),
        plain("meta l4proto udp meta mark 0x5057 accept"@),
        plain(" meta l4proto udp accept"@),
        plain("oifname != \"lo\" meta nfproto ipv6 udp dport 53 drop"@),
        plain("oifname \"lo\" accept"@),
        plain("accept"@),
        plain("drop"@),
        plain("ip daddr "@),
        plain(" daddr "@),
        plain(" tcp dport "@),
        plain(" accept"@),
        plain("ip"@),
        plain("ip6"@),
        plain("oifname \""@),
        plain("\" "@),
        plain("pwtun0"@),
{
    reveal_strlit("udp dport { 67, 547 } accept");
    reveal_strlit(" udp dport 5335 accept");
    reveal_strlit("meta l4proto udp reject");
    reveal_strlit("meta nfproto ipv6 meta l4proto udp reject");
    reveal_strlit("meta l4proto udp meta mark 0x5057 accept");
    reveal_strlit(" meta l4proto udp accept");
    reveal_strlit("oifname != \"lo\" meta nfproto ipv6 udp dport 53 drop");
    reveal_strlit("oifname \"lo\" accept");
    reveal_strlit("accept");
    reveal_strlit("drop");
    reveal_strlit("ip daddr ");
    reveal_strlit(" daddr ");
    reveal_strlit(" tcp dport ");
    reveal_strlit(" accept");
    reveal_strlit("ip");
    reveal_strlit("ip6");
    reveal_strlit("oifname \"");
    reveal_strlit("\" ");
    reveal_strlit("pwtun0");
}

proof fn network_texts_are_plain()
    ensures
        plain("ip daddr { 10.0.0.0/8, 172.16.0.0/12, 192.168.0.0/16, 169.254.0.0/16 } drop"@),
        plain("ip daddr { 10.0.0.0/8, 172.16.0.0/12, 192.168.0.0/16, 169.254.0.0/16 } accept"@),
        plain("ip6 daddr { fc00::/7, fe80::/10 } drop"@),
        plain("ip6 daddr { fc00::/7, fe80::/10 } accept"@),
        plain("ip6 daddr != { fe80::/10, ff00::/8 } drop"@),
{
    reveal_strlit("ip daddr { 10.0.0.0/8, 172.16.0.0/12, 192.168.0.0/16, 169.254.0.0/16 } drop");
    reveal_strlit("ip daddr { 10.0.0.0/8, 172.16.0.0/12, 192.168.0.0/16, 169.254.0.0/16 } accept");
    reveal_strlit("ip6 daddr { fc00::/7, fe80::/10 } drop");
    reveal_strlit("ip6 daddr { fc00::/7, fe80::/10 } accept");
    reveal_strlit("ip6 daddr != { fe80::/10, ff00::/8 } drop");
}

proof fn leaving_is_plain(name: Seq<char>, rest: Seq<char>)
    requires
        plain(name),
        plain(rest),
    ensures
        plain(ruleset::leaving(name, rest)),
        ruleset::leaving(name, rest).len() > 0,
        ruleset::leaving(name, rest)[0] == 'o',
{
    short_texts_are_plain();
    reveal_strlit("oifname \"");
    plain_together("oifname \""@, name);
    plain_together("oifname \""@ + name, "\" "@);
    plain_together("oifname \""@ + name + "\" "@, rest);
    assert(ruleset::leaving(name, rest)[0] == "oifname \""@[0]);
}

/// A rule is one line, and does not close the block.
proof fn rule_is_one_line(rule: Rule, p: RulesetParams, tun: Seq<char>)
    requires
        ruleset::is_word(p.iface@),
        ruleset::is_word(p.proxy_ip.name()),
        ruleset::is_word(tun),
    ensures
        plain(ruleset::rule_text(rule, p, tun)),
        text::words_text(ruleset::rule_text(rule, p, tun)) != seq!["}"@],
        text::words_text(ruleset::rule_text(rule, p, tun)).len() > 0,
        text::words_text(ruleset::rule_text(rule, p, tun))[0].len() > 0,
        text::words_text(ruleset::rule_text(rule, p, tun))[0][0] != 'c',
{
    short_texts_are_plain();
    network_texts_are_plain();
    word_is_plain(p.iface@);
    word_is_plain(p.proxy_ip.name());
    word_is_plain(tun);
    let i = p.iface@;
    let s = ruleset::rule_text(rule, p, tun);
    let to = ruleset::family(p.proxy_ip) + " daddr "@ + p.proxy_ip.name();
    plain_together(ruleset::family(p.proxy_ip), " daddr "@);
    plain_together(ruleset::family(p.proxy_ip) + " daddr "@, p.proxy_ip.name());
    let port = text::decimal_text(p.proxy_port as nat);
    addr::decimal_reads_back(p.proxy_port as nat);
    assert forall|j: int| 0 <= j < port.len() implies ruleset::is_word_char(#[trigger] port[j]) by {
        assert(addr::is_digit(port[j]));
    }
    word_is_plain(port);
    plain_together(to, " meta l4proto udp accept"@);
    plain_together(to, " tcp dport "@);
    plain_together(to + " tcp dport "@, port);
    plain_together(to + " tcp dport "@ + port, " accept"@);
    plain_together("ip daddr "@, tun);
    plain_together("ip daddr "@ + tun, " udp dport 5335 accept"@);
    reveal_strlit("ip daddr ");
    reveal_strlit("oifname != \"lo\" meta nfproto ipv6 udp dport 53 drop");
    reveal_strlit("oifname \"lo\" accept");
    reveal_strlit("meta l4proto udp reject");
    reveal_strlit("meta nfproto ipv6 meta l4proto udp reject");
    match rule {
        Rule::DhcpAccept => leaving_is_plain(i, "udp dport { 67, 547 } accept"@),
        Rule::MarkedUdpAccept => leaving_is_plain(i, "meta l4proto udp meta mark 0x5057 accept"@),
        Rule::TunnelAccept => leaving_is_plain(ruleset::TUN_NAME@, "accept"@),
        Rule::ProxyTcpAccept => leaving_is_plain(i, to + " tcp dport "@ + port + " accept"@),
        Rule::ProxyUdpAccept => leaving_is_plain(i, to + " meta l4proto udp accept"@),
        Rule::LocalV4Drop => leaving_is_plain(
            i,
            "ip daddr { 10.0.0.0/8, 172.16.0.0/12, 192.168.0.0/16, 169.254.0.0/16 } drop"@,
        ),
        Rule::LocalV6Drop => leaving_is_plain(i, "ip6 daddr { fc00::/7, fe80::/10 } drop"@),
        Rule::LocalV4Accept => leaving_is_plain(
            i,
            "ip daddr { 10.0.0.0/8, 172.16.0.0/12, 192.168.0.0/16, 169.254.0.0/16 } accept"@,
        ),
        Rule::LocalV6Accept => leaving_is_plain(i, "ip6 daddr { fc00::/7, fe80::/10 } accept"@),
        Rule::Ipv6Drop => leaving_is_plain(i, "ip6 daddr != { fe80::/10, ff00::/8 } drop"@),
        Rule::KillSwitchDrop => leaving_is_plain(i, "drop"@),
        Rule::ForwarderAccept => {
            assert(s[0] == "ip daddr "@[0]);
        },
        _ => {},
    }
    assert(s.len() > 0 && (s[0] == 'o' || s[0] == 'i' || s[0] == 'm'));
    text::first_word_begins_the_text(s);
    keywords();
}

/// A line in front of a script is its first.
proof fn line_in_front(line: Seq<char>, rest: Seq<char>)
    requires
        plain(line),
    ensures
        script_lines(line.push('\n') + rest) == seq![text::words_text(line)] + script_lines(rest),
{
    text::lines_after_the_first(line, rest);
    assert(script_lines(line.push('\n') + rest) =~= seq![text::words_text(line)] + script_lines(
        rest,
    ));
}

proof fn indented(rest: Seq<char>)
    ensures
        text::words_text("    "@ + rest) == text::words_text(rest),
        text::words_text("        "@ + rest) == text::words_text(rest),
        plain("    "@),
        plain("        "@),
{
    reveal_strlit("    ");
    reveal_strlit("        ");
    let a = seq![' '] + rest;
    let b = seq![' '] + a;
    let c = seq![' '] + b;
    let d = seq![' '] + c;
    let e = seq![' '] + d;
    let f = seq![' '] + e;
    let g = seq![' '] + f;
    text::white_space_in_front(' ', rest);
    text::white_space_in_front(' ', a);
    text::white_space_in_front(' ', b);
    text::white_space_in_front(' ', c);
    text::white_space_in_front(' ', d);
    text::white_space_in_front(' ', e);
    text::white_space_in_front(' ', f);
    text::white_space_in_front(' ', g);
    assert("    "@ + rest =~= d);
    assert("        "@ + rest =~= seq![' '] + g);
}

/// The rules stand in the script one on a line.
proof fn body_lines(rules: Seq<Rule>, p: RulesetParams, tun: Seq<char>, rest: Seq<char>)
    requires
        ruleset::is_word(p.iface@),
        ruleset::is_word(p.proxy_ip.name()),
        ruleset::is_word(tun),
    ensures
        script_lines(ruleset::body_text(rules, p, tun) + rest) == rule_words(rules, p, tun)
            + script_lines(rest),
    decreases rules.len(),
{
    if rules.len() == 0 {
        assert(ruleset::body_text(rules, p, tun) + rest =~= rest);
        assert(rule_words(rules, p, tun) + script_lines(rest) =~= script_lines(rest));
    } else {
        let line = "        "@ + ruleset::rule_text(rules.last(), p, tun);
        reveal_strlit("\n");
        indented(ruleset::rule_text(rules.last(), p, tun));
        rule_is_one_line(rules.last(), p, tun);
        plain_together("        "@, ruleset::rule_text(rules.last(), p, tun));
        line_in_front(line, rest);
        body_lines(rules.drop_last(), p, tun, line.push('\n') + rest);
        assert(ruleset::body_text(rules, p, tun) + rest =~= ruleset::body_text(
            rules.drop_last(),
            p,
            tun,
        ) + (line.push('\n') + rest));
        assert(rule_words(rules, p, tun) + script_lines(rest) =~= rule_words(
            rules.drop_last(),
            p,
            tun,
        ) + (seq![text::words_text(ruleset::rule_text(rules.last(), p, tun))] + script_lines(rest)));
    }
}

proof fn mark_head_words()
    ensures
        text::words_text("chain udp_direct {"@) == seq!["chain"@, "udp_direct"@, "{"@],
        plain("chain udp_direct {"@),
{
    reveal_strlit("chain");
    reveal_strlit("udp_direct");
    reveal_strlit("{");
    assert(text::is_one_word("chain"@));
    assert(text::is_one_word("udp_direct"@));
    assert(text::is_one_word("{"@));
    let t2 = "{"@;
    text::word_is_its_only_word(t2);
    let t1 = "udp_direct"@.push(' ') + t2;
    text::word_in_front("udp_direct"@, t2);
    let t0 = "chain"@.push(' ') + t1;
    text::word_in_front("chain"@, t1);
    reveal_strlit("chain udp_direct {");
    assert("chain udp_direct {"@ =~= t0);
    assert(text::words_text(t0) =~= seq!["chain"@, "udp_direct"@, "{"@]);
}

proof fn mark_type_words()
    ensures
        text::words_text("type route hook output priority -150; policy accept;"@) == seq![
            "type"@,
            "route"@,
            "hook"@,
            "output"@,
            "priority"@,
            "-150;"@,
            "policy"@,
            "accept;"@,
        ],
        plain("type route hook output priority -150; policy accept;"@),
{
    reveal_strlit("type");
    reveal_strlit("route");
    reveal_strlit("hook");
    reveal_strlit("output");
    reveal_strlit("priority");
    reveal_strlit("-150;");
    reveal_strlit("policy");
    reveal_strlit("accept;");
    assert(text::is_one_word("type"@));
    assert(text::is_one_word("route"@));
    assert(text::is_one_word("hook"@));
    assert(text::is_one_word("output"@));
    assert(text::is_one_word("priority"@));
    assert(text::is_one_word("-150;"@));
    assert(text::is_one_word("policy"@));
    assert(text::is_one_word("accept;"@));
    let t7 = "accept;"@;
    text::word_is_its_only_word(t7);
    let t6 = "policy"@.push(' ') + t7;
    text::word_in_front("policy"@, t7);
    let t5 = "-150;"@.push(' ') + t6;
    text::word_in_front("-150;"@, t6);
    let t4 = "priority"@.push(' ') + t5;
    text::word_in_front("priority"@, t5);
    let t3 = "output"@.push(' ') + t4;
    text::word_in_front("output"@, t4);
    let t2 = "hook"@.push(' ') + t3;
    text::word_in_front("hook"@, t3);
    let t1 = "route"@.push(' ') + t2;
    text::word_in_front("route"@, t2);
    let t0 = "type"@.push(' ') + t1;
    text::word_in_front("type"@, t1);
    reveal_strlit("type route hook output priority -150; policy accept;");
    assert("type route hook output priority -150; policy accept;"@ =~= t0);
    assert(text::words_text(t0) =~= seq![
        "type"@,
        "route"@,
        "hook"@,
        "output"@,
        "priority"@,
        "-150;"@,
        "policy"@,
        "accept;"@,
    ]);
}

proof fn dns_head_words()
    ensures
        text::words_text("chain dns {"@) == seq!["chain"@, "dns"@, "{"@],
        plain("chain dns {"@),
{
    reveal_strlit("chain");
    reveal_strlit("dns");
    reveal_strlit("{");
    assert(text::is_one_word("chain"@));
    assert(text::is_one_word("dns"@));
    assert(text::is_one_word("{"@));
    let t2 = "{"@;
    text::word_is_its_only_word(t2);
    let t1 = "dns"@.push(' ') + t2;
    text::word_in_front("dns"@, t2);
    let t0 = "chain"@.push(' ') + t1;
    text::word_in_front("chain"@, t1);
    reveal_strlit("chain dns {");
    assert("chain dns {"@ =~= t0);
    assert(text::words_text(t0) =~= seq!["chain"@, "dns"@, "{"@]);
}

proof fn dns_type_words()
    ensures
        text::words_text("type nat hook output priority -100; policy accept;"@) == seq![
            "type"@,
            "nat"@,
            "hook"@,
            "output"@,
            "priority"@,
            "-100;"@,
            "policy"@,
            "accept;"@,
        ],
        plain("type nat hook output priority -100; policy accept;"@),
{
    reveal_strlit("type");
    reveal_strlit("nat");
    reveal_strlit("hook");
    reveal_strlit("output");
    reveal_strlit("priority");
    reveal_strlit("-100;");
    reveal_strlit("policy");
    reveal_strlit("accept;");
    assert(text::is_one_word("type"@));
    assert(text::is_one_word("nat"@));
    assert(text::is_one_word("hook"@));
    assert(text::is_one_word("output"@));
    assert(text::is_one_word("priority"@));
    assert(text::is_one_word("-100;"@));
    assert(text::is_one_word("policy"@));
    assert(text::is_one_word("accept;"@));
    let t7 = "accept;"@;
    text::word_is_its_only_word(t7);
    let t6 = "policy"@.push(' ') + t7;
    text::word_in_front("policy"@, t7);
    let t5 = "-100;"@.push(' ') + t6;
    text::word_in_front("-100;"@, t6);
    let t4 = "priority"@.push(' ') + t5;
    text::word_in_front("priority"@, t5);
    let t3 = "output"@.push(' ') + t4;
    text::word_in_front("output"@, t4);
    let t2 = "hook"@.push(' ') + t3;
    text::word_in_front("hook"@, t3);
    let t1 = "nat"@.push(' ') + t2;
    text::word_in_front("nat"@, t2);
    let t0 = "type"@.push(' ') + t1;
    text::word_in_front("type"@, t1);
    reveal_strlit("type nat hook output priority -100; policy accept;");
    assert("type nat hook output priority -100; policy accept;"@ =~= t0);
    assert(text::words_text(t0) =~= seq![
        "type"@,
        "nat"@,
        "hook"@,
        "output"@,
        "priority"@,
        "-100;"@,
        "policy"@,
        "accept;"@,
    ]);
}

proof fn output_head_words()
    ensures
        text::words_text("chain output {"@) == seq!["chain"@, "output"@, "{"@],
        plain("chain output {"@),
{
    reveal_strlit("chain");
    reveal_strlit("output");
    reveal_strlit("{");
    assert(text::is_one_word("chain"@));
    assert(text::is_one_word("output"@));
    assert(text::is_one_word("{"@));
    let t2 = "{"@;
    text::word_is_its_only_word(t2);
    let t1 = "output"@.push(' ') + t2;
    text::word_in_front("output"@, t2);
    let t0 = "chain"@.push(' ') + t1;
    text::word_in_front("chain"@, t1);
    reveal_strlit("chain output {");
    assert("chain output {"@ =~= t0);
    assert(text::words_text(t0) =~= seq!["chain"@, "output"@, "{"@]);
}

proof fn output_type_words()
    ensures
        text::words_text("type filter hook output priority 0; policy accept;"@) == seq![
            "type"@,
            "filter"@,
            "hook"@,
            "output"@,
            "priority"@,
            "0;"@,
            "policy"@,
            "accept;"@,
        ],
        plain("type filter hook output priority 0; policy accept;"@),
{
    reveal_strlit("type");
    reveal_strlit("filter");
    reveal_strlit("hook");
    reveal_strlit("output");
    reveal_strlit("priority");
    reveal_strlit("0;");
    reveal_strlit("policy");
    reveal_strlit("accept;");
    assert(text::is_one_word("type"@));
    assert(text::is_one_word("filter"@));
    assert(text::is_one_word("hook"@));
    assert(text::is_one_word("output"@));
    assert(text::is_one_word("priority"@));
    assert(text::is_one_word("0;"@));
    assert(text::is_one_word("policy"@));
    assert(text::is_one_word("accept;"@));
    let t7 = "accept;"@;
    text::word_is_its_only_word(t7);
    let t6 = "policy"@.push(' ') + t7;
    text::word_in_front("policy"@, t7);
    let t5 = "0;"@.push(' ') + t6;
    text::word_in_front("0;"@, t6);
    let t4 = "priority"@.push(' ') + t5;
    text::word_in_front("priority"@, t5);
    let t3 = "output"@.push(' ') + t4;
    text::word_in_front("output"@, t4);
    let t2 = "hook"@.push(' ') + t3;
    text::word_in_front("hook"@, t3);
    let t1 = "filter"@.push(' ') + t2;
    text::word_in_front("filter"@, t2);
    let t0 = "type"@.push(' ') + t1;
    text::word_in_front("type"@, t1);
    reveal_strlit("type filter hook output priority 0; policy accept;");
    assert("type filter hook output priority 0; policy accept;"@ =~= t0);
    assert(text::words_text(t0) =~= seq![
        "type"@,
        "filter"@,
        "hook"@,
        "output"@,
        "priority"@,
        "0;"@,
        "policy"@,
        "accept;"@,
    ]);
}

proof fn add_table_words()
    ensures
        text::words_text("add table inet proxywifi"@) == seq![
            "add"@,
            "table"@,
            "inet"@,
            "proxywifi"@,
        ],
        plain("add table inet proxywifi"@),
{
    reveal_strlit("add");
    reveal_strlit("table");
    reveal_strlit("inet");
    reveal_strlit("proxywifi");
    assert(text::is_one_word("add"@));
    assert(text::is_one_word("table"@));
    assert(text::is_one_word("inet"@));
    assert(text::is_one_word("proxywifi"@));
    let t3 = "proxywifi"@;
    text::word_is_its_only_word(t3);
    let t2 = "inet"@.push(' ') + t3;
    text::word_in_front("inet"@, t3);
    let t1 = "table"@.push(' ') + t2;
    text::word_in_front("table"@, t2);
    let t0 = "add"@.push(' ') + t1;
    text::word_in_front("add"@, t1);
    reveal_strlit("add table inet proxywifi");
    assert("add table inet proxywifi"@ =~= t0);
    assert(text::words_text(t0) =~= seq!["add"@, "table"@, "inet"@, "proxywifi"@]);
}

proof fn delete_table_words()
    ensures
        text::words_text("delete table inet proxywifi"@) == seq![
            "delete"@,
            "table"@,
            "inet"@,
            "proxywifi"@,
        ],
        plain("delete table inet proxywifi"@),
{
    reveal_strlit("delete");
    reveal_strlit("table");
    reveal_strlit("inet");
    reveal_strlit("proxywifi");
    assert(text::is_one_word("delete"@));
    assert(text::is_one_word("table"@));
    assert(text::is_one_word("inet"@));
    assert(text::is_one_word("proxywifi"@));
    let t3 = "proxywifi"@;
    text::word_is_its_only_word(t3);
    let t2 = "inet"@.push(' ') + t3;
    text::word_in_front("inet"@, t3);
    let t1 = "table"@.push(' ') + t2;
    text::word_in_front("table"@, t2);
    let t0 = "delete"@.push(' ') + t1;
    text::word_in_front("delete"@, t1);
    reveal_strlit("delete table inet proxywifi");
    assert("delete table inet proxywifi"@ =~= t0);
    assert(text::words_text(t0) =~= seq!["delete"@, "table"@, "inet"@, "proxywifi"@]);
}

proof fn open_table_words()
    ensures
        text::words_text("table inet proxywifi {"@) == seq!["table"@, "inet"@, "proxywifi"@, "{"@],
        plain("table inet proxywifi {"@),
{
    reveal_strlit("table");
    reveal_strlit("inet");
    reveal_strlit("proxywifi");
    reveal_strlit("{");
    assert(text::is_one_word("table"@));
    assert(text::is_one_word("inet"@));
    assert(text::is_one_word("proxywifi"@));
    assert(text::is_one_word("{"@));
    let t3 = "{"@;
    text::word_is_its_only_word(t3);
    let t2 = "proxywifi"@.push(' ') + t3;
    text::word_in_front("proxywifi"@, t3);
    let t1 = "inet"@.push(' ') + t2;
    text::word_in_front("inet"@, t2);
    let t0 = "table"@.push(' ') + t1;
    text::word_in_front("table"@, t1);
    reveal_strlit("table inet proxywifi {");
    assert("table inet proxywifi {"@ =~= t0);
    assert(text::words_text(t0) =~= seq!["table"@, "inet"@, "proxywifi"@, "{"@]);
}

/// The words of the rule that marks UDP.
spec fn mark_words(dns_proxied: bool) -> Seq<Seq<char>> {
    seq!["meta"@, "nfproto"@, "ipv4"@] + (seq!["ip"@, "daddr"@] + (seq!["!="@] + (seq!["{"@]
        + local_v4_words() + seq!["}"@] + mark_rest(dns_proxied))))
}

/// What they go on with behind the networks.
spec fn mark_rest(dns_proxied: bool) -> Seq<Seq<char>> {
    if dns_proxied {
        seq!["udp"@, "dport"@] + (seq!["!="@, "53"@] + mark_end())
    } else {
        mark_end()
    }
}

spec fn mark_end() -> Seq<Seq<char>> {
    seq!["meta"@, "l4proto"@, "udp"@] + seq!["meta"@, "mark"@, "set"@, "0x5057"@]
}

/// The text of the rule that marks UDP, from behind the networks on.
spec fn mark_rest_text(dns_proxied: bool) -> Seq<char> {
    if dns_proxied {
        "udp dport != 53 "@ + "meta l4proto udp meta mark set 0x5057"@
    } else {
        "meta l4proto udp meta mark set 0x5057"@
    }
}

proof fn mark_rest_reads(dns_proxied: bool)
    ensures
        text::words_text(mark_rest_text(dns_proxied)) == mark_rest(dns_proxied),
        plain(mark_rest_text(dns_proxied)),
{
    single_words();
    mark_set_words();
    let end = "meta l4proto udp meta mark set 0x5057"@;
    assert(text::words_text(end) =~= mark_end());
    assert(plain(end)) by {
        reveal_strlit("meta l4proto udp meta mark set 0x5057");
    }
    if dns_proxied {
        let a = "53"@.push(' ') + end;
        let b = "!="@.push(' ') + a;
        let c = "dport"@.push(' ') + b;
        let d = "udp"@.push(' ') + c;
        text::word_in_front("53"@, end);
        text::word_in_front("!="@, a);
        text::word_in_front("dport"@, b);
        text::word_in_front("udp"@, c);
        reveal_strlit("udp dport != 53 ");
        reveal_strlit("udp");
        reveal_strlit("dport");
        reveal_strlit("!=");
        reveal_strlit("53");
        assert(mark_rest_text(true) =~= d);
        assert(text::words_text(d) =~= mark_rest(true));
        plain_together("udp dport != 53 "@, end);
    }
}

spec fn mark_rule_text(dns_proxied: bool) -> Seq<char> {
    "meta nfproto ipv4 ip daddr != { 10.0.0.0/8, 172.16.0.0/12, 192.168.0.0/16, 169.254.0.0/16 } "@
        + mark_rest_text(dns_proxied)
}

/// The set of local networks in front of a text, word by word.
spec fn networks_spelled(r: Seq<char>) -> Seq<char> {
    let closed = "}"@.push(' ') + r;
    let fourth = "169.254.0.0/16"@.push(' ') + closed;
    let third = "192.168.0.0/16,"@.push(' ') + fourth;
    let second = "172.16.0.0/12,"@.push(' ') + third;
    "{"@.push(' ') + ("10.0.0.0/8,"@.push(' ') + second)
}

/// The beginning of the rule that marks UDP, word by word.
#[verifier::rlimit(40)]
proof fn mark_rule_spelled(r: Seq<char>)
    ensures
        "meta nfproto ipv4 ip daddr != { 10.0.0.0/8, 172.16.0.0/12, 192.168.0.0/16, 169.254.0.0/16 } "@
            + r == "meta"@.push(' ') + ("nfproto"@.push(' ') + ("ipv4"@.push(' ') + ("ip"@.push(' ') + ("daddr"@.push(' ') + ("!="@.push(' ') + networks_spelled(r)))))),
{
    reveal_strlit(
        "meta nfproto ipv4 ip daddr != { 10.0.0.0/8, 172.16.0.0/12, 192.168.0.0/16, 169.254.0.0/16 } ",
    );
    reveal_strlit("meta");
    reveal_strlit("nfproto");
    reveal_strlit("ipv4");
    reveal_strlit("ip");
    reveal_strlit("daddr");
    reveal_strlit("!=");
    reveal_strlit("{");
    reveal_strlit("10.0.0.0/8,");
    reveal_strlit("172.16.0.0/12,");
    reveal_strlit("192.168.0.0/16,");
    reveal_strlit("169.254.0.0/16");
    reveal_strlit("}");
    assert("meta nfproto ipv4 ip daddr != { 10.0.0.0/8, 172.16.0.0/12, 192.168.0.0/16, 169.254.0.0/16 } "@
        + r =~= "meta"@.push(' ') + ("nfproto"@.push(' ') + ("ipv4"@.push(' ') + ("ip"@.push(' ') + ("daddr"@.push(' ') + ("!="@.push(' ') + networks_spelled(r)))))));
}

proof fn networks_read(r: Seq<char>)
    ensures
        text::words_text(networks_spelled(r))
            == seq!["{"@] + local_v4_words() + seq!["}"@] + text::words_text(r),
{
    single_words();
    let t5 = "}"@.push(' ') + r;
    text::word_in_front("}"@, r);
    let t4 = "169.254.0.0/16"@.push(' ') + t5;
    text::word_in_front("169.254.0.0/16"@, t5);
    let t3 = "192.168.0.0/16,"@.push(' ') + t4;
    text::word_in_front("192.168.0.0/16,"@, t4);
    let t2 = "172.16.0.0/12,"@.push(' ') + t3;
    text::word_in_front("172.16.0.0/12,"@, t3);
    let t1 = "10.0.0.0/8,"@.push(' ') + t2;
    text::word_in_front("10.0.0.0/8,"@, t2);
    let t0 = "{"@.push(' ') + t1;
    text::word_in_front("{"@, t1);
    assert(text::words_text(t0) =~= seq!["{"@] + local_v4_words() + seq!["}"@] + text::words_text(r));
}

#[verifier::rlimit(40)]
proof fn mark_rule_reads(dns_proxied: bool)
    ensures
        text::words_text(mark_rule_text(dns_proxied)) == mark_words(dns_proxied),
        plain(mark_rule_text(dns_proxied)),
{
    single_words();
    mark_rest_reads(dns_proxied);
    let r = mark_rest_text(dns_proxied);
    let set = networks_spelled(r);
    networks_read(r);
    let t5 = "!="@.push(' ') + set;
    text::word_in_front("!="@, set);
    let t4 = "daddr"@.push(' ') + t5;
    text::word_in_front("daddr"@, t5);
    let t3 = "ip"@.push(' ') + t4;
    text::word_in_front("ip"@, t4);
    let t2 = "ipv4"@.push(' ') + t3;
    text::word_in_front("ipv4"@, t3);
    let t1 = "nfproto"@.push(' ') + t2;
    text::word_in_front("nfproto"@, t2);
    let t0 = "meta"@.push(' ') + t1;
    text::word_in_front("meta"@, t1);
    mark_rule_spelled(r);
    let words = text::words_text(set);
    assert(text::words_text(t4) =~= seq!["daddr"@] + (seq!["!="@] + words));
    assert(text::words_text(t3) =~= seq!["ip"@, "daddr"@] + (seq!["!="@] + words));
    assert(text::words_text(t0) =~= seq!["meta"@, "nfproto"@, "ipv4"@] + (seq!["ip"@, "daddr"@] + (
    seq!["!="@] + words)));
    mark_rule_is_plain(dns_proxied);
}

proof fn mark_rule_is_plain(dns_proxied: bool)
    ensures
        plain(mark_rule_text(dns_proxied)),
{
    mark_rest_reads(dns_proxied);
    reveal_strlit(
        "meta nfproto ipv4 ip daddr != { 10.0.0.0/8, 172.16.0.0/12, 192.168.0.0/16, 169.254.0.0/16 } ",
    );
    plain_together(
        "meta nfproto ipv4 ip daddr != { 10.0.0.0/8, 172.16.0.0/12, 192.168.0.0/16, 169.254.0.0/16 } "@,
        mark_rest_text(dns_proxied),
    );
}

/// The rule marks just the UDP that goes direct.
proof fn read_marks(p: RulesetParams, k: Packet)
    requires
        p.udp is Direct,
    ensures
        reading(mark_words(p.dns_proxied), k) == (if leaks::is_marked(p, k) {
            Some(Verdict::Mark(0x5057))
        } else {
            None
        }),
{
    ports();
    let v4 = local_v4_words();
    let rest = mark_rest(p.dns_proxied);
    let set = seq!["{"@] + v4 + seq!["}"@] + rest;
    local_v4_elements();
    local_v4_set(k.to);
    read_meta(seq!["ip"@, "daddr"@] + (seq!["!="@] + set), k);
    read_comparison(seq!["!="@] + set, k);
    compare_set(v4, rest, Field::Address(k.to));
    let mark = seq!["meta"@, "mark"@, "set"@, "0x5057"@];
    read_meta(mark, k);
    read_mark("0x5057"@, Seq::empty(), k);
    if p.dns_proxied {
        read_comparison(seq!["!="@, "53"@] + mark_end(), k);
        if k.transport is Udp {
            compare_one("53"@, mark_end(), Field::Port(k.transport->Udp_0));
        }
    }
}

/// The lines of the chain that marks UDP.
spec fn mark_lines(p: RulesetParams) -> Seq<Seq<Seq<char>>> {
    if p.udp is Direct {
        seq![
            seq!["chain"@, "udp_direct"@, "{"@],
            seq!["type"@, "route"@, "hook"@, "output"@, "priority"@, "-150;"@, "policy"@, "accept;"@],
            mark_words(p.dns_proxied),
            seq!["}"@],
        ]
    } else {
        seq![]
    }
}

proof fn closing_line(rest: Seq<char>)
    ensures
        script_lines("    }\n"@ + rest) == seq![seq!["}"@]] + script_lines(rest),
{
    single_words();
    text::word_is_its_only_word("}"@);
    indented("}"@);
    reveal_strlit("}");
    reveal_strlit("    ");
    reveal_strlit("    }\n");
    plain_together("    "@, "}"@);
    line_in_front("    "@ + "}"@, rest);
    assert("    }\n"@ + rest =~= ("    "@ + "}"@).push('\n') + rest);
}

proof fn mark_chain_lines(p: RulesetParams, rest: Seq<char>)
    ensures
        script_lines(ruleset::mark_chain(p) + rest) == mark_lines(p) + script_lines(rest),
{
    if p.udp is Direct {
        mark_head_words();
        mark_type_words();
        mark_rule_reads(p.dns_proxied);
        indented("chain udp_direct {"@);
        indented("type route hook output priority -150; policy accept;"@);
        indented(mark_rule_text(p.dns_proxied));
        plain_together("    "@, "chain udp_direct {"@);
        plain_together("        "@, "type route hook output priority -150; policy accept;"@);
        plain_together("        "@, mark_rule_text(p.dns_proxied));
        let c = "    }\n"@ + rest;
        let b = ("        "@ + mark_rule_text(p.dns_proxied)).push('\n') + c;
        let a = ("        "@ + "type route hook output priority -150; policy accept;"@).push('\n') + b;
        let all = ("    "@ + "chain udp_direct {"@).push('\n') + a;
        closing_line(rest);
        line_in_front("        "@ + mark_rule_text(p.dns_proxied), c);
        line_in_front("        "@ + "type route hook output priority -150; policy accept;"@, b);
        line_in_front("    "@ + "chain udp_direct {"@, a);
        mark_chain_text(p);
        assert(ruleset::mark_chain(p) + rest =~= all);
        assert(script_lines(all) =~= mark_lines(p) + script_lines(rest));
    } else {
        reveal_strlit("");
        assert(ruleset::mark_chain(p) + rest =~= rest);
        assert(mark_lines(p) + script_lines(rest) =~= script_lines(rest));
    }
}

/// The chain that marks UDP, line by line.
proof fn mark_chain_text(p: RulesetParams)
    requires
        p.udp is Direct,
    ensures
        ruleset::mark_chain(p) == ("    "@ + "chain udp_direct {"@).push('\n') + ((("        "@
            + "type route hook output priority -150; policy accept;"@).push('\n')) + (("        "@
            + mark_rule_text(p.dns_proxied)).push('\n') + "    }\n"@)),
{
    let head = "    chain udp_direct {\n        type route hook output priority -150; policy accept;\n        meta nfproto ipv4 ip daddr != { 10.0.0.0/8, 172.16.0.0/12, 192.168.0.0/16, 169.254.0.0/16 } "@;
    let nets = "meta nfproto ipv4 ip daddr != { 10.0.0.0/8, 172.16.0.0/12, 192.168.0.0/16, 169.254.0.0/16 } "@;
    let end = "meta l4proto udp meta mark set 0x5057\n    }\n"@;
    assert(head =~= ("    "@ + "chain udp_direct {"@).push('\n') + (("        "@
        + "type route hook output priority -150; policy accept;"@).push('\n') + ("        "@ + nets))) by {
        reveal_strlit("    chain udp_direct {\n        type route hook output priority -150; policy accept;\n        meta nfproto ipv4 ip daddr != { 10.0.0.0/8, 172.16.0.0/12, 192.168.0.0/16, 169.254.0.0/16 } ");
        reveal_strlit("meta nfproto ipv4 ip daddr != { 10.0.0.0/8, 172.16.0.0/12, 192.168.0.0/16, 169.254.0.0/16 } ");
        reveal_strlit("    ");
        reveal_strlit("        ");
        reveal_strlit("chain udp_direct {");
        reveal_strlit("type route hook output priority -150; policy accept;");
    }
    assert(end =~= "meta l4proto udp meta mark set 0x5057"@.push('\n') + "    }\n"@) by {
        reveal_strlit("meta l4proto udp meta mark set 0x5057\n    }\n");
        reveal_strlit("meta l4proto udp meta mark set 0x5057");
        reveal_strlit("    }\n");
    }
    reveal_strlit("");
    let middle = if p.dns_proxied {
        "udp dport != 53 "@
    } else {
        ""@
    };
    assert(ruleset::mark_chain(p) == head + middle + end);
    assert(mark_rule_text(p.dns_proxied) =~= nets + middle + "meta l4proto udp meta mark set 0x5057"@);
    assert(ruleset::mark_chain(p) =~= ("    "@ + "chain udp_direct {"@).push('\n') + ((("        "@
        + "type route hook output priority -150; policy accept;"@).push('\n')) + (("        "@
        + mark_rule_text(p.dns_proxied)).push('\n') + "    }\n"@)));
}

/// The words of the rule that redirects DNS.
spec fn dns_words(tun: Seq<char>) -> Seq<Seq<char>> {
    seq!["oifname"@, "!="@, seq!['"'] + "lo"@ + seq!['"']] + (seq!["meta"@, "nfproto"@, "ipv4"@] + (
    seq!["udp"@, "dport"@] + (seq!["53"@] + seq!["dnat"@, "ip"@, "to"@, tun + ":5335"@])))
}

spec fn dns_rule_text(tun: Seq<char>) -> Seq<char> {
    "oifname != \"lo\" meta nfproto ipv4 udp dport 53 dnat ip to "@ + (tun + ":5335"@)
}

/// The beginning of the rule that redirects DNS, word by word.
#[verifier::rlimit(40)]
proof fn dns_rule_spelled(target: Seq<char>)
    ensures
        "oifname != \"lo\" meta nfproto ipv4 udp dport 53 dnat ip to "@ + target == "oifname"@.push(' ')
            + ("!="@.push(' ') + ((seq!['"'] + "lo"@ + seq!['"']).push(' ') + ("meta"@.push(' ') + (
        "nfproto"@.push(' ') + ("ipv4"@.push(' ') + ("udp"@.push(' ') + ("dport"@.push(' ') + (
        "53"@.push(' ') + ("dnat"@.push(' ') + ("ip"@.push(' ') + ("to"@.push(' ') + target))))))))))),
{
    reveal_strlit("oifname != \"lo\" meta nfproto ipv4 udp dport 53 dnat ip to ");
    reveal_strlit("lo");
    reveal_strlit("to");
    reveal_strlit("ip");
    reveal_strlit("dnat");
    reveal_strlit("53");
    reveal_strlit("dport");
    reveal_strlit("udp");
    reveal_strlit("ipv4");
    reveal_strlit("nfproto");
    reveal_strlit("meta");
    reveal_strlit("!=");
    reveal_strlit("oifname");
    assert("oifname != \"lo\" meta nfproto ipv4 udp dport 53 dnat ip to "@ + target
        =~= "oifname"@.push(' ') + ("!="@.push(' ') + ((seq!['"'] + "lo"@ + seq!['"']).push(' ') + (
    "meta"@.push(' ') + ("nfproto"@.push(' ') + ("ipv4"@.push(' ') + ("udp"@.push(' ') + (
    "dport"@.push(' ') + ("53"@.push(' ') + ("dnat"@.push(' ') + ("ip"@.push(' ') + ("to"@.push(' ')
        + target))))))))))));
}

#[verifier::rlimit(40)]
proof fn dns_rule_reads(tun: Seq<char>)
    requires
        ruleset::is_word(tun),
    ensures
        text::words_text(dns_rule_text(tun)) == dns_words(tun),
        plain(dns_rule_text(tun)),
{
    single_words();
    let target = tun + ":5335"@;
    assert(ruleset::is_word(target) && ruleset::is_word("lo"@)) by {
        reveal_strlit(":5335");
        reveal_strlit("lo");
        assert forall|i: int| 0 <= i < target.len() implies ruleset::is_word_char(
            #[trigger] target[i],
        ) by {
            if i < tun.len() {
                assert(ruleset::is_word_char(tun[i]));
            }
        }
    }
    name_is_a_word(target);
    name_is_a_word("lo"@);
    word_is_plain(target);
    let quoted = seq!['"'] + "lo"@ + seq!['"'];
    text::word_is_its_only_word(target);
    let a = "to"@.push(' ') + target;
    let b = "ip"@.push(' ') + a;
    let c = "dnat"@.push(' ') + b;
    let d = "53"@.push(' ') + c;
    let e = "dport"@.push(' ') + d;
    let f = "udp"@.push(' ') + e;
    let g = "ipv4"@.push(' ') + f;
    let h = "nfproto"@.push(' ') + g;
    let i = "meta"@.push(' ') + h;
    let j = quoted.push(' ') + i;
    let l = "!="@.push(' ') + j;
    let all = "oifname"@.push(' ') + l;
    text::word_in_front("to"@, target);
    text::word_in_front("ip"@, a);
    text::word_in_front("dnat"@, b);
    text::word_in_front("53"@, c);
    text::word_in_front("dport"@, d);
    text::word_in_front("udp"@, e);
    text::word_in_front("ipv4"@, f);
    text::word_in_front("nfproto"@, g);
    text::word_in_front("meta"@, h);
    text::word_in_front(quoted, i);
    text::word_in_front("!="@, j);
    text::word_in_front("oifname"@, l);
    dns_rule_spelled(target);
    assert(text::words_text(all) =~= dns_words(tun));
    assert(plain("oifname != \"lo\" meta nfproto ipv4 udp dport 53 dnat ip to "@)) by {
        reveal_strlit("oifname != \"lo\" meta nfproto ipv4 udp dport 53 dnat ip to ");
    }
    plain_together("oifname != \"lo\" meta nfproto ipv4 udp dport 53 dnat ip to "@, target);
}

/// The rule redirects just the IPv4 DNS that leaves the host.
proof fn read_redirect(tun: Seq<char>, k: Packet)
    ensures
        reading(dns_words(tun), k) == (if k.oif != "lo"@ && k.to is V4 && k.transport
            == Transport::Udp(53) {
            Some(Verdict::Redirect(tun + ":5335"@))
        } else {
            None
        }),
{
    ports();
    keywords();
    reveal_strlit("lo");
    let last = seq!["dnat"@, "ip"@, "to"@, tun + ":5335"@];
    let port = seq!["53"@] + last;
    let udp = seq!["udp"@, "dport"@] + port;
    let rest = seq!["meta"@, "nfproto"@, "ipv4"@] + udp;
    read_interface("lo"@, rest, k);
    read_meta(udp, k);
    read_comparison(port, k);
    if k.transport is Udp {
        compare_one("53"@, last, Field::Port(k.transport->Udp_0));
    }
    assert(reading(last, k) == Some(Verdict::Redirect(tun + ":5335"@)));
}

/// The lines of the chain that redirects DNS.
spec fn dns_lines(p: RulesetParams, tun: Seq<char>) -> Seq<Seq<Seq<char>>> {
    if p.dns_proxied {
        seq![
            seq!["chain"@, "dns"@, "{"@],
            seq!["type"@, "nat"@, "hook"@, "output"@, "priority"@, "-100;"@, "policy"@, "accept;"@],
            dns_words(tun),
            seq!["}"@],
        ]
    } else {
        seq![]
    }
}

/// The chain that redirects DNS, line by line.
proof fn dns_chain_text(p: RulesetParams, tun: Seq<char>)
    requires
        p.dns_proxied,
    ensures
        ruleset::dns_chain(p, tun) == ("    "@ + "chain dns {"@).push('\n') + ((("        "@
            + "type nat hook output priority -100; policy accept;"@).push('\n')) + (("        "@
            + dns_rule_text(tun)).push('\n') + "    }\n"@)),
{
    let head = "    chain dns {\n        type nat hook output priority -100; policy accept;\n        oifname != \"lo\" meta nfproto ipv4 udp dport 53 dnat ip to "@;
    let rule = "oifname != \"lo\" meta nfproto ipv4 udp dport 53 dnat ip to "@;
    assert(head =~= ("    "@ + "chain dns {"@).push('\n') + (("        "@
        + "type nat hook output priority -100; policy accept;"@).push('\n') + ("        "@ + rule))) by {
        reveal_strlit("    chain dns {\n        type nat hook output priority -100; policy accept;\n        oifname != \"lo\" meta nfproto ipv4 udp dport 53 dnat ip to ");
        reveal_strlit("oifname != \"lo\" meta nfproto ipv4 udp dport 53 dnat ip to ");
        reveal_strlit("    ");
        reveal_strlit("        ");
        reveal_strlit("chain dns {");
        reveal_strlit("type nat hook output priority -100; policy accept;");
    }
    assert(":5335\n    }\n"@ =~= ":5335"@.push('\n') + "    }\n"@) by {
        reveal_strlit(":5335\n    }\n");
        reveal_strlit(":5335");
        reveal_strlit("    }\n");
    }
    assert(ruleset::dns_chain(p, tun) =~= ("    "@ + "chain dns {"@).push('\n') + ((("        "@
        + "type nat hook output priority -100; policy accept;"@).push('\n')) + (("        "@
        + dns_rule_text(tun)).push('\n') + "    }\n"@)));
}

proof fn dns_chain_lines(p: RulesetParams, tun: Seq<char>, rest: Seq<char>)
    requires
        ruleset::is_word(tun),
    ensures
        script_lines(ruleset::dns_chain(p, tun) + rest) == dns_lines(p, tun) + script_lines(rest),
{
    if p.dns_proxied {
        dns_head_words();
        dns_type_words();
        dns_rule_reads(tun);
        indented("chain dns {"@);
        indented("type nat hook output priority -100; policy accept;"@);
        indented(dns_rule_text(tun));
        plain_together("    "@, "chain dns {"@);
        plain_together("        "@, "type nat hook output priority -100; policy accept;"@);
        plain_together("        "@, dns_rule_text(tun));
        let c = "    }\n"@ + rest;
        let b = ("        "@ + dns_rule_text(tun)).push('\n') + c;
        let a = ("        "@ + "type nat hook output priority -100; policy accept;"@).push('\n') + b;
        let all = ("    "@ + "chain dns {"@).push('\n') + a;
        closing_line(rest);
        line_in_front("        "@ + dns_rule_text(tun), c);
        line_in_front("        "@ + "type nat hook output priority -100; policy accept;"@, b);
        line_in_front("    "@ + "chain dns {"@, a);
        dns_chain_text(p, tun);
        assert(ruleset::dns_chain(p, tun) + rest =~= all);
        assert(script_lines(all) =~= dns_lines(p, tun) + script_lines(rest));
    } else {
        reveal_strlit("");
        assert(ruleset::dns_chain(p, tun) + rest =~= rest);
        assert(dns_lines(p, tun) + script_lines(rest) =~= script_lines(rest));
    }
}

/// Rules as their words.
spec fn rule_words(rules: Seq<Rule>, p: RulesetParams, tun: Seq<char>) -> Seq<Seq<Seq<char>>> {
    rules.map_values(|r: Rule| text::words_text(ruleset::rule_text(r, p, tun)))
}

/// The rules of the output chain as their words.
spec fn output_words(p: RulesetParams, tun: Seq<char>) -> Seq<Seq<Seq<char>>> {
    rule_words(ruleset::filter_rules(p), p, tun)
}

spec fn output_lines(p: RulesetParams, tun: Seq<char>) -> Seq<Seq<Seq<char>>> {
    seq![
        seq!["chain"@, "output"@, "{"@],
        seq!["type"@, "filter"@, "hook"@, "output"@, "priority"@, "0;"@, "policy"@, "accept;"@],
    ] + output_words(p, tun) + seq![seq!["}"@], seq!["}"@]]
}

proof fn output_chain_lines(p: RulesetParams, tun: Seq<char>)
    requires
        ruleset::is_word(p.iface@),
        ruleset::is_word(p.proxy_ip.name()),
        ruleset::is_word(tun),
    ensures
        script_lines(
            "    chain output {\n        type filter hook output priority 0; policy accept;\n"@
                + ruleset::body_text(ruleset::filter_rules(p), p, tun) + "    }\n}\n"@,
        ) == output_lines(p, tun),
{
    output_head_words();
    output_type_words();
    single_words();
    let body = ruleset::body_text(ruleset::filter_rules(p), p, tun);
    let end = "    }\n}\n"@;
    let none = Seq::<char>::empty();
    reveal_strlit("}");
    text::word_is_its_only_word("}"@);
    text::lines_of_one_line(none);
    assert(script_lines(none) =~= Seq::<Seq<Seq<char>>>::empty());
    line_in_front("}"@, none);
    let last = "}"@.push('\n') + none;
    closing_line(last);
    reveal_strlit("    }\n");
    reveal_strlit("    }\n}\n");
    assert(end =~= "    }\n"@ + last);
    assert(script_lines(end) =~= seq![seq!["}"@], seq!["}"@]]);
    body_lines(ruleset::filter_rules(p), p, tun, end);
    indented("chain output {"@);
    indented("type filter hook output priority 0; policy accept;"@);
    plain_together("    "@, "chain output {"@);
    plain_together("        "@, "type filter hook output priority 0; policy accept;"@);
    let b = body + end;
    let a = ("        "@ + "type filter hook output priority 0; policy accept;"@).push('\n') + b;
    line_in_front("        "@ + "type filter hook output priority 0; policy accept;"@, b);
    line_in_front("    "@ + "chain output {"@, a);
    let all = ("    "@ + "chain output {"@).push('\n') + a;
    let head = "    chain output {\n        type filter hook output priority 0; policy accept;\n"@;
    assert(head =~= ("    "@ + "chain output {"@).push('\n') + ("        "@
        + "type filter hook output priority 0; policy accept;"@).push('\n')) by {
        reveal_strlit(
            "    chain output {\n        type filter hook output priority 0; policy accept;\n",
        );
        reveal_strlit("    ");
        reveal_strlit("        ");
        reveal_strlit("chain output {");
        reveal_strlit("type filter hook output priority 0; policy accept;");
    }
    assert(head + body + end =~= all);
    assert(script_lines(all) =~= output_lines(p, tun));
}

proof fn other_line(line: Seq<Seq<char>>, rest: Seq<Seq<Seq<char>>>, name: Seq<char>)
    requires
        line != seq!["chain"@, name, "{"@],
    ensures
        chain_in(seq![line] + rest, name) == chain_in(rest, name),
{
    assert((seq![line] + rest).drop_first() =~= rest);
}

proof fn chain_is_found(rest: Seq<Seq<Seq<char>>>, name: Seq<char>)
    ensures
        chain_in(seq![seq!["chain"@, name, "{"@]] + rest, name) == block(rest),
{
    assert((seq![seq!["chain"@, name, "{"@]] + rest).drop_first() =~= rest);
}

proof fn block_up_to(lines: Seq<Seq<Seq<char>>>, rest: Seq<Seq<Seq<char>>>)
    requires
        forall|i: int| 0 <= i < lines.len() ==> #[trigger] lines[i] != seq!["}"@],
    ensures
        block(lines + seq![seq!["}"@]] + rest) == lines,
    decreases lines.len(),
{
    let all = lines + seq![seq!["}"@]] + rest;
    if lines.len() > 0 {
        let fewer = lines.drop_first();
        assert forall|i: int| 0 <= i < fewer.len() implies #[trigger] fewer[i] != seq!["}"@] by {
            assert(fewer[i] == lines[i + 1]);
        }
        block_up_to(fewer, rest);
        assert(all.drop_first() =~= fewer + seq![seq!["}"@]] + rest);
        assert(all[0] == lines[0]);
        assert(lines[0] != seq!["}"@]);
        assert(seq![lines[0]] + fewer =~= lines);
    } else {
        assert(all[0] == seq!["}"@]);
        assert(block(all) =~= lines);
    }
}

/// The chains are told apart by their names, and no other line is taken for the head of
/// one or the end of a block.
proof fn heads()
    ensures
        "udp_direct"@ != "dns"@ && "udp_direct"@ != "output"@ && "dns"@ != "output"@,
        "chain"@.len() == 5 && "chain"@[0] == 'c',
        "type"@.len() == 4 && "type"@[0] == 't',
        "add"@.len() == 3 && "add"@[0] == 'a',
        "delete"@.len() == 6 && "delete"@[0] == 'd',
        "table"@.len() == 5 && "table"@[0] == 't',
{
    reveal_strlit("udp_direct");
    reveal_strlit("dns");
    reveal_strlit("output");
    reveal_strlit("chain");
    reveal_strlit("type");
    reveal_strlit("add");
    reveal_strlit("delete");
    reveal_strlit("table");
    assert("udp_direct"@.len() == 10 && "dns"@.len() == 3 && "output"@.len() == 6);
}

/// All lines of the script.
spec fn all_lines(p: RulesetParams, tun: Seq<char>) -> Seq<Seq<Seq<char>>> {
    seq![seq!["add"@, "table"@, "inet"@, "proxywifi"@]] + (seq![
        seq!["delete"@, "table"@, "inet"@, "proxywifi"@],
    ] + (seq![seq!["table"@, "inet"@, "proxywifi"@, "{"@]] + (mark_lines(p) + (dns_lines(p, tun)
        + output_lines(p, tun)))))
}

proof fn script_has_its_lines(p: RulesetParams, tun: Seq<char>)
    requires
        ruleset::is_word(p.iface@),
        ruleset::is_word(p.proxy_ip.name()),
        ruleset::is_word(tun),
    ensures
        script_lines(ruleset::script_text(p, tun)) == all_lines(p, tun),
{
    add_table_words();
    delete_table_words();
    open_table_words();
    let d = "    chain output {\n        type filter hook output priority 0; policy accept;\n"@
        + ruleset::body_text(ruleset::filter_rules(p), p, tun) + "    }\n}\n"@;
    let c = ruleset::dns_chain(p, tun) + d;
    let b = ruleset::mark_chain(p) + c;
    let a = "table inet proxywifi {"@.push('\n') + b;
    output_chain_lines(p, tun);
    dns_chain_lines(p, tun, d);
    mark_chain_lines(p, c);
    line_in_front("table inet proxywifi {"@, b);
    line_in_front("delete table inet proxywifi"@, a);
    line_in_front("add table inet proxywifi"@, "delete table inet proxywifi"@.push('\n') + a);
    assert(ruleset::clear_text() =~= "add table inet proxywifi"@.push('\n')
        + "delete table inet proxywifi"@.push('\n')) by {
        reveal_strlit("add table inet proxywifi\ndelete table inet proxywifi\n");
        reveal_strlit("add table inet proxywifi");
        reveal_strlit("delete table inet proxywifi");
    }
    assert("table inet proxywifi {\n"@ =~= "table inet proxywifi {"@.push('\n')) by {
        reveal_strlit("table inet proxywifi {\n");
        reveal_strlit("table inet proxywifi {");
    }
    assert(ruleset::script_text(p, tun) =~= "add table inet proxywifi"@.push('\n') + (
    "delete table inet proxywifi"@.push('\n') + a));
}

/// What the rules of a chain do, as they are read, is what is decided of them.
proof fn verdict_is_the_decision(rules: Seq<Rule>, p: RulesetParams, tun: Seq<char>, k: Packet)
    requires
        ruleset::is_iface(p.iface@),
        p.proxy_ip.wf(),
        addr::is_dotted(tun),
    ensures
        ({
            let words = rule_words(rules, p, tun);
            &&& chain_verdict(words, k) is None <==> leaks::decision(rules, p, tun, k) is None
            &&& chain_verdict(words, k) == Some(Verdict::Accept) <==> leaks::decision(
                rules,
                p,
                tun,
                k,
            ) == Some(true)
        }),
    decreases rules.len(),
{
    let words = rule_words(rules, p, tun);
    if rules.len() > 0 {
        rules_do_what_they_say(rules[0], p, tun, k);
        verdict_is_the_decision(rules.drop_first(), p, tun, k);
        assert(words[0] == text::words_text(ruleset::rule_text(rules[0], p, tun)));
        assert(words.drop_first() =~= rule_words(rules.drop_first(), p, tun));
    }
}

proof fn names_are_words(p: RulesetParams, tun: Seq<char>)
    requires
        ruleset::is_iface(p.iface@),
        p.proxy_ip.wf(),
        addr::is_dotted(tun),
    ensures
        ruleset::is_word(p.iface@),
        ruleset::is_word(p.proxy_ip.name()),
        ruleset::is_word(tun),
{
    ruleset::names_stay_words(p, Some(tun));
}

proof fn output_block(p: RulesetParams, tun: Seq<char>)
    requires
        ruleset::is_word(p.iface@),
        ruleset::is_word(p.proxy_ip.name()),
        ruleset::is_word(tun),
    ensures
        block(output_lines(p, tun).drop_first()) == seq![
            seq!["type"@, "filter"@, "hook"@, "output"@, "priority"@, "0;"@, "policy"@, "accept;"@],
        ] + output_words(p, tun),
{
    let kind = seq!["type"@, "filter"@, "hook"@, "output"@, "priority"@, "0;"@, "policy"@, "accept;"@];
    let lines = seq![kind] + output_words(p, tun);
    assert(kind.len() == 8 && seq!["}"@].len() == 1);
    assert forall|i: int| 0 <= i < lines.len() implies #[trigger] lines[i] != seq!["}"@] by {
        if i > 0 {
            rule_is_one_line(ruleset::filter_rules(p)[i - 1], p, tun);
            assert(lines[i] == output_words(p, tun)[i - 1]);
        }
    }
    block_up_to(lines, seq![seq!["}"@]]);
    assert(output_lines(p, tun).drop_first() =~= lines + seq![seq!["}"@]] + seq![seq!["}"@]]);
}

/// The lines of the script up to a chain are passed over in search of it.
proof fn beginning_is_passed_over(p: RulesetParams, tun: Seq<char>, name: Seq<char>)
    ensures
        chain_in(all_lines(p, tun), name) == chain_in(
            mark_lines(p) + (dns_lines(p, tun) + output_lines(p, tun)),
            name,
        ),
{
    heads();
    let (add, delete, open) = (
        seq!["add"@, "table"@, "inet"@, "proxywifi"@],
        seq!["delete"@, "table"@, "inet"@, "proxywifi"@],
        seq!["table"@, "inet"@, "proxywifi"@, "{"@],
    );
    assert(add.len() == 4 && delete.len() == 4 && open.len() == 4);
    assert(seq!["chain"@, name, "{"@].len() == 3);
    let a = mark_lines(p) + (dns_lines(p, tun) + output_lines(p, tun));
    other_line(open, a, name);
    other_line(delete, seq![open] + a, name);
    other_line(add, seq![delete] + (seq![open] + a), name);
}

proof fn marks_are_passed_over(p: RulesetParams, rest: Seq<Seq<Seq<char>>>, name: Seq<char>)
    requires
        name != "udp_direct"@,
    ensures
        chain_in(mark_lines(p) + rest, name) == chain_in(rest, name),
{
    if p.udp is Direct {
        let l = mark_lines(p);
        let d = seq![l[3]] + rest;
        let c = seq![l[2]] + d;
        let b = seq![l[1]] + c;
        assert(l[0][1] == "udp_direct"@ && seq!["chain"@, name, "{"@][1] == name);
        assert(l[1].len() == 8 && l[3].len() == 1 && l[2].len() > 3);
        assert(seq!["chain"@, name, "{"@].len() == 3);
        other_line(l[3], rest, name);
        other_line(l[2], d, name);
        other_line(l[1], c, name);
        other_line(l[0], b, name);
        assert(l + rest =~= seq![l[0]] + b);
    } else {
        assert(mark_lines(p) + rest =~= rest);
    }
}

proof fn redirect_is_passed_over(
    p: RulesetParams,
    tun: Seq<char>,
    rest: Seq<Seq<Seq<char>>>,
    name: Seq<char>,
)
    requires
        name != "dns"@,
    ensures
        chain_in(dns_lines(p, tun) + rest, name) == chain_in(rest, name),
{
    if p.dns_proxied {
        let l = dns_lines(p, tun);
        let d = seq![l[3]] + rest;
        let c = seq![l[2]] + d;
        let b = seq![l[1]] + c;
        assert(l[0][1] == "dns"@ && seq!["chain"@, name, "{"@][1] == name);
        assert(l[1].len() == 8 && l[3].len() == 1 && l[2].len() > 3);
        assert(seq!["chain"@, name, "{"@].len() == 3);
        other_line(l[3], rest, name);
        other_line(l[2], d, name);
        other_line(l[1], c, name);
        other_line(l[0], b, name);
        assert(l + rest =~= seq![l[0]] + b);
    } else {
        assert(dns_lines(p, tun) + rest =~= rest);
    }
}

/// No rule of the output chain is the head of a chain.
proof fn output_is_passed_over(p: RulesetParams, tun: Seq<char>, name: Seq<char>)
    requires
        ruleset::is_word(p.iface@),
        ruleset::is_word(p.proxy_ip.name()),
        ruleset::is_word(tun),
        name != "output"@,
    ensures
        chain_in(output_lines(p, tun), name).len() == 0,
{
    let l = output_lines(p, tun);
    let head = seq!["chain"@, name, "{"@];
    heads();
    assert(head.len() == 3 && head[0] == "chain"@ && head[1] == name);
    assert forall|i: int| 0 <= i < l.len() implies #[trigger] l[i] != head by {
        let n = output_words(p, tun).len() as int;
        if i == 0 {
            assert(l[0][1] == "output"@);
        } else if i == 1 {
            assert(l[1].len() == 8);
        } else if i < 2 + n {
            let rule = ruleset::filter_rules(p)[i - 2];
            assert(l[i] == output_words(p, tun)[i - 2]);
            rule_begins_otherwise(rule, p, tun);
        } else {
            assert(l[i] == seq!["}"@]);
            assert(l[i].len() == 1);
        }
    }
    no_head_no_chain(l, name);
}

proof fn no_head_no_chain(lines: Seq<Seq<Seq<char>>>, name: Seq<char>)
    requires
        forall|i: int| 0 <= i < lines.len() ==> #[trigger] lines[i] != seq!["chain"@, name, "{"@],
    ensures
        chain_in(lines, name).len() == 0,
    decreases lines.len(),
{
    if lines.len() > 0 {
        let rest = lines.drop_first();
        assert(lines[0] != seq!["chain"@, name, "{"@]);
        assert forall|i: int| 0 <= i < rest.len() implies #[trigger] rest[i] != seq![
            "chain"@,
            name,
            "{"@,
        ] by {
            assert(rest[i] == lines[i + 1]);
        }
        no_head_no_chain(rest, name);
    }
}

proof fn rule_begins_otherwise(rule: Rule, p: RulesetParams, tun: Seq<char>)
    requires
        ruleset::is_word(p.iface@),
        ruleset::is_word(p.proxy_ip.name()),
        ruleset::is_word(tun),
    ensures
        text::words_text(ruleset::rule_text(rule, p, tun)).len() > 0,
        text::words_text(ruleset::rule_text(rule, p, tun))[0] != "chain"@,
{
    heads();
    rule_is_one_line(rule, p, tun);
}

/// The script first makes sure that any table of before is gone, and then makes a new one.
pub proof fn script_replaces_the_table(p: RulesetParams, tun: Seq<char>)
    requires
        ruleset::is_iface(p.iface@),
        p.proxy_ip.wf(),
        addr::is_dotted(tun),
    ensures
        ({
            let lines = script_lines(ruleset::script_text(p, tun));
            &&& lines.len() > 3
            &&& lines[0] == seq!["add"@, "table"@, "inet"@, "proxywifi"@]
            &&& lines[1] == seq!["delete"@, "table"@, "inet"@, "proxywifi"@]
            &&& lines[2] == seq!["table"@, "inet"@, "proxywifi"@, "{"@]
        }),
{
    names_are_words(p, tun);
    script_has_its_lines(p, tun);
}

proof fn script_has_its_filter(p: RulesetParams, tun: Seq<char>)
    requires
        ruleset::is_iface(p.iface@),
        p.proxy_ip.wf(),
        addr::is_dotted(tun),
    ensures
        chain_in(script_lines(ruleset::script_text(p, tun)), "output"@) == seq![
            seq!["type"@, "filter"@, "hook"@, "output"@, "priority"@, "0;"@, "policy"@, "accept;"@],
        ] + output_words(p, tun),
{
    names_are_words(p, tun);
    script_has_its_lines(p, tun);
    heads();
    let (dns, output) = (dns_lines(p, tun), output_lines(p, tun));
    beginning_is_passed_over(p, tun, "output"@);
    marks_are_passed_over(p, dns + output, "output"@);
    redirect_is_passed_over(p, tun, output, "output"@);
    chain_is_found(output.drop_first(), "output"@);
    assert(output =~= seq![seq!["chain"@, "output"@, "{"@]] + output.drop_first());
    output_block(p, tun);
}

/// The output chain of the script, as nft reads it, stands behind a filter hook, lets a
/// packet out just where the rules do, and lets out what no rule is about.
pub proof fn script_filters_as_decided(p: RulesetParams, tun: Seq<char>, k: Packet)
    requires
        ruleset::is_iface(p.iface@),
        p.proxy_ip.wf(),
        addr::is_dotted(tun),
    ensures
        ({
            let filter = chain_in(script_lines(ruleset::script_text(p, tun)), "output"@);
            let verdict = chain_verdict(filter.skip(1), k);
            &&& filter.len() > 0
            &&& filter[0] == seq![
                "type"@,
                "filter"@,
                "hook"@,
                "output"@,
                "priority"@,
                "0;"@,
                "policy"@,
                "accept;"@,
            ]
            &&& leaks::let_out(p, tun, k) <==> (verdict is None || verdict == Some(Verdict::Accept))
        }),
{
    script_has_its_filter(p, tun);
    let filter = chain_in(script_lines(ruleset::script_text(p, tun)), "output"@);
    assert(filter.skip(1) =~= output_words(p, tun));
    verdict_is_the_decision(ruleset::filter_rules(p), p, tun, k);
    let decided = leaks::decision(ruleset::filter_rules(p), p, tun, k);
    assert(decided is Some ==> decided == Some(true) || decided == Some(false));
}

/// The script has a chain that marks UDP just where UDP goes direct. It stands ahead of
/// routing and of the other chains, and marks just the packets that are to go direct.
pub proof fn script_marks_direct_udp(p: RulesetParams, tun: Seq<char>, k: Packet)
    requires
        ruleset::is_iface(p.iface@),
        p.proxy_ip.wf(),
        addr::is_dotted(tun),
    ensures
        ({
            let marks = chain_in(script_lines(ruleset::script_text(p, tun)), "udp_direct"@);
            &&& p.udp is Direct <==> marks.len() > 0
            &&& p.udp is Direct ==> marks.len() == 2 && marks[0] == seq![
                "type"@,
                "route"@,
                "hook"@,
                "output"@,
                "priority"@,
                "-150;"@,
                "policy"@,
                "accept;"@,
            ] && reading(marks[1], k) == (if leaks::is_marked(p, k) {
                Some(Verdict::Mark(ruleset::DIRECT_MARK as nat))
            } else {
                None
            })
        }),
{
    names_are_words(p, tun);
    script_has_its_lines(p, tun);
    heads();
    let (marks, dns, output) = (mark_lines(p), dns_lines(p, tun), output_lines(p, tun));
    beginning_is_passed_over(p, tun, "udp_direct"@);
    if p.udp is Direct {
        let inside = seq![marks[1], marks[2]];
        let rest = dns + output;
        assert(marks[1].len() == 8 && marks[2].len() > 3 && seq!["}"@].len() == 1);
        block_up_to(inside, rest);
        let behind = inside + seq![seq!["}"@]] + rest;
        chain_is_found(behind, "udp_direct"@);
        assert(marks + rest =~= seq![seq!["chain"@, "udp_direct"@, "{"@]] + behind);
        read_marks(p, k);
    } else {
        assert(marks + (dns + output) =~= dns + output);
        redirect_is_passed_over(p, tun, output, "udp_direct"@);
        output_is_passed_over(p, tun, "udp_direct"@);
    }
}

/// The script has a chain that redirects DNS just where DNS is proxied. It stands behind
/// the marks and ahead of the filter, and sends the plain DNS that leaves the host over
/// IPv4, and nothing else, to the forwarder on the tunnel.
pub proof fn script_redirects_proxied_dns(p: RulesetParams, tun: Seq<char>, k: Packet)
    requires
        ruleset::is_iface(p.iface@),
        p.proxy_ip.wf(),
        addr::is_dotted(tun),
    ensures
        ({
            let dns = chain_in(script_lines(ruleset::script_text(p, tun)), "dns"@);
            &&& p.dns_proxied <==> dns.len() > 0
            &&& p.dns_proxied ==> dns.len() == 2 && dns[0] == seq![
                "type"@,
                "nat"@,
                "hook"@,
                "output"@,
                "priority"@,
                "-100;"@,
                "policy"@,
                "accept;"@,
            ] && reading(dns[1], k) == (if k.oif != "lo"@ && k.to is V4 && k.transport
                == Transport::Udp(53) {
                Some(Verdict::Redirect(tun + ":5335"@))
            } else {
                None
            })
        }),
{
    names_are_words(p, tun);
    script_has_its_lines(p, tun);
    heads();
    let (dns, output) = (dns_lines(p, tun), output_lines(p, tun));
    beginning_is_passed_over(p, tun, "dns"@);
    marks_are_passed_over(p, dns + output, "dns"@);
    if p.dns_proxied {
        let inside = seq![dns[1], dns[2]];
        assert(dns[1].len() == 8 && dns[2].len() > 3 && seq!["}"@].len() == 1);
        block_up_to(inside, output);
        let behind = inside + seq![seq!["}"@]] + output;
        chain_is_found(behind, "dns"@);
        assert(dns + output =~= seq![seq!["chain"@, "dns"@, "{"@]] + behind);
        read_redirect(tun, k);
    } else {
        assert(dns + output =~= output);
        output_is_passed_over(p, tun, "dns"@);
    }
}

/// What is loaded to remove the ruleset deletes its table and makes none.
pub proof fn cleared_script_removes_the_table()
    ensures
        script_lines(ruleset::clear_text()) == seq![
            seq!["add"@, "table"@, "inet"@, "proxywifi"@],
            seq!["delete"@, "table"@, "inet"@, "proxywifi"@],
        ],
{
    add_table_words();
    delete_table_words();
    let none = Seq::<char>::empty();
    text::lines_of_one_line(none);
    assert(script_lines(none) =~= Seq::<Seq<Seq<char>>>::empty());
    line_in_front("delete table inet proxywifi"@, none);
    let last = "delete table inet proxywifi"@.push('\n') + none;
    line_in_front("add table inet proxywifi"@, last);
    reveal_strlit("add table inet proxywifi\ndelete table inet proxywifi\n");
    reveal_strlit("add table inet proxywifi");
    reveal_strlit("delete table inet proxywifi");
    assert(ruleset::clear_text() =~= "add table inet proxywifi"@.push('\n') + last);
    assert(script_lines(ruleset::clear_text()) =~= seq![
        seq!["add"@, "table"@, "inet"@, "proxywifi"@],
        seq!["delete"@, "table"@, "inet"@, "proxywifi"@],
    ]);
}

} // verus!
