//! IP addresses, as far as the library reads them: the family and the printed form.

use crate::text;
use vstd::prelude::*;

verus! {

/// A resolved address of the proxy.
#[derive(Debug)]
pub enum ProxyAddr {
    /// The four octets of an IPv4 address.
    V4(u8, u8, u8, u8),
    /// The printed form of an IPv6 address.
    V6(String),
}

/// The dotted form of four octets.
pub open spec fn dotted(a: u8, b: u8, c: u8, d: u8) -> Seq<char> {
    text::decimal_text(a as nat).push('.') + text::decimal_text(b as nat).push('.')
        + text::decimal_text(c as nat).push('.') + text::decimal_text(d as nat)
}

/// Whether `s` is made only of what an IPv6 address is printed with: hexadecimal
/// digits, colons and dots.
pub open spec fn is_v6_form(s: Seq<char>) -> bool {
    s.len() > 0 && forall|i: int| 0 <= i < s.len() ==> is_v6_char(#[trigger] s[i])
}

/// A hexadecimal digit, a colon or a dot.
pub open spec fn is_v6_char(c: char) -> bool {
    ||| '0' <= c <= '9'
    ||| 'a' <= c <= 'f'
    ||| 'A' <= c <= 'F'
    ||| c == ':'
    ||| c == '.'
}

impl ProxyAddr {
    /// The printed form.
    pub open spec fn name(self) -> Seq<char> {
        match self {
            ProxyAddr::V4(a, b, c, d) => dotted(a, b, c, d),
            ProxyAddr::V6(t) => t@,
        }
    }

    /// An IPv6 address is made of hexadecimal digits, colons and dots.
    pub open spec fn wf(self) -> bool {
        match self {
            ProxyAddr::V4(..) => true,
            ProxyAddr::V6(t) => is_v6_form(t@),
        }
    }

    /// The IPv6 address printed as `text`; `None` when no such address is printed so.
    pub fn v6(text: String) -> (r: Option<ProxyAddr>)
        ensures
            r == (if is_v6_form(text@) {
                Some(ProxyAddr::V6(text))
            } else {
                None
            }),
    {
        let chars = text::chars_of(text.as_str());
        let mut i: usize = 0;
        while i < chars.len()
            invariant
                i <= chars@.len(),
                chars@ == text@,
                forall|j: int| 0 <= j < i ==> is_v6_char(#[trigger] chars@[j]),
            decreases chars@.len() - i,
        {
            let c = chars[i];
            if !(('0' <= c && c <= '9') || ('a' <= c && c <= 'f') || ('A' <= c && c <= 'F') || c
                == ':' || c == '.') {
                assert(!is_v6_char(text@[i as int]));
                return None;
            }
            i += 1;
        }
        if chars.len() == 0 {
            return None;
        }
        Some(ProxyAddr::V6(text))
    }

    /// Whether this is an IPv4 address.
    pub fn is_ipv4(&self) -> (r: bool)
        ensures
            r == (*self is V4),
    {
        match self {
            ProxyAddr::V4(..) => true,
            ProxyAddr::V6(_) => false,
        }
    }

    /// The printed form.
    pub fn text(&self) -> (r: String)
        ensures
            r@ == self.name(),
    {
        match self {
            ProxyAddr::V4(a, b, c, d) => dotted_decimal(*a, *b, *c, *d),
            ProxyAddr::V6(t) => t.clone(),
        }
    }
}

impl Clone for ProxyAddr {
    fn clone(&self) -> (r: Self)
        ensures
            r == *self,
    {
        match self {
            ProxyAddr::V4(a, b, c, d) => ProxyAddr::V4(*a, *b, *c, *d),
            ProxyAddr::V6(t) => ProxyAddr::V6(t.clone()),
        }
    }
}

/// The dotted form of four octets.
pub fn dotted_decimal(a: u8, b: u8, c: u8, d: u8) -> (r: String)
    ensures
        r@ == dotted(a, b, c, d),
{
    let mut out = text::decimal(a as u64);
    out.push('.');
    let ghost one = out@;
    out.append(text::decimal(b as u64).as_str());
    out.push('.');
    let ghost two = out@;
    out.append(text::decimal(c as u64).as_str());
    out.push('.');
    let ghost three = out@;
    out.append(text::decimal(d as u64).as_str());
    proof {
        assert(two =~= one + text::decimal_text(b as nat).push('.'));
        assert(three =~= two + text::decimal_text(c as nat).push('.'));
    }
    out
}

// ---------------------------------------------------------------------------
// Reading a dotted address
// ---------------------------------------------------------------------------

/// A decimal digit.
pub open spec fn is_digit(c: char) -> bool {
    '0' <= c <= '9'
}

/// The number that a run of decimal digits stands for.
pub open spec fn digits_value(s: Seq<char>) -> nat
    decreases s.len(),
{
    if s.len() == 0 {
        0
    } else {
        (digits_value(s.drop_last()) * 10 + (s.last() as u32 - 48)) as nat
    }
}

/// A number printed in decimal is made of digits and reads back as itself.
pub proof fn decimal_reads_back(n: nat)
    ensures
        digits_value(text::decimal_text(n)) == n,
        text::decimal_text(n).len() > 0,
        forall|i: int|
            0 <= i < text::decimal_text(n).len() ==> is_digit(#[trigger] text::decimal_text(n)[i]),
        n < 1000 ==> text::decimal_text(n).len() <= 3,
    decreases n,
{
    let s = text::decimal_text(n);
    if n < 10 {
        assert(s =~= seq![text::digit(n)]);
        assert(s.drop_last() =~= Seq::<char>::empty());
        reveal_with_fuel(digits_value, 2);
    } else {
        decimal_reads_back(n / 10);
        assert(s.drop_last() =~= text::decimal_text(n / 10));
        assert(s.last() == text::digit(n % 10));
        reveal_with_fuel(text::decimal_text, 3);
    }
}

/// The octet printed as `s`, if one is.
fn octet(s: &str) -> (r: Option<u8>)
    ensures
        match r {
            Some(v) => s@ == text::decimal_text(v as nat),
            None => forall|v: u8| s@ != #[trigger] text::decimal_text(v as nat),
        },
{
    let chars = text::chars_of(s);
    proof {
        assert forall|v: u8| s@ == #[trigger] text::decimal_text(v as nat) implies s@.len() <= 3
            && s@.len() > 0 && digits_value(s@) == v && (forall|i: int|
            0 <= i < s@.len() ==> is_digit(#[trigger] s@[i])) by {
            decimal_reads_back(v as nat);
        }
    }
    if chars.len() == 0 || chars.len() > 3 {
        return None;
    }
    let mut value: u32 = 0;
    let mut i: usize = 0;
    assert(chars@.take(0) =~= Seq::<char>::empty());
    while i < chars.len()
        invariant
            i <= chars@.len() <= 3,
            chars@ == s@,
            value == digits_value(chars@.take(i as int)),
            i == 0 ==> value == 0,
            i == 1 ==> value < 10,
            i == 2 ==> value < 100,
            i == 3 ==> value < 1000,
            forall|v: u8|
                s@ == #[trigger] text::decimal_text(v as nat) ==> (forall|i: int|
                    0 <= i < s@.len() ==> is_digit(#[trigger] s@[i])),
        decreases chars@.len() - i,
    {
        let c = chars[i];
        if !('0' <= c && c <= '9') {
            assert(!is_digit(s@[i as int]));
            return None;
        }
        proof {
            let seen = chars@.take(i + 1);
            assert(seen.drop_last() =~= chars@.take(i as int));
            assert(seen.last() == c);
        }
        value = value * 10 + (c as u32 - 48);
        i += 1;
    }
    assert(chars@.take(i as int) =~= s@);
    if value > 255 {
        return None;
    }
    if text::same_text(text::decimal(value as u64).as_str(), s) {
        Some(value as u8)
    } else {
        None
    }
}

/// A piece without the separator only lengthens the last piece.
proof fn split_extends(s: Seq<char>, t: Seq<char>, sep: char)
    requires
        forall|i: int| 0 <= i < t.len() ==> #[trigger] t[i] != sep,
    ensures
        text::split_text(s + t, sep) == text::split_text(s, sep).drop_last().push(
            text::split_text(s, sep).last() + t,
        ),
    decreases t.len(),
{
    text::split_text_nonempty(s, sep);
    let pieces = text::split_text(s, sep);
    if t.len() == 0 {
        assert(s + t =~= s);
        assert(pieces.last() + t =~= pieces.last());
        assert(pieces.drop_last().push(pieces.last()) =~= pieces);
    } else {
        split_extends(s, t.drop_last(), sep);
        let longer = pieces.drop_last().push(pieces.last() + t.drop_last());
        assert((s + t).drop_last() =~= s + t.drop_last());
        assert((s + t).last() == t.last());
        assert(longer.drop_last() =~= pieces.drop_last());
        assert((pieces.last() + t.drop_last()).push(t.last()) =~= pieces.last() + t);
    }
}

/// A piece followed by the separator completes the last piece and starts another.
proof fn split_completes(s: Seq<char>, t: Seq<char>, sep: char)
    requires
        forall|i: int| 0 <= i < t.len() ==> #[trigger] t[i] != sep,
    ensures
        text::split_text(s + t.push(sep), sep) == text::split_text(s, sep).drop_last().push(
            text::split_text(s, sep).last() + t,
        ).push(Seq::<char>::empty()),
{
    split_extends(s, t, sep);
    assert((s + t.push(sep)).drop_last() =~= s + t);
    assert((s + t.push(sep)).last() == sep);
}

/// The pieces of a dotted address are its four octets.
pub proof fn dotted_pieces(a: u8, b: u8, c: u8, d: u8)
    ensures
        text::split_text(dotted(a, b, c, d), '.') == seq![
            text::decimal_text(a as nat),
            text::decimal_text(b as nat),
            text::decimal_text(c as nat),
            text::decimal_text(d as nat),
        ],
{
    let (w, x, y, z) = (
        text::decimal_text(a as nat),
        text::decimal_text(b as nat),
        text::decimal_text(c as nat),
        text::decimal_text(d as nat),
    );
    decimal_reads_back(a as nat);
    decimal_reads_back(b as nat);
    decimal_reads_back(c as nat);
    decimal_reads_back(d as nat);
    let e = Seq::<char>::empty();
    let one = w.push('.');
    let two = one + x.push('.');
    let three = two + y.push('.');
    split_completes(e, w, '.');
    assert(e + w.push('.') =~= one);
    assert(text::split_text(e, '.') =~= seq![e]);
    assert(e + w =~= w);
    assert(seq![e].drop_last().push(w).push(e) =~= seq![w, e]);
    split_completes(one, x, '.');
    assert(seq![w, e].drop_last().push(e + x).push(e) =~= seq![w, x, e]) by {
        assert(e + x =~= x);
    }
    split_completes(two, y, '.');
    assert(seq![w, x, e].drop_last().push(e + y).push(e) =~= seq![w, x, y, e]) by {
        assert(e + y =~= y);
    }
    split_extends(three, z, '.');
    assert(seq![w, x, y, e].drop_last().push(e + z) =~= seq![w, x, y, z]) by {
        assert(e + z =~= z);
    }
}

/// Whether `s` is a dotted IPv4 address: four octets in decimal, without leading
/// zeros, with dots between them and nothing else.
pub open spec fn is_dotted(s: Seq<char>) -> bool {
    exists|a: u8, b: u8, c: u8, d: u8| s == #[trigger] dotted(a, b, c, d)
}

/// The IPv4 address printed as `s`.
pub fn parse_ipv4(s: &str) -> (r: Option<ProxyAddr>)
    ensures
        r is Some <==> is_dotted(s@),
        r is Some ==> r->0 is V4 && r->0.name() == s@,
{
    let pieces = text::split(s, '.');
    proof {
        assert forall|a: u8, b: u8, c: u8, d: u8| s@ == #[trigger] dotted(a, b, c, d) implies
            text::texts(pieces@) == seq![
            text::decimal_text(a as nat),
            text::decimal_text(b as nat),
            text::decimal_text(c as nat),
            text::decimal_text(d as nat),
        ] by {
            dotted_pieces(a, b, c, d);
        }
        assert(text::texts(pieces@).len() == pieces@.len());
    }
    if pieces.len() != 4 {
        return None;
    }
    proof {
        assert(text::texts(pieces@)[0] == pieces@[0]@);
        assert(text::texts(pieces@)[1] == pieces@[1]@);
        assert(text::texts(pieces@)[2] == pieces@[2]@);
        assert(text::texts(pieces@)[3] == pieces@[3]@);
    }
    match (
        octet(pieces[0].as_str()),
        octet(pieces[1].as_str()),
        octet(pieces[2].as_str()),
        octet(pieces[3].as_str()),
    ) {
        (Some(a), Some(b), Some(c), Some(d)) => {
            let addr = ProxyAddr::V4(a, b, c, d);
            if text::same_text(addr.text().as_str(), s) {
                return Some(addr);
            }
            proof {
                if is_dotted(s@) {
                    let (w, x, y, z) = choose|w: u8, x: u8, y: u8, z: u8|
                        s@ == #[trigger] dotted(w, x, y, z);
                    decimal_reads_back(a as nat);
                    decimal_reads_back(b as nat);
                    decimal_reads_back(c as nat);
                    decimal_reads_back(d as nat);
                    decimal_reads_back(w as nat);
                    decimal_reads_back(x as nat);
                    decimal_reads_back(y as nat);
                    decimal_reads_back(z as nat);
                }
            }
            None
        },
        _ => None,
    }
}

} // verus!
