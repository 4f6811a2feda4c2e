//! How credentials are written down: percent-encoded in a proxy URL, Base64 in an HTTP
//! header.

use crate::text;
use vstd::prelude::*;

verus! {

// ---------------------------------------------------------------------------
// Percent-encoding
// ---------------------------------------------------------------------------

/// The bytes that stand for themselves in a URL: letters, digits, `-`, `.`, `_`, `~`.
pub open spec fn is_unreserved(b: u8) -> bool {
    ||| 65 <= b <= 90
    ||| 97 <= b <= 122
    ||| 48 <= b <= 57
    ||| b == 45
    ||| b == 46
    ||| b == 95
    ||| b == 126
}

/// A byte in a URL.
pub open spec fn pct_byte(b: u8) -> Seq<char> {
    if is_unreserved(b) {
        seq![b as char]
    } else {
        seq!['%', text::hex_upper(b as int / 16), text::hex_upper(b as int % 16)]
    }
}

/// Bytes in a URL: everything outside the unreserved set is percent-encoded.
pub open spec fn pct_text(bytes: Seq<u8>) -> Seq<char>
    decreases bytes.len(),
{
    if bytes.len() == 0 {
        Seq::empty()
    } else {
        pct_byte(bytes[0]) + pct_text(bytes.drop_first())
    }
}

/// `s` percent-encoded.
pub fn pct(s: &str) -> (r: String)
    ensures
        r@ == pct_text(vstd::utf8::encode_utf8(s@)),
{
    let bytes = s.as_bytes();
    let mut out = String::new();
    let mut i: usize = 0;
    assert(bytes@.skip(0) =~= bytes@);
    assert(out@ + pct_text(bytes@) =~= pct_text(bytes@));
    while i < bytes.len()
        invariant
            i <= bytes@.len(),
            out@ + pct_text(bytes@.skip(i as int)) == pct_text(bytes@),
        decreases bytes@.len() - i,
    {
        let b: u8 = bytes[i];
        let ghost before = out@;
        let ghost rest = pct_text(bytes@.skip(i + 1));
        proof {
            assert(bytes@.skip(i as int)[0] == b);
            assert(bytes@.skip(i as int).drop_first() =~= bytes@.skip(i + 1));
        }
        if (65 <= b && b <= 90) || (97 <= b && b <= 122) || (48 <= b && b <= 57) || b == 45 || b
            == 46 || b == 95 || b == 126 {
            out.push(b as char);
        } else {
            out.push('%');
            out.push(text::hex_upper_digit(b / 16));
            out.push(text::hex_upper_digit(b % 16));
        }
        proof {
            assert(out@ =~= before + pct_byte(b));
            assert(before + pct_byte(b) + rest =~= before + (pct_byte(b) + rest));
        }
        i += 1;
    }
    proof {
        assert(bytes@.skip(i as int) =~= Seq::<u8>::empty());
        assert(out@ + pct_text(Seq::<u8>::empty()) =~= out@);
    }
    out
}

/// The value of an upper-case hexadecimal digit.
pub open spec fn hex_value(c: char) -> int {
    if c as u32 <= 57 {
        c as u32 - 48
    } else {
        c as u32 - 55
    }
}

/// The bytes that a URL's text stands for.
pub open spec fn pct_decode(s: Seq<char>) -> Seq<u8>
    decreases s.len(),
{
    if s.len() == 0 {
        Seq::empty()
    } else if s[0] == '%' && s.len() >= 3 {
        seq![(hex_value(s[1]) * 16 + hex_value(s[2])) as u8] + pct_decode(s.skip(3))
    } else {
        seq![s[0] as u8] + pct_decode(s.skip(1))
    }
}

/// Percent-decoding gives back what was encoded.
pub proof fn pct_reads_back(bytes: Seq<u8>)
    ensures
        pct_decode(pct_text(bytes)) == bytes,
    decreases bytes.len(),
{
    if bytes.len() > 0 {
        let b = bytes[0];
        let rest = pct_text(bytes.drop_first());
        let s = pct_text(bytes);
        pct_reads_back(bytes.drop_first());
        if is_unreserved(b) {
            assert(s.skip(1) =~= rest);
            assert(s[0] == b as char);
        } else {
            assert(s.skip(3) =~= rest);
            assert(s[0] == '%');
            assert(s[1] == text::hex_upper(b as int / 16));
            assert(s[2] == text::hex_upper(b as int % 16));
            assert((b as int / 16) * 16 + b as int % 16 == b);
        }
        assert(seq![b] + bytes.drop_first() =~= bytes);
    }
}

/// What is percent-encoded holds no delimiter of a URL: only unreserved characters and
/// percent signs.
pub proof fn pct_protects_delimiters(bytes: Seq<u8>, i: int)
    requires
        0 <= i < pct_text(bytes).len(),
    ensures
        pct_text(bytes)[i] == '%' || ((pct_text(bytes)[i] as u32) < 128 && is_unreserved(
            pct_text(bytes)[i] as u8,
        )),
    decreases bytes.len(),
{
    let head = pct_byte(bytes[0]);
    if i >= head.len() {
        pct_protects_delimiters(bytes.drop_first(), i - head.len());
        assert(pct_text(bytes)[i] == pct_text(bytes.drop_first())[i - head.len()]);
    } else {
        assert(pct_text(bytes)[i] == head[i]);
    }
}

// ---------------------------------------------------------------------------
// Base64
// ---------------------------------------------------------------------------

/// The Base64 letter for a six-bit value.
pub open spec fn base64_letter(n: int) -> char {
    if n < 26 {
        (65 + n) as char
    } else if n < 52 {
        (71 + n) as char
    } else if n < 62 {
        (n - 4) as char
    } else if n == 62 {
        '+'
    } else {
        '/'
    }
}

/// Base64 as RFC 4648 has it: three bytes make four letters, and a short last group is
/// padded with `=`.
pub open spec fn base64_text(d: Seq<u8>) -> Seq<char>
    decreases d.len(),
{
    if d.len() == 0 {
        Seq::empty()
    } else if d.len() == 1 {
        seq![base64_letter(d[0] as int / 4), base64_letter(d[0] as int % 4 * 16), '=', '=']
    } else if d.len() == 2 {
        seq![
            base64_letter(d[0] as int / 4),
            base64_letter(d[0] as int % 4 * 16 + d[1] as int / 16),
            base64_letter(d[1] as int % 16 * 4),
            '=',
        ]
    } else {
        seq![
            base64_letter(d[0] as int / 4),
            base64_letter(d[0] as int % 4 * 16 + d[1] as int / 16),
            base64_letter(d[1] as int % 16 * 4 + d[2] as int / 64),
            base64_letter(d[2] as int % 64),
        ] + base64_text(d.skip(3))
    }
}

fn letter(n: u8) -> (r: char)
    requires
        n < 64,
    ensures
        r == base64_letter(n as int),
{
    if n < 26 {
        (65 + n) as char
    } else if n < 52 {
        (71 + n) as char
    } else if n < 62 {
        (n - 4) as char
    } else if n == 62 {
        '+'
    } else {
        '/'
    }
}

/// `data` in Base64.
pub fn base64(data: &[u8]) -> (r: String)
    ensures
        r@ == base64_text(data@),
{
    let mut out = String::new();
    let mut i: usize = 0;
    assert(data@.skip(0) =~= data@);
    assert(out@ + base64_text(data@) =~= base64_text(data@));
    while data.len() - i >= 3
        invariant
            i <= data@.len(),
            out@ + base64_text(data@.skip(i as int)) == base64_text(data@),
        decreases data@.len() - i,
    {
        let (a, b, c): (u8, u8, u8) = (data[i], data[i + 1], data[i + 2]);
        let ghost before = out@;
        let ghost rest = base64_text(data@.skip(i + 3));
        out.push(letter(a / 4));
        out.push(letter(a % 4 * 16 + b / 16));
        out.push(letter(b % 16 * 4 + c / 64));
        out.push(letter(c % 64));
        proof {
            let group = data@.skip(i as int);
            assert(group[0] == a && group[1] == b && group[2] == c);
            assert(group.skip(3) =~= data@.skip(i + 3));
            let four = seq![
                base64_letter(a as int / 4),
                base64_letter(a as int % 4 * 16 + b as int / 16),
                base64_letter(b as int % 16 * 4 + c as int / 64),
                base64_letter(c as int % 64),
            ];
            assert(out@ =~= before + four);
            assert(before + four + rest =~= before + (four + rest));
        }
        i += 3;
    }
    let ghost before = out@;
    let ghost group = data@.skip(i as int);
    if data.len() - i == 2 {
        let (a, b): (u8, u8) = (data[i], data[i + 1]);
        out.push(letter(a / 4));
        out.push(letter(a % 4 * 16 + b / 16));
        out.push(letter(b % 16 * 4));
        out.push('=');
        assert(group[0] == a && group[1] == b);
    } else if data.len() - i == 1 {
        let a: u8 = data[i];
        out.push(letter(a / 4));
        out.push(letter(a % 4 * 16));
        out.push('=');
        out.push('=');
        assert(group[0] == a);
    }
    assert(out@ =~= before + base64_text(group));
    out
}

/// The six-bit value of a Base64 letter.
pub open spec fn base64_value(c: char) -> int {
    let n = c as u32 as int;
    if 65 <= n <= 90 {
        n - 65
    } else if 97 <= n <= 122 {
        n - 71
    } else if 48 <= n <= 57 {
        n + 4
    } else if c == '+' {
        62
    } else {
        63
    }
}

/// The bytes that a Base64 text stands for.
pub open spec fn base64_decode(s: Seq<char>) -> Seq<u8>
    decreases s.len(),
{
    if s.len() < 4 {
        Seq::empty()
    } else {
        let (a, b, c, d) = (
            base64_value(s[0]),
            base64_value(s[1]),
            base64_value(s[2]),
            base64_value(s[3]),
        );
        if s[2] == '=' {
            seq![(a * 4 + b / 16) as u8]
        } else if s[3] == '=' {
            seq![(a * 4 + b / 16) as u8, (b % 16 * 16 + c / 4) as u8]
        } else {
            seq![
                (a * 4 + b / 16) as u8,
                (b % 16 * 16 + c / 4) as u8,
                (c % 4 * 64 + d) as u8,
            ] + base64_decode(s.skip(4))
        }
    }
}

proof fn letter_reads_back(n: int)
    requires
        0 <= n < 64,
    ensures
        base64_value(base64_letter(n)) == n,
        base64_letter(n) != '=',
{
}

/// Base64-decoding gives back what was encoded.
pub proof fn base64_reads_back(d: Seq<u8>)
    ensures
        base64_decode(base64_text(d)) == d,
    decreases d.len(),
{
    let s = base64_text(d);
    if d.len() == 0 {
        assert(base64_decode(s) =~= d);
    } else if d.len() == 1 {
        let a = d[0] as int;
        letter_reads_back(a / 4);
        letter_reads_back(a % 4 * 16);
        assert(base64_decode(s) =~= d);
    } else if d.len() == 2 {
        let (a, b) = (d[0] as int, d[1] as int);
        letter_reads_back(a / 4);
        letter_reads_back(a % 4 * 16 + b / 16);
        letter_reads_back(b % 16 * 4);
        assert(base64_decode(s) =~= d);
    } else {
        let (a, b, c) = (d[0] as int, d[1] as int, d[2] as int);
        letter_reads_back(a / 4);
        letter_reads_back(a % 4 * 16 + b / 16);
        letter_reads_back(b % 16 * 4 + c / 64);
        letter_reads_back(c % 64);
        assert(s.skip(4) =~= base64_text(d.skip(3)));
        base64_reads_back(d.skip(3));
        assert(base64_decode(s) =~= d);
    }
}

/// What is percent-encoded holds none of the characters that part a URL.
pub proof fn encoded_text_has_no_delimiter(bytes: Seq<u8>, i: int)
    requires
        0 <= i < pct_text(bytes).len(),
    ensures
        ({
            let c = pct_text(bytes)[i];
            &&& c != ':' && c != '@' && c != '/' && c != '?' && c != '#' && c != '[' && c != ']'
            &&& c != ' ' && c != '\n' && c != '"' && c != '\\'
        }),
{
    pct_protects_delimiters(bytes, i);
}

/// Letters, digits, hyphens, dots, underscores and tildes stand for themselves in a URL.
pub proof fn unreserved_bytes_stay(b: u8)
    requires
        is_unreserved(b),
    ensures
        pct_byte(b).len() == 1,
        pct_byte(b)[0] as int == b,
        ({
            let c = pct_byte(b)[0];
            'a' <= c <= 'z' || 'A' <= c <= 'Z' || '0' <= c <= '9' || c == '-' || c == '.' || c == '_'
                || c == '~'
        }),
{
}

/// Base64 has four letters for every three bytes or what is left of them, of the letters,
/// the digits, `+`, `/` and `=`.
pub proof fn base64_has_four_letters_for_three_bytes(d: Seq<u8>)
    ensures
        base64_text(d).len() == (d.len() + 2) / 3 * 4,
    decreases d.len(),
{
    if d.len() > 2 {
        base64_has_four_letters_for_three_bytes(d.skip(3));
    }
}

} // verus!
