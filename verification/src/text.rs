//! Text: views of strings as character sequences, and the few operations on them
//! that the rest of the library is built from.

use vstd::prelude::*;

verus! {

/// Specification of `String::push`: the character is appended to the text.
pub assume_specification[ String::push ](s: &mut String, ch: char)
    ensures
        final(s)@ == old(s)@.push(ch),
;

/// The characters of `s`.
pub fn chars_of(s: &str) -> (r: Vec<char>)
    ensures
        r@ == s@,
{
    let mut out: Vec<char> = Vec::new();
    for c in iter: s.chars()
        invariant
            iter.seq() == s@,
            out@ == s@.take(iter.index() as int),
    {
        proof {
            assert(s@.take(iter.index() + 1) =~= s@.take(iter.index() as int).push(c));
        }
        out.push(c);
    }
    assert(s@.take(s@.len() as int) =~= s@);
    out
}

/// The text made of `chars[from..to]`.
pub fn string_of(chars: &Vec<char>, from: usize, to: usize) -> (r: String)
    requires
        from <= to <= chars@.len(),
    ensures
        r@ == chars@.subrange(from as int, to as int),
{
    let mut out = String::new();
    let mut i: usize = from;
    while i < to
        invariant
            from <= i <= to <= chars@.len(),
            out@ == chars@.subrange(from as int, i as int),
        decreases to - i,
    {
        out.push(chars[i]);
        proof {
            assert(chars@.subrange(from as int, i + 1) =~= chars@.subrange(from as int, i as int).push(chars@[i as int]));
        }
        i += 1;
    }
    out
}

/// Whether `a` and `b` are the same text.
pub fn same_text(a: &str, b: &str) -> (r: bool)
    ensures
        r == (a@ == b@),
{
    let x = a.as_bytes();
    let y = b.as_bytes();
    proof {
        vstd::utf8::encode_utf8_decode_utf8(a@);
        vstd::utf8::encode_utf8_decode_utf8(b@);
    }
    if x.len() != y.len() {
        return false;
    }
    let mut i: usize = 0;
    while i < x.len()
        invariant
            i <= x@.len(),
            x@.len() == y@.len(),
            forall|j: int| 0 <= j < i ==> x@[j] == y@[j],
            x@ == vstd::utf8::encode_utf8(a@),
            y@ == vstd::utf8::encode_utf8(b@),
        decreases x@.len() - i,
    {
        if x[i] != y[i] {
            return false;
        }
        i += 1;
    }
    assert(x@ =~= y@);
    true
}

/// The view of an optional text.
pub open spec fn opt_str(t: Option<&str>) -> Option<Seq<char>> {
    match t {
        Some(s) => Some(s@),
        None => None,
    }
}

/// The texts of a list of strings.
pub open spec fn texts(v: Seq<String>) -> Seq<Seq<char>> {
    v.map_values(|s: String| s@)
}

/// The texts of a list of lists of strings.
pub open spec fn rows(v: Seq<Vec<String>>) -> Seq<Seq<Seq<char>>> {
    v.map_values(|c: Vec<String>| texts(c@))
}

// ---------------------------------------------------------------------------
// White space
// ---------------------------------------------------------------------------

/// The characters that Unicode calls white space.
pub open spec fn is_white(c: char) -> bool {
    ||| 0x9 <= c as u32 <= 0xd
    ||| c as u32 == 0x20
    ||| c as u32 == 0x85
    ||| c as u32 == 0xa0
    ||| c as u32 == 0x1680
    ||| 0x2000 <= c as u32 <= 0x200a
    ||| c as u32 == 0x2028
    ||| c as u32 == 0x2029
    ||| c as u32 == 0x202f
    ||| c as u32 == 0x205f
    ||| c as u32 == 0x3000
}

/// Whether `c` is white space.
pub fn is_whitespace(c: char) -> (r: bool)
    ensures
        r == is_white(c),
{
    let n: u32 = c as u32;
    (0x9 <= n && n <= 0xd) || n == 0x20 || n == 0x85 || n == 0xa0 || n == 0x1680 || (0x2000 <= n
        && n <= 0x200a) || n == 0x2028 || n == 0x2029 || n == 0x202f || n == 0x205f || n == 0x3000
}

/// `s` without its leading white space.
pub open spec fn trimmed_start(s: Seq<char>) -> Seq<char>
    decreases s.len(),
{
    if s.len() > 0 && is_white(s[0]) {
        trimmed_start(s.drop_first())
    } else {
        s
    }
}

/// `s` without its trailing white space.
pub open spec fn trimmed_end(s: Seq<char>) -> Seq<char>
    decreases s.len(),
{
    if s.len() > 0 && is_white(s.last()) {
        trimmed_end(s.drop_last())
    } else {
        s
    }
}

/// `s` without the white space around it.
pub open spec fn trimmed(s: Seq<char>) -> Seq<char> {
    trimmed_end(trimmed_start(s))
}

/// Whether `s` holds nothing but white space.
pub open spec fn is_blank(s: Seq<char>) -> bool {
    forall|i: int| 0 <= i < s.len() ==> is_white(#[trigger] s[i])
}

/// Nothing is left of a text by trimming exactly when it is blank.
pub proof fn blank_iff_trimmed_empty(s: Seq<char>)
    ensures
        is_blank(s) <==> trimmed(s).len() == 0,
{
    blank_start(s);
    trimmed_start_head(s);
    trimmed_end_keeps_head(trimmed_start(s));
}

proof fn blank_start(s: Seq<char>)
    ensures
        is_blank(s) <==> trimmed_start(s).len() == 0,
    decreases s.len(),
{
    if s.len() > 0 && is_white(s[0]) {
        blank_start(s.drop_first());
        assert forall|i: int| is_blank(s.drop_first()) && 0 <= i < s.len() implies is_white(#[trigger] s[i]) by {
            if i > 0 {
                assert(s.drop_first()[i - 1] == s[i]);
            }
        }
        assert forall|i: int| is_blank(s) && 0 <= i < s.drop_first().len() implies is_white(
            #[trigger] s.drop_first()[i],
        ) by {
            assert(s.drop_first()[i] == s[i + 1]);
        }
    }
}

proof fn trimmed_start_head(s: Seq<char>)
    ensures
        trimmed_start(s).len() > 0 ==> !is_white(trimmed_start(s)[0]),
    decreases s.len(),
{
    if s.len() > 0 && is_white(s[0]) {
        trimmed_start_head(s.drop_first());
    }
}

proof fn trimmed_end_keeps_head(s: Seq<char>)
    requires
        s.len() > 0 ==> !is_white(s[0]),
    ensures
        trimmed_end(s).len() == 0 <==> s.len() == 0,
    decreases s.len(),
{
    if s.len() > 0 && is_white(s.last()) {
        assert(s.len() > 1);
        trimmed_end_keeps_head(s.drop_last());
    }
}

/// `s` without the white space around it.
pub fn trim(s: &str) -> (r: String)
    ensures
        r@ == trimmed(s@),
{
    let chars = chars_of(s);
    let mut from: usize = 0;
    assert(chars@.skip(0) =~= chars@);
    while from < chars.len() && is_whitespace(chars[from])
        invariant
            from <= chars@.len(),
            trimmed_start(chars@) == trimmed_start(chars@.skip(from as int)),
        decreases chars@.len() - from,
    {
        proof {
            assert(chars@.skip(from as int)[0] == chars@[from as int]);
            assert(chars@.skip(from as int).drop_first() =~= chars@.skip(from + 1));
        }
        from += 1;
    }
    let ghost rest = chars@.skip(from as int);
    assert(trimmed_start(chars@) == rest) by {
        if from < chars@.len() {
            assert(rest[0] == chars@[from as int]);
        }
    }
    let mut to: usize = chars.len();
    assert(rest =~= chars@.subrange(from as int, to as int));
    while to > from && is_whitespace(chars[to - 1])
        invariant
            from <= to <= chars@.len(),
            trimmed_end(rest) == trimmed_end(chars@.subrange(from as int, to as int)),
        decreases to,
    {
        proof {
            let part = chars@.subrange(from as int, to as int);
            assert(part.last() == chars@[to - 1]);
            assert(part.drop_last() =~= chars@.subrange(from as int, to - 1));
        }
        to -= 1;
    }
    proof {
        let part = chars@.subrange(from as int, to as int);
        if to > from {
            assert(part.last() == chars@[to - 1]);
        }
    }
    string_of(&chars, from, to)
}

// ---------------------------------------------------------------------------
// Pieces
// ---------------------------------------------------------------------------

/// The pieces of `s` between occurrences of `sep`; always at least one.
pub open spec fn split_text(s: Seq<char>, sep: char) -> Seq<Seq<char>>
    decreases s.len(),
{
    if s.len() == 0 {
        seq![Seq::<char>::empty()]
    } else {
        let before = split_text(s.drop_last(), sep);
        if s.last() == sep {
            before.push(Seq::<char>::empty())
        } else {
            before.drop_last().push(before.last().push(s.last()))
        }
    }
}

/// There is always a piece.
pub proof fn split_text_nonempty(s: Seq<char>, sep: char)
    ensures
        split_text(s, sep).len() > 0,
    decreases s.len(),
{
    if s.len() > 0 {
        split_text_nonempty(s.drop_last(), sep);
    }
}

/// The pieces of `s` between occurrences of `sep`.
pub fn split(s: &str, sep: char) -> (r: Vec<String>)
    ensures
        texts(r@) == split_text(s@, sep),
{
    let chars = chars_of(s);
    let mut done: Vec<String> = Vec::new();
    let mut piece = String::new();
    let mut i: usize = 0;
    proof {
        assert(chars@.take(0) =~= Seq::<char>::empty());
        assert(texts(done@).push(piece@) =~= seq![Seq::<char>::empty()]);
    }
    while i < chars.len()
        invariant
            i <= chars@.len(),
            texts(done@).push(piece@) == split_text(chars@.take(i as int), sep),
        decreases chars@.len() - i,
    {
        let c = chars[i];
        proof {
            let seen = chars@.take(i + 1);
            assert(seen.drop_last() =~= chars@.take(i as int));
            assert(seen.last() == c);
            assert(texts(done@).push(piece@).drop_last() =~= texts(done@));
            assert(texts(done@).push(piece@).last() == piece@);
        }
        if c == sep {
            let ghost earlier = done@;
            done.push(piece);
            piece = String::new();
            proof {
                assert(texts(done@) =~= texts(earlier).push(done@.last()@));
                assert(piece@ =~= Seq::<char>::empty());
            }
        } else {
            piece.push(c);
        }
        i += 1;
    }
    let ghost earlier = done@;
    let ghost last = piece@;
    done.push(piece);
    proof {
        assert(chars@.take(i as int) =~= s@);
        assert(texts(done@) =~= texts(earlier).push(last));
    }
    done
}

/// The words of `s`: its longest runs of characters other than white space.
pub open spec fn words_text(s: Seq<char>) -> Seq<Seq<char>>
    decreases s.len(),
{
    if s.len() == 0 {
        Seq::empty()
    } else {
        let before = words_text(s.drop_last());
        if is_white(s.last()) {
            before
        } else if s.len() == 1 || is_white(s[s.len() - 2]) {
            before.push(seq![s.last()])
        } else {
            before.drop_last().push(before.last().push(s.last()))
        }
    }
}

/// The words of `s`.
pub fn split_whitespace(s: &str) -> (r: Vec<String>)
    ensures
        texts(r@) == words_text(s@),
{
    let chars = chars_of(s);
    let mut done: Vec<String> = Vec::new();
    let mut word = String::new();
    let mut inside: bool = false;
    let mut i: usize = 0;
    proof {
        assert(chars@.take(0) =~= Seq::<char>::empty());
        assert(texts(done@) =~= Seq::<Seq<char>>::empty());
    }
    while i < chars.len()
        invariant
            i <= chars@.len(),
            inside == (i > 0 && !is_white(chars@[i - 1])),
            !inside ==> texts(done@) == words_text(chars@.take(i as int)) && word@.len() == 0,
            inside ==> texts(done@).push(word@) == words_text(chars@.take(i as int)),
        decreases chars@.len() - i,
    {
        let c = chars[i];
        let ghost earlier = done@;
        let ghost partial = word@;
        proof {
            let seen = chars@.take(i + 1);
            assert(seen.drop_last() =~= chars@.take(i as int));
            assert(seen.last() == c);
            if i > 0 {
                assert(seen[seen.len() - 2] == chars@[i - 1]);
            }
            assert(texts(earlier).push(partial).drop_last() =~= texts(earlier));
            assert(texts(earlier).push(partial).last() == partial);
        }
        if is_whitespace(c) {
            if inside {
                done.push(word);
                word = String::new();
                proof {
                    assert(texts(done@) =~= texts(earlier).push(partial));
                }
            }
            inside = false;
        } else {
            word.push(c);
            proof {
                if !inside {
                    assert(word@ =~= seq![c]);
                }
            }
            inside = true;
        }
        i += 1;
    }
    assert(chars@.take(i as int) =~= s@);
    if inside {
        let ghost earlier = done@;
        let ghost last = word@;
        done.push(word);
        proof {
            assert(texts(done@) =~= texts(earlier).push(last));
        }
    }
    done
}

/// `line` without the carriage return at its end.
pub open spec fn without_return(line: Seq<char>) -> Seq<char> {
    if line.len() > 0 && line.last() == '\r' {
        line.drop_last()
    } else {
        line
    }
}

/// The lines of `s`: a line feed, or a carriage return and a line feed, ends a
/// line; a last line needs no end, and there is none when nothing follows the
/// last line feed.
pub open spec fn lines_text(s: Seq<char>) -> Seq<Seq<char>> {
    let pieces = split_text(s, '\n');
    let ended = pieces.drop_last().map_values(|l: Seq<char>| without_return(l));
    if pieces.last().len() == 0 {
        ended
    } else {
        ended.push(pieces.last())
    }
}

/// The lines of `s`.
pub fn lines(s: &str) -> (r: Vec<String>)
    ensures
        texts(r@) == lines_text(s@),
{
    let pieces = split(s, '\n');
    let mut out: Vec<String> = Vec::new();
    let mut i: usize = 0;
    proof {
        split_text_nonempty(s@, '\n');
        assert(texts(pieces@).len() == pieces@.len());
    }
    let ghost ended = texts(pieces@).drop_last().map_values(|l: Seq<char>| without_return(l));
    assert(texts(out@) =~= ended.take(0));
    while i < pieces.len() - 1
        invariant
            0 < pieces@.len(),
            i < pieces@.len(),
            ended == texts(pieces@).drop_last().map_values(|l: Seq<char>| without_return(l)),
            texts(out@) == ended.take(i as int),
        decreases pieces@.len() - i,
    {
        let chars = chars_of(pieces[i].as_str());
        let n: usize = chars.len();
        let ghost earlier = out@;
        let line = if n > 0 && chars[n - 1] == '\r' {
            string_of(&chars, 0, n - 1)
        } else {
            string_of(&chars, 0, n)
        };
        proof {
            assert(chars@.subrange(0, n as int) =~= chars@);
            if n > 0 {
                assert(chars@.subrange(0, n - 1) =~= chars@.drop_last());
            }
            assert(line@ == without_return(pieces@[i as int]@));
            assert(ended.take(i + 1) =~= ended.take(i as int).push(line@));
        }
        out.push(line);
        assert(texts(out@) =~= texts(earlier).push(out@.last()@));
        i += 1;
    }
    assert(ended.take(i as int) =~= ended);
    let last = pieces[i].clone();
    if last.as_str().is_empty() {
        out
    } else {
        let ghost earlier = out@;
        out.push(last);
        assert(texts(out@) =~= texts(earlier).push(out@.last()@));
        out
    }
}

/// `parts` with `sep` between each two.
pub open spec fn joined(parts: Seq<Seq<char>>, sep: Seq<char>) -> Seq<char>
    decreases parts.len(),
{
    if parts.len() == 0 {
        Seq::empty()
    } else if parts.len() == 1 {
        parts[0]
    } else {
        joined(parts.drop_last(), sep) + sep + parts.last()
    }
}

/// `parts` with `sep` between each two.
pub fn join(parts: &Vec<String>, sep: &str) -> (r: String)
    ensures
        r@ == joined(texts(parts@), sep@),
{
    let mut out = String::new();
    let mut i: usize = 0;
    assert(texts(parts@).take(0) =~= Seq::<Seq<char>>::empty());
    assert(out@ =~= Seq::<char>::empty());
    while i < parts.len()
        invariant
            i <= parts@.len(),
            out@ == joined(texts(parts@).take(i as int), sep@),
        decreases parts@.len() - i,
    {
        proof {
            let seen = texts(parts@).take(i + 1);
            assert(seen.drop_last() =~= texts(parts@).take(i as int));
            assert(seen.last() == parts@[i as int]@);
            if i == 0 {
                assert(out@ + parts@[0]@ =~= parts@[0]@);
            }
        }
        if i > 0 {
            out.append(sep);
        }
        out.append(parts[i].as_str());
        i += 1;
    }
    assert(texts(parts@).take(i as int) =~= texts(parts@));
    out
}

// ---------------------------------------------------------------------------
// Letter case
// ---------------------------------------------------------------------------

/// A character, in lower case where it is an ASCII letter.
pub open spec fn lower(c: char) -> char {
    if 'A' <= c <= 'Z' {
        (c as u32 + 32) as char
    } else {
        c
    }
}

/// A text with its ASCII letters in lower case.
pub open spec fn lowered(s: Seq<char>) -> Seq<char> {
    s.map_values(|c: char| lower(c))
}

/// `s` with its ASCII letters in lower case.
pub fn to_lowercase(s: &str) -> (r: String)
    ensures
        r@ == lowered(s@),
{
    let chars = chars_of(s);
    let mut out = String::new();
    let mut i: usize = 0;
    assert(out@ =~= lowered(chars@).take(0));
    while i < chars.len()
        invariant
            i <= chars@.len(),
            out@ == lowered(chars@).take(i as int),
        decreases chars@.len() - i,
    {
        let c = chars[i];
        let l = if 'A' <= c && c <= 'Z' {
            (c as u8 + 32) as char
        } else {
            c
        };
        assert(lowered(chars@).take(i + 1) =~= lowered(chars@).take(i as int).push(lower(c)));
        out.push(l);
        i += 1;
    }
    assert(lowered(chars@).take(i as int) =~= lowered(chars@));
    out
}

// ---------------------------------------------------------------------------
// Order
// ---------------------------------------------------------------------------

/// Whether `a` comes before `b`, byte by byte.
pub open spec fn bytes_before(a: Seq<u8>, b: Seq<u8>) -> bool
    decreases a.len(),
{
    if b.len() == 0 {
        false
    } else if a.len() == 0 {
        true
    } else {
        a[0] < b[0] || (a[0] == b[0] && bytes_before(a.drop_first(), b.drop_first()))
    }
}

/// Whether the text `a` comes before the text `b`.
pub open spec fn text_before(a: Seq<char>, b: Seq<char>) -> bool {
    bytes_before(vstd::utf8::encode_utf8(a), vstd::utf8::encode_utf8(b))
}

/// Whether the text `a` comes before the text `b`, byte by byte.
pub fn before(a: &str, b: &str) -> (r: bool)
    ensures
        r == text_before(a@, b@),
{
    let x = a.as_bytes();
    let y = b.as_bytes();
    let mut i: usize = 0;
    assert(x@.skip(0) =~= x@);
    assert(y@.skip(0) =~= y@);
    while i < x.len() && i < y.len()
        invariant
            i <= x@.len(),
            i <= y@.len(),
            bytes_before(x@, y@) == bytes_before(x@.skip(i as int), y@.skip(i as int)),
            x@ == vstd::utf8::encode_utf8(a@),
            y@ == vstd::utf8::encode_utf8(b@),
        decreases x@.len() - i,
    {
        proof {
            assert(x@.skip(i as int)[0] == x@[i as int]);
            assert(y@.skip(i as int)[0] == y@[i as int]);
            assert(x@.skip(i as int).drop_first() =~= x@.skip(i + 1));
            assert(y@.skip(i as int).drop_first() =~= y@.skip(i + 1));
        }
        if x[i] < y[i] {
            return true;
        }
        if x[i] > y[i] {
            return false;
        }
        i += 1;
    }
    i < y.len()
}

/// The order of texts is strict and total.
pub proof fn bytes_before_is_strict(a: Seq<u8>, b: Seq<u8>)
    ensures
        bytes_before(a, b) ==> !bytes_before(b, a),
        !bytes_before(a, b) && !bytes_before(b, a) ==> a == b,
    decreases a.len(),
{
    if a.len() > 0 && b.len() > 0 {
        bytes_before_is_strict(a.drop_first(), b.drop_first());
        assert(a =~= seq![a[0]] + a.drop_first());
        assert(b =~= seq![b[0]] + b.drop_first());
    } else if a.len() == 0 && b.len() == 0 {
        assert(a =~= b);
    }
}

/// The order of texts is transitive.
pub proof fn bytes_before_is_transitive(a: Seq<u8>, b: Seq<u8>, c: Seq<u8>)
    ensures
        bytes_before(a, b) && bytes_before(b, c) ==> bytes_before(a, c),
    decreases a.len(),
{
    if a.len() > 0 && b.len() > 0 && c.len() > 0 {
        bytes_before_is_transitive(a.drop_first(), b.drop_first(), c.drop_first());
    }
}

// ---------------------------------------------------------------------------
// Numbers
// ---------------------------------------------------------------------------

/// The decimal digit for `d`.
pub open spec fn digit(d: nat) -> char {
    (48 + d) as char
}

/// `n` in decimal, without leading zeros.
pub open spec fn decimal_text(n: nat) -> Seq<char>
    decreases n,
{
    if n < 10 {
        seq![digit(n)]
    } else {
        decimal_text(n / 10).push(digit(n % 10))
    }
}

/// `n` in decimal.
pub fn decimal(n: u64) -> (r: String)
    ensures
        r@ == decimal_text(n as nat),
    decreases n,
{
    if n < 10 {
        let mut out = String::new();
        out.push((48 + n as u8) as char);
        assert(out@ =~= seq![digit(n as nat)]);
        out
    } else {
        let mut out = decimal(n / 10);
        out.push((48 + (n % 10) as u8) as char);
        out
    }
}

/// The lower-case hexadecimal digit for `d`.
pub open spec fn hex_lower(d: int) -> char {
    if d < 10 {
        (48 + d) as char
    } else {
        (87 + d) as char
    }
}

/// The upper-case hexadecimal digit for `d`.
pub open spec fn hex_upper(d: int) -> char {
    if d < 10 {
        (48 + d) as char
    } else {
        (55 + d) as char
    }
}

/// The lower-case hexadecimal digit for `d`.
pub fn hex_lower_digit(d: u8) -> (r: char)
    requires
        d < 16,
    ensures
        r == hex_lower(d as int),
{
    if d < 10 {
        (48 + d) as char
    } else {
        (87 + d) as char
    }
}

/// The upper-case hexadecimal digit for `d`.
pub fn hex_upper_digit(d: u8) -> (r: char)
    requires
        d < 16,
    ensures
        r == hex_upper(d as int),
{
    if d < 10 {
        (48 + d) as char
    } else {
        (55 + d) as char
    }
}

// ---------------------------------------------------------------------------
// Text from std
// ---------------------------------------------------------------------------

/// What std's `Debug` shows for a text.
pub uninterp spec fn debug_text(s: Seq<char>) -> Seq<char>;

/// Calls `Debug` of `str` through `format!`: the quoted and escaped form of `s`,
/// which depends on `s` alone.
#[verifier::external_body]
pub(crate) fn debug(s: &str) -> (r: String)
    ensures
        r@ == debug_text(s@),
{
    format!("{:?}", s)
}

/// The text that `String::from_utf8_lossy` makes of bytes.
pub uninterp spec fn lossy_text(bytes: Seq<u8>) -> Seq<char>;

/// Calls `String::from_utf8_lossy`: bytes that are valid UTF-8 are decoded as
/// they stand; what stands for invalid parts depends on the bytes alone.
#[verifier::external_body]
fn from_utf8_lossy(bytes: &[u8]) -> (r: String)
    ensures
        r@ == lossy_text(bytes@),
        vstd::utf8::valid_utf8(bytes@) ==> r@ == vstd::utf8::decode_utf8(bytes@),
{
    String::from_utf8_lossy(bytes).into_owned()
}

/// Bytes as they are shown: decoded where they are valid UTF-8, and with something in the
/// place of what is not.
pub open spec fn shown_text(bytes: Seq<u8>) -> Seq<char> {
    if vstd::utf8::valid_utf8(bytes) {
        vstd::utf8::decode_utf8(bytes)
    } else {
        lossy_text(bytes)
    }
}

/// Bytes as they are shown.
pub fn decode(bytes: &[u8]) -> (r: String)
    ensures
        r@ == shown_text(bytes@),
{
    from_utf8_lossy(bytes)
}

// ---------------------------------------------------------------------------
// Laws
// ---------------------------------------------------------------------------

/// Trimming cuts white space from both ends and nothing else: what is left stands in the
/// text as it is, begins and ends with no white space, and what stood before and behind it
/// is white space.
pub proof fn trimming_cuts_white_space_only(s: Seq<char>) -> (cut: (int, int))
    ensures
        0 <= cut.0 <= cut.1 <= s.len(),
        trimmed(s) == s.subrange(cut.0, cut.1),
        forall|i: int| 0 <= i < cut.0 ==> is_white(#[trigger] s[i]),
        forall|i: int| cut.1 <= i < s.len() ==> is_white(#[trigger] s[i]),
        cut.0 < cut.1 ==> !is_white(s[cut.0]) && !is_white(s[cut.1 - 1]),
{
    let from = start_is_cut(s);
    let rest = trimmed_start(s);
    let to = end_is_cut(rest);
    assert(trimmed(s) =~= s.subrange(from, from + to));
    assert forall|i: int| from + to <= i < s.len() implies is_white(#[trigger] s[i]) by {
        assert(rest[i - from] == s[i]);
    }
    if to > 0 {
        assert(rest[0] == s[from]);
        assert(rest[to - 1] == s[from + to - 1]);
    }
    (from, from + to)
}

proof fn start_is_cut(s: Seq<char>) -> (n: int)
    ensures
        0 <= n <= s.len(),
        trimmed_start(s) == s.skip(n),
        forall|i: int| 0 <= i < n ==> is_white(#[trigger] s[i]),
        n < s.len() ==> !is_white(s[n]),
    decreases s.len(),
{
    if s.len() > 0 && is_white(s[0]) {
        let n = start_is_cut(s.drop_first());
        assert(trimmed_start(s) =~= s.skip(n + 1));
        assert forall|i: int| 0 <= i < n + 1 implies is_white(#[trigger] s[i]) by {
            if i > 0 {
                assert(s.drop_first()[i - 1] == s[i]);
            }
        }
        n + 1
    } else {
        assert(s.skip(0) =~= s);
        0
    }
}

proof fn end_is_cut(s: Seq<char>) -> (n: int)
    ensures
        0 <= n <= s.len(),
        trimmed_end(s) == s.take(n),
        forall|i: int| n <= i < s.len() ==> is_white(#[trigger] s[i]),
        n > 0 ==> !is_white(s[n - 1]),
    decreases s.len(),
{
    if s.len() > 0 && is_white(s.last()) {
        let n = end_is_cut(s.drop_last());
        assert(trimmed_end(s) =~= s.take(n));
        assert forall|i: int| n <= i < s.len() implies is_white(#[trigger] s[i]) by {
            if i < s.len() - 1 {
                assert(s.drop_last()[i] == s[i]);
            }
        }
        n
    } else {
        assert(s.take(s.len() as int) =~= s);
        s.len() as int
    }
}

/// Splitting and joining again gives the text back, and no piece holds the separator.
pub proof fn split_joins_back(s: Seq<char>, sep: char)
    ensures
        split_text(s, sep).len() > 0,
        joined(split_text(s, sep), seq![sep]) == s,
        forall|i: int, j: int|
            0 <= i < split_text(s, sep).len() && 0 <= j < split_text(s, sep)[i].len()
                ==> #[trigger] split_text(s, sep)[i][j] != sep,
    decreases s.len(),
{
    let pieces = split_text(s, sep);
    if s.len() == 0 {
        assert(joined(pieces, seq![sep]) =~= s);
    } else {
        let before = split_text(s.drop_last(), sep);
        split_joins_back(s.drop_last(), sep);
        assert(s =~= s.drop_last().push(s.last()));
        if s.last() == sep {
            assert(pieces.drop_last() =~= before);
            assert(joined(pieces, seq![sep]) =~= joined(before, seq![sep]) + seq![sep]
                + Seq::<char>::empty());
            assert(joined(pieces, seq![sep]) =~= s);
            assert forall|i: int, j: int|
                0 <= i < pieces.len() && 0 <= j < pieces[i].len() implies #[trigger] pieces[i][j]
                != sep by {
                assert(i < before.len());
                assert(pieces[i] == before[i]);
                assert(before[i][j] != sep);
            }
        } else {
            let n = before.len();
            assert(pieces.drop_last() =~= before.drop_last());
            assert(pieces.last() == before.last().push(s.last()));
            assert(joined(pieces, seq![sep]) =~= joined(before, seq![sep]).push(s.last()));
            assert forall|i: int, j: int|
                0 <= i < pieces.len() && 0 <= j < pieces[i].len() implies #[trigger] pieces[i][j]
                != sep by {
                if i < n - 1 {
                    assert(pieces[i] == before[i]);
                    assert(before[i][j] != sep);
                } else if j < before[i].len() {
                    assert(before[i][j] != sep);
                }
            }
        }
    }
}

/// A text that does not hold the separator is a single piece.
pub proof fn split_of_a_piece(s: Seq<char>, sep: char)
    requires
        forall|i: int| 0 <= i < s.len() ==> #[trigger] s[i] != sep,
    ensures
        split_text(s, sep) == seq![s],
    decreases s.len(),
{
    if s.len() > 0 {
        let t = s.drop_last();
        assert forall|i: int| 0 <= i < t.len() implies #[trigger] t[i] != sep by {
            assert(t[i] == s[i]);
        }
        split_of_a_piece(t, sep);
        assert(s[s.len() - 1] != sep);
        assert(t.push(s.last()) =~= s);
        assert(split_text(s, sep) =~= seq![s]);
    } else {
        assert(s =~= Seq::<char>::empty());
    }
}

/// What stands before the first separator is the first piece, and the others are those of
/// what stands behind it.
pub proof fn split_at_the_first(a: Seq<char>, b: Seq<char>, sep: char)
    requires
        forall|i: int| 0 <= i < a.len() ==> #[trigger] a[i] != sep,
    ensures
        split_text(a.push(sep) + b, sep) == seq![a] + split_text(b, sep),
    decreases b.len(),
{
    let s = a.push(sep) + b;
    split_text_nonempty(b, sep);
    if b.len() == 0 {
        split_of_a_piece(a, sep);
        assert(s =~= a.push(sep));
        assert(s.drop_last() =~= a);
    } else {
        split_at_the_first(a, b.drop_last(), sep);
        split_text_nonempty(b.drop_last(), sep);
        assert(s.drop_last() =~= a.push(sep) + b.drop_last());
        let tail = split_text(b.drop_last(), sep);
        assert((seq![a] + tail).last() == tail.last());
        assert((seq![a] + tail).drop_last() =~= seq![a] + tail.drop_last());
    }
    assert(split_text(s, sep) =~= seq![a] + split_text(b, sep));
}

/// Whether a text is a word: not empty, and without white space.
pub open spec fn is_one_word(w: Seq<char>) -> bool {
    w.len() > 0 && forall|i: int| 0 <= i < w.len() ==> !is_white(#[trigger] w[i])
}

/// A word is the only word of its text.
pub proof fn word_is_its_only_word(w: Seq<char>)
    requires
        is_one_word(w),
    ensures
        words_text(w) == seq![w],
    decreases w.len(),
{
    if w.len() == 1 {
        assert(w.drop_last() =~= Seq::<char>::empty());
        assert(seq![w.last()] =~= w);
        assert(!is_white(w[0]));
        assert(words_text(w.drop_last()) =~= Seq::<Seq<char>>::empty());
        assert(words_text(w) =~= seq![w]);
    } else {
        let t = w.drop_last();
        assert forall|i: int| 0 <= i < t.len() implies !is_white(#[trigger] t[i]) by {
            assert(t[i] == w[i]);
        }
        word_is_its_only_word(t);
        assert(!is_white(w[w.len() - 1]) && !is_white(w[w.len() - 2]));
        assert(t.push(w.last()) =~= w);
        assert(words_text(w) =~= seq![w]);
    }
}

/// White space behind a text adds no word; a word behind white space is one more word.
pub proof fn word_behind_white_space(s: Seq<char>, white: char, w: Seq<char>)
    requires
        is_white(white),
        w.len() == 0 || is_one_word(w),
    ensures
        words_text(s.push(white) + w) == (if w.len() == 0 {
            words_text(s)
        } else {
            words_text(s).push(w)
        }),
    decreases w.len(),
{
    let all = s.push(white) + w;
    if w.len() == 0 {
        assert(all =~= s.push(white));
        assert(all.drop_last() =~= s);
    } else {
        let t = w.drop_last();
        assert(all.drop_last() =~= s.push(white) + t);
        assert(all.last() == w[w.len() - 1]);
        if t.len() == 0 {
            word_behind_white_space(s, white, t);
            assert(all[all.len() - 2] == white);
            assert(seq![all.last()] =~= w);
        } else {
            assert forall|i: int| 0 <= i < t.len() implies !is_white(#[trigger] t[i]) by {
                assert(t[i] == w[i]);
            }
            word_behind_white_space(s, white, t);
            assert(all[all.len() - 2] == w[w.len() - 2]);
            let before = words_text(s).push(t);
            assert(before.drop_last() =~= words_text(s));
            assert(t.push(w.last()) =~= w);
        }
    }
}

/// Words that are joined by single spaces are read back.
pub proof fn joined_words_read_back(words: Seq<Seq<char>>)
    requires
        forall|i: int| 0 <= i < words.len() ==> is_one_word(#[trigger] words[i]),
    ensures
        words_text(joined(words, seq![' '])) == words,
    decreases words.len(),
{
    let s = joined(words, seq![' ']);
    if words.len() == 0 {
        assert(words_text(s) =~= words);
    } else if words.len() == 1 {
        word_is_its_only_word(words[0]);
        assert(seq![words[0]] =~= words);
    } else {
        let rest = words.drop_last();
        assert forall|i: int| 0 <= i < rest.len() implies is_one_word(#[trigger] rest[i]) by {
            assert(rest[i] == words[i]);
        }
        joined_words_read_back(rest);
        assert(is_one_word(words[words.len() - 1]));
        word_behind_white_space(joined(rest, seq![' ']), ' ', words.last());
        assert(s =~= joined(rest, seq![' ']).push(' ') + words.last());
        assert(rest.push(words.last()) =~= words);
    }
}

/// A word in front of a text is its first word.
pub proof fn word_in_front(w: Seq<char>, rest: Seq<char>)
    requires
        is_one_word(w),
    ensures
        words_text(w.push(' ') + rest) == seq![w] + words_text(rest),
    decreases rest.len(),
{
    let all = w.push(' ') + rest;
    if rest.len() == 0 {
        word_is_its_only_word(w);
        word_behind_white_space(w, ' ', rest);
        assert(words_text(rest) =~= Seq::<Seq<char>>::empty());
        assert(words_text(all) =~= seq![w] + words_text(rest));
    } else {
        let shorter = rest.drop_last();
        assert(all.drop_last() =~= w.push(' ') + shorter);
        word_in_front(w, shorter);
        last_word_is_open(shorter);
        let (before, found) = (words_text(shorter), words_text(all.drop_last()));
        assert(all.last() == rest.last());
        if !is_white(rest.last()) {
            if rest.len() == 1 {
                assert(all[all.len() - 2] == ' ');
            } else {
                assert(all[all.len() - 2] == rest[rest.len() - 2]);
                if !is_white(rest[rest.len() - 2]) {
                    assert(shorter.last() == rest[rest.len() - 2]);
                    assert(found.drop_last() =~= seq![w] + before.drop_last());
                    assert(found.last() == before.last());
                }
            }
        }
        assert(words_text(all) =~= seq![w] + words_text(rest));
    }
}

/// White space in front of a text changes nothing about its words.
pub proof fn white_space_in_front(white: char, rest: Seq<char>)
    requires
        is_white(white),
    ensures
        words_text(seq![white] + rest) == words_text(rest),
    decreases rest.len(),
{
    let all = seq![white] + rest;
    if rest.len() == 0 {
        assert(all.drop_last() =~= Seq::<char>::empty());
        assert(rest =~= Seq::<char>::empty());
    } else {
        let shorter = rest.drop_last();
        assert(all.drop_last() =~= seq![white] + shorter);
        white_space_in_front(white, shorter);
        assert(all.last() == rest.last());
        if rest.len() > 1 {
            assert(all[all.len() - 2] == rest[rest.len() - 2]);
        } else {
            assert(words_text(shorter) =~= Seq::<Seq<char>>::empty());
        }
    }
}

/// The first word of a text that begins with no white space begins as the text does.
pub proof fn first_word_begins_the_text(s: Seq<char>)
    requires
        s.len() > 0,
        !is_white(s[0]),
    ensures
        words_text(s).len() > 0,
        words_text(s)[0].len() > 0,
        words_text(s)[0][0] == s[0],
    decreases s.len(),
{
    if s.len() > 1 {
        first_word_begins_the_text(s.drop_last());
    } else {
        assert(words_text(s.drop_last()) =~= Seq::<Seq<char>>::empty());
        assert(words_text(s) =~= seq![seq![s[0]]]);
    }
}

/// Every word of a text is a word.
pub proof fn words_are_words(s: Seq<char>, i: int)
    requires
        0 <= i < words_text(s).len(),
    ensures
        is_one_word(words_text(s)[i]),
        words_text(s).len() > 0 ==> s.len() > 0,
    decreases s.len(),
{
    if s.len() > 0 {
        let before = words_text(s.drop_last());
        last_word_is_open(s.drop_last());
        if i < before.len() {
            words_are_words(s.drop_last(), i);
            if !is_white(s.last()) && i == before.len() - 1 {
                let w = before[i].push(s.last());
                assert forall|j: int| 0 <= j < w.len() implies !is_white(#[trigger] w[j]) by {
                    if j < before[i].len() {
                        assert(w[j] == before[i][j]);
                    }
                }
                let one = seq![s.last()];
                assert(is_one_word(w));
            }
        }
    }
}

proof fn last_word_is_open(s: Seq<char>)
    ensures
        s.len() > 0 && !is_white(s.last()) ==> words_text(s).len() > 0,
    decreases s.len(),
{
    if s.len() > 1 {
        last_word_is_open(s.drop_last());
    }
}

/// A text without a line feed is one line, or none where it is empty.
pub proof fn lines_of_one_line(s: Seq<char>)
    requires
        forall|i: int| 0 <= i < s.len() ==> #[trigger] s[i] != '\n',
    ensures
        lines_text(s) == (if s.len() == 0 {
            Seq::<Seq<char>>::empty()
        } else {
            seq![s]
        }),
{
    split_of_a_piece(s, '\n');
    let pieces = split_text(s, '\n');
    assert(pieces.drop_last() =~= Seq::<Seq<char>>::empty());
    assert(lines_text(s) =~= (if s.len() == 0 {
        Seq::<Seq<char>>::empty()
    } else {
        seq![s]
    }));
}

/// The first line ends at the first line feed, without the carriage return before it, and
/// the other lines are those of what follows.
pub proof fn lines_after_the_first(a: Seq<char>, b: Seq<char>)
    requires
        forall|i: int| 0 <= i < a.len() ==> #[trigger] a[i] != '\n',
    ensures
        lines_text(a.push('\n') + b) == seq![
            if a.len() > 0 && a.last() == '\r' {
                a.drop_last()
            } else {
                a
            },
        ] + lines_text(b),
{
    split_at_the_first(a, b, '\n');
    split_text_nonempty(b, '\n');
    let (all, rest) = (split_text(a.push('\n') + b, '\n'), split_text(b, '\n'));
    assert(all.last() == rest.last());
    assert(all.drop_last() =~= seq![a] + rest.drop_last());
    assert(all.drop_last().map_values(|l: Seq<char>| without_return(l)) =~= seq![without_return(a)]
        + rest.drop_last().map_values(|l: Seq<char>| without_return(l)));
    assert(lines_text(a.push('\n') + b) =~= seq![without_return(a)] + lines_text(b));
}

/// Lowering a text changes its capital letters, each to the letter 32 places on, and
/// nothing else.
pub proof fn lowering_changes_capitals_only(s: Seq<char>, i: int)
    requires
        0 <= i < s.len(),
    ensures
        lowered(s).len() == s.len(),
        lowered(s)[i] as u32 == (if 65 <= s[i] as u32 <= 90 {
            s[i] as u32 + 32
        } else {
            s[i] as u32 as int
        }),
{
}

/// A text comes before another exactly when, at the first byte where they differ, its byte
/// is the smaller one, or it ends there.
pub proof fn order_is_by_the_first_difference(a: Seq<u8>, b: Seq<u8>)
    ensures
        bytes_before(a, b) <==> exists|n: int|
            #![trigger a.take(n)]
            0 <= n <= a.len() && n < b.len() && a.take(n) == b.take(n) && (n == a.len() || a[n]
                < b[n]),
    decreases a.len(),
{
    if bytes_before(a, b) {
        if a.len() == 0 {
            assert(a.take(0) =~= b.take(0));
        } else if a[0] < b[0] {
            assert(a.take(0) =~= b.take(0));
        } else {
            let (x, y) = (a.drop_first(), b.drop_first());
            order_is_by_the_first_difference(x, y);
            let n = choose|n: int|
                #![trigger x.take(n)]
                0 <= n <= x.len() && n < y.len() && x.take(n) == y.take(n) && (n == x.len() || x[n]
                    < y[n]);
            assert(a.take(n + 1) =~= seq![a[0]] + x.take(n));
            assert(b.take(n + 1) =~= seq![b[0]] + y.take(n));
            assert(a.take(n + 1) == b.take(n + 1));
        }
    }
    if exists|n: int|
        #![trigger a.take(n)]
        0 <= n <= a.len() && n < b.len() && a.take(n) == b.take(n) && (n == a.len() || a[n] < b[n]) {
        let n = choose|n: int|
            #![trigger a.take(n)]
            0 <= n <= a.len() && n < b.len() && a.take(n) == b.take(n) && (n == a.len() || a[n]
                < b[n]);
        if n > 0 {
            assert(a.take(n)[0] == b.take(n)[0]);
            let (x, y) = (a.drop_first(), b.drop_first());
            order_is_by_the_first_difference(x, y);
            assert(x.take(n - 1) =~= a.take(n).drop_first());
            assert(y.take(n - 1) =~= b.take(n).drop_first());
            assert(x.take(n - 1) == y.take(n - 1));
        }
    }
}

/// A number is printed without leading zeros: its first digit is 0 only where it is 0.
pub proof fn decimal_has_no_leading_zero(n: nat)
    ensures
        decimal_text(n).len() > 0,
        decimal_text(n)[0] == '0' <==> n == 0,
        n == 0 ==> decimal_text(n).len() == 1,
    decreases n,
{
    if n >= 10 {
        decimal_has_no_leading_zero(n / 10);
        assert(decimal_text(n)[0] == decimal_text(n / 10)[0]);
    }
}

/// The sixteen hexadecimal digits: 0 to 9, then a to f or A to F.
pub proof fn hex_digits_are_in_order(d: int)
    requires
        0 <= d < 16,
    ensures
        d < 10 ==> hex_lower(d) as int == '0' as int + d && hex_upper(d) == hex_lower(d),
        d >= 10 ==> hex_lower(d) as int == 'a' as int + d - 10 && hex_upper(d) as int == 'A' as int
            + d - 10,
{
}

/// A text is blank just where nothing but white space is in it; trimming leaves nothing of
/// such a text and something of every other.
pub proof fn blank_texts_hold_white_space_only(s: Seq<char>)
    ensures
        is_blank(s) <==> forall|i: int| 0 <= i < s.len() ==> is_white(#[trigger] s[i]),
        is_blank(s) <==> trimmed(s).len() == 0,
{
    blank_iff_trimmed_empty(s);
}

/// What counts as white space of ASCII: the tab, the line feed, the vertical tab, the form
/// feed, the carriage return and the space.
pub proof fn ascii_white_space(c: char)
    requires
        (c as u32) < 128,
    ensures
        is_white(c) <==> c == '\t' || c == '\n' || c as u32 == 11 || c as u32 == 12 || c == '\r' || c
            == ' ',
{
}

} // verus!
