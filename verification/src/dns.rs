//! DNS over TCP.
//!
//! Most SOCKS5 proxies cannot relay UDP, so plain DNS cannot ride the tunnel. A
//! forwarder takes UDP queries on the tunnel's address and sends each as DNS over TCP
//! to an upstream resolver; that connection follows the tunnel routes and leaves
//! through the proxy.

use crate::text;
use vstd::prelude::*;

verus! {

/// Upstream resolvers, tried in order (reached through the proxy).
pub const UPSTREAMS: [&'static str; 2] = ["1.1.1.1:53", "9.9.9.9:53"];

/// The id of a probe's query.
pub const PROBE_ID: u16 = 0x5057;

/// A 16-bit number, high byte first.
pub open spec fn be16(n: u16) -> Seq<u8> {
    seq![(n / 256) as u8, (n % 256) as u8]
}

/// A label of a name: its length (what fits into a byte of it), then its bytes.
pub open spec fn label_bytes(label: Seq<char>) -> Seq<u8> {
    let bytes = vstd::utf8::encode_utf8(label);
    seq![(bytes.len() % 256) as u8] + bytes
}

/// The labels of a name, one after the other.
pub open spec fn labels_bytes(labels: Seq<Seq<char>>) -> Seq<u8>
    decreases labels.len(),
{
    if labels.len() == 0 {
        Seq::empty()
    } else {
        labels_bytes(labels.drop_last()) + label_bytes(labels.last())
    }
}

/// The header of a query with one question and recursion desired.
pub open spec fn query_header(id: u16) -> Seq<u8> {
    be16(id) + seq![1u8, 0, 0, 1, 0, 0, 0, 0, 0, 0]
}

/// An A query for `name`: the header, the labels between the dots of the name, the root
/// label, type A and class IN.
pub open spec fn query_bytes(id: u16, name: Seq<char>) -> Seq<u8> {
    query_header(id) + labels_bytes(text::split_text(name, '.')) + seq![0u8, 0, 1, 0, 1]
}

/// A minimal A query for `name`, for probes.
pub fn build_query(id: u16, name: &str) -> (q: Vec<u8>)
    ensures
        q@ == query_bytes(id, name@),
{
    let mut q: Vec<u8> = vec![(id / 256) as u8, (id % 256) as u8, 1, 0, 0, 1, 0, 0, 0, 0, 0, 0];
    assert(q@ =~= query_header(id));
    let labels = text::split(name, '.');
    let ghost parts = text::texts(labels@);
    let mut i: usize = 0;
    assert(parts.take(0) =~= Seq::<Seq<char>>::empty());
    assert(query_header(id) + Seq::<u8>::empty() =~= query_header(id));
    while i < labels.len()
        invariant
            i <= labels@.len(),
            parts == text::texts(labels@),
            q@ == query_header(id) + labels_bytes(parts.take(i as int)),
        decreases labels@.len() - i,
    {
        let bytes = labels[i].as_str().as_bytes();
        let n: usize = bytes.len();
        let ghost before = q@;
        q.push((n % 256) as u8);
        q.extend_from_slice(bytes);
        proof {
            let seen = parts.take(i + 1);
            assert(seen.drop_last() =~= parts.take(i as int));
            assert(seen.last() == labels@[i as int]@);
            assert(q@ =~= before + label_bytes(labels@[i as int]@));
            assert(query_header(id) + labels_bytes(parts.take(i as int)) + label_bytes(seen.last())
                =~= query_header(id) + (labels_bytes(parts.take(i as int)) + label_bytes(
                seen.last(),
            )));
        }
        i += 1;
    }
    assert(parts.take(i as int) =~= parts);
    let ghost before = q@;
    q.push(0);
    q.push(0);
    q.push(1);
    q.push(0);
    q.push(1);
    assert(q@ =~= before + seq![0u8, 0, 1, 0, 1]);
    q
}

/// Whether `reply` answers `id` successfully: the id matches, it is a response without
/// an error, and it holds at least one record.
pub open spec fn is_good_reply(id: u16, reply: Seq<u8>) -> bool {
    &&& reply.len() >= 12
    &&& reply.take(2) == be16(id)
    &&& reply[2] >= 128
    &&& reply[3] % 16 == 0
    &&& reply[6] != 0 || reply[7] != 0
}

/// Whether `reply` answers `id` successfully with at least one record.
pub fn reply_ok(id: u16, reply: &[u8]) -> (r: bool)
    ensures
        r == is_good_reply(id, reply@),
{
    if reply.len() < 12 {
        return false;
    }
    assert(reply@.take(2) == be16(id) <==> reply@[0] == be16(id)[0] && reply@[1] == be16(id)[1]) by {
        if reply@[0] == be16(id)[0] && reply@[1] == be16(id)[1] {
            assert(reply@.take(2) =~= be16(id));
        } else {
            assert(reply@.take(2)[0] == reply@[0] && reply@.take(2)[1] == reply@[1]);
        }
    }
    reply[0] == (id / 256) as u8 && reply[1] == (id % 256) as u8 && reply[2] >= 128 && reply[3] % 16
        == 0 && (reply[6] != 0 || reply[7] != 0)
}

/// What comes back of a probe's query: `None` when none could be sent or received.
pub fn probe_ok(reply: Option<&[u8]>) -> (r: bool)
    ensures
        r == (reply matches Some(b) && is_good_reply(PROBE_ID, b@)),
{
    match reply {
        Some(b) => reply_ok(PROBE_ID, b),
        None => false,
    }
}

/// A query is no answer to itself.
pub proof fn query_is_no_answer(id: u16, name: Seq<char>)
    ensures
        !is_good_reply(id, query_bytes(id, name)),
{
    assert(query_bytes(id, name)[2] == 1);
}

/// A reply answers at most one id.
pub proof fn reply_answers_one_id(id: u16, other: u16, reply: Seq<u8>)
    requires
        is_good_reply(id, reply),
        is_good_reply(other, reply),
    ensures
        id == other,
{
    assert(be16(id)[0] == be16(other)[0] && be16(id)[1] == be16(other)[1]);
}

// ---------------------------------------------------------------------------
// Reading a name back
// ---------------------------------------------------------------------------

/// The labels at the start of `b`, up to the root label, as bytes.
pub open spec fn read_labels(b: Seq<u8>) -> Seq<Seq<u8>>
    decreases b.len(),
{
    if b.len() == 0 || b[0] == 0 || b.len() < 1 + b[0] {
        Seq::empty()
    } else {
        seq![b.subrange(1, 1 + b[0] as int)] + read_labels(b.skip(1 + b[0] as int))
    }
}

proof fn labels_front(labels: Seq<Seq<char>>)
    requires
        labels.len() > 0,
    ensures
        labels_bytes(labels) == label_bytes(labels[0]) + labels_bytes(labels.drop_first()),
    decreases labels.len(),
{
    if labels.len() == 1 {
        assert(labels.drop_last() =~= Seq::<Seq<char>>::empty());
        assert(labels.drop_first() =~= Seq::<Seq<char>>::empty());
        assert(labels_bytes(labels) =~= label_bytes(labels[0]) + labels_bytes(labels.drop_first()));
    } else {
        labels_front(labels.drop_last());
        assert(labels.drop_last().drop_first() =~= labels.drop_first().drop_last());
        assert(labels.drop_last()[0] == labels[0]);
        assert(labels.drop_first().last() == labels.last());
        assert(labels_bytes(labels) =~= label_bytes(labels[0]) + labels_bytes(labels.drop_first()));
    }
}

proof fn labels_read_back(labels: Seq<Seq<char>>, rest: Seq<u8>)
    requires
        forall|i: int|
            0 <= i < labels.len() ==> 0 < vstd::utf8::encode_utf8(#[trigger] labels[i]).len() < 256,
        rest.len() > 0,
        rest[0] == 0,
    ensures
        read_labels(labels_bytes(labels) + rest) == labels.map_values(
            |l: Seq<char>| vstd::utf8::encode_utf8(l),
        ),
    decreases labels.len(),
{
    let all = labels_bytes(labels) + rest;
    let expected = labels.map_values(|l: Seq<char>| vstd::utf8::encode_utf8(l));
    if labels.len() == 0 {
        assert(all =~= rest);
        assert(read_labels(all) =~= expected);
    } else {
        labels_front(labels);
        let head = vstd::utf8::encode_utf8(labels[0]);
        let tail = labels_bytes(labels.drop_first()) + rest;
        assert(all =~= seq![head.len() as u8] + head + tail);
        assert(all[0] == head.len());
        assert(all.subrange(1, 1 + head.len() as int) =~= head);
        assert(all.skip(1 + head.len() as int) =~= tail);
        labels_read_back(labels.drop_first(), rest);
        assert(expected =~= seq![head] + labels.drop_first().map_values(
            |l: Seq<char>| vstd::utf8::encode_utf8(l),
        ));
    }
}

/// A query for a name whose labels have 1 to 255 bytes asks for just those labels.
pub proof fn query_asks_for_the_name(id: u16, name: Seq<char>)
    requires
        forall|i: int|
            0 <= i < text::split_text(name, '.').len() ==> 0 < vstd::utf8::encode_utf8(
                #[trigger] text::split_text(name, '.')[i],
            ).len() < 256,
    ensures
        read_labels(query_bytes(id, name).skip(12)) == text::split_text(name, '.').map_values(
            |l: Seq<char>| vstd::utf8::encode_utf8(l),
        ),
{
    let labels = text::split_text(name, '.');
    let end = seq![0u8, 0, 1, 0, 1];
    labels_read_back(labels, end);
    assert(query_bytes(id, name).skip(12) =~= labels_bytes(labels) + end);
}

// ---------------------------------------------------------------------------
// DNS over TCP
// ---------------------------------------------------------------------------

/// A message as DNS over TCP carries it, where it can.
pub open spec fn framed(message: Seq<u8>) -> Option<Seq<u8>> {
    if message.len() < 65536 {
        Some(be16(message.len() as u16) + message)
    } else {
        None
    }
}

/// A message as DNS over TCP carries it: its length, high byte first, then its bytes.
/// A message that is too long for the length is refused.
pub fn tcp_frame(message: &[u8]) -> (r: Option<Vec<u8>>)
    ensures
        (match r {
            Some(f) => Some(f@),
            None => None,
        }) == framed(message@),
        r is Some <==> message@.len() <= 65535,
        r matches Some(f) ==> f@ == be16(message@.len() as u16) + message@,
{
    let n: usize = message.len();
    if n > 65535 {
        return None;
    }
    let len: u16 = n as u16;
    let mut out: Vec<u8> = vec![(len / 256) as u8, (len % 256) as u8];
    assert(out@ =~= be16(len));
    out.extend_from_slice(message);
    Some(out)
}

/// How many bytes follow a length prefix.
pub fn tcp_length(prefix: [u8; 2]) -> (r: usize)
    ensures
        r == prefix@[0] * 256 + prefix@[1],
{
    prefix[0] as usize * 256 + prefix[1] as usize
}

/// The length prefix of a frame says how many bytes follow it.
pub proof fn frame_length_reads_back(n: u16)
    ensures
        be16(n)[0] * 256 + be16(n)[1] == n,
{
}

/// The resolver to ask next.
pub open spec fn upstream_after(asked: usize, count: usize, answered: bool) -> Option<usize> {
    if !answered && asked + 1 < count {
        Some((asked + 1) as usize)
    } else {
        None
    }
}

/// The resolver to ask after the one at `asked`, of `count`: none once one has answered
/// or all were asked.
pub fn next_upstream(asked: usize, count: usize, answered: bool) -> (r: Option<usize>)
    ensures
        r == upstream_after(asked, count, answered),
        r == (if answered || asked + 1 >= count {
            None::<usize>
        } else {
            Some((asked + 1) as usize)
        }),
{
    if answered || count == 0 || asked >= count - 1 {
        None
    } else {
        Some(asked + 1)
    }
}

// ---------------------------------------------------------------------------
// What a query and a reply say
// ---------------------------------------------------------------------------

/// The 16-bit number at `i`, high byte first.
pub open spec fn number_at(b: Seq<u8>, i: int) -> int {
    b[i] * 256 + b[i + 1]
}

/// A query says: its id; that it is a query, of the standard kind, that wants recursion;
/// one question and no records. The question ends in the root label, type A and class IN.
pub proof fn query_says_what_it_asks(id: u16, name: Seq<char>)
    ensures
        ({
            let q = query_bytes(id, name);
            let n = q.len() as int;
            &&& n >= 17
            &&& number_at(q, 0) == id
            &&& q[2] < 128
            &&& q[2] / 8 == 0
            &&& q[2] % 2 == 1
            &&& q[3] == 0
            &&& number_at(q, 4) == 1
            &&& number_at(q, 6) == 0
            &&& number_at(q, 8) == 0
            &&& number_at(q, 10) == 0
            &&& q[n - 5] == 0
            &&& number_at(q, n - 4) == 1
            &&& number_at(q, n - 2) == 1
        }),
{
    let q = query_bytes(id, name);
    let n = q.len() as int;
    assert(q[0] == id / 256 && q[1] == id % 256);
    assert(q[2] == 1 && q[3] == 0 && q[4] == 0 && q[5] == 1);
    assert(q[6] == 0 && q[7] == 0 && q[8] == 0 && q[9] == 0 && q[10] == 0 && q[11] == 0);
    assert(q[n - 5] == 0 && q[n - 4] == 0 && q[n - 3] == 1 && q[n - 2] == 0 && q[n - 1] == 1);
}

/// A reply answers a query just where its header is whole, has the id of the query, says
/// that it is a response without an error, and counts at least one answer.
pub proof fn good_replies_answer(id: u16, reply: Seq<u8>)
    ensures
        is_good_reply(id, reply) <==> reply.len() >= 12 && number_at(reply, 0) == id && reply[2]
            >= 128 && reply[3] % 16 == 0 && number_at(reply, 6) > 0,
{
    if reply.len() >= 12 {
        if number_at(reply, 0) == id {
            assert(reply.take(2) =~= be16(id));
        }
        if reply.take(2) == be16(id) {
            assert(reply.take(2)[0] == reply[0] && reply.take(2)[1] == reply[1]);
        }
    }
}

/// Resolvers are asked one after the other until one has answered or all were asked: from
/// each the next one in the list is asked, and none behind the last.
pub proof fn resolvers_are_asked_in_turn(asked: usize, count: usize)
    ensures
        upstream_after(asked, count, true) is None,
        upstream_after(asked, count, false) is Some <==> asked + 1 < count,
        upstream_after(asked, count, false) matches Some(next) ==> next == asked + 1 && next < count,
{
}

/// A message of up to 65535 bytes goes over TCP whole, behind its length, high byte first;
/// a longer one does not go.
pub proof fn framed_message_reads_back(message: Seq<u8>)
    ensures
        framed(message) is Some <==> message.len() <= 65535,
        framed(message) matches Some(f) ==> f.len() == message.len() + 2 && number_at(f, 0)
            == message.len() && f.skip(2) == message,
{
    if message.len() <= 65535 {
        let f = framed(message)->0;
        frame_length_reads_back(message.len() as u16);
        assert(f[0] == be16(message.len() as u16)[0] && f[1] == be16(message.len() as u16)[1]);
        assert(f.skip(2) =~= message);
    }
}

} // verus!
