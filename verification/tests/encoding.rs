use proxywifi::dataplane::encode::{base64, pct};
use proxywifi::dns::{build_query, next_upstream, probe_ok, reply_ok, tcp_frame, tcp_length, UPSTREAMS};

#[test]
fn base64_matches_rfc4648() {
    assert_eq!(base64(b"user:pass"), "dXNlcjpwYXNz");
    assert_eq!(base64(b"ab"), "YWI=");
    assert_eq!(base64(b"a"), "YQ==");
}

#[test]
fn percent_encoding_protects_url_delimiters() {
    assert_eq!(pct("a:b@c/d"), "a%3Ab%40c%2Fd");
}

#[test]
fn reply_check_rejects_errors() {
    let mut r = build_query(1, "a.b");
    r[2] |= 0x80;
    assert!(!reply_ok(1, &r), "no answers");
    r[7] = 1;
    assert!(reply_ok(1, &r));
    r[3] |= 3; // NXDOMAIN
    assert!(!reply_ok(1, &r));
}

#[test]
fn base64_covers_the_alphabet() {
    assert_eq!(base64(b""), "");
    assert_eq!(base64(&[0xff, 0xff, 0xff]), "////");
    assert_eq!(base64(&[0xfb, 0xef, 0xbe]), "++++");
    assert_eq!(base64(&[0, 0x10, 0x83]), "ABCD");
}

#[test]
fn percent_encoding_keeps_unreserved_bytes() {
    assert_eq!(pct("AZaz09-._~"), "AZaz09-._~");
    assert_eq!(pct("é%"), "%C3%A9%25");
    assert_eq!(pct(""), "");
}

#[test]
fn query_bytes_are_exact() {
    assert_eq!(
        build_query(0x5057, "example.com"),
        vec![
            0x50, 0x57, 1, 0, 0, 1, 0, 0, 0, 0, 0, 0, 7, b'e', b'x', b'a', b'm', b'p', b'l', b'e',
            3, b'c', b'o', b'm', 0, 0, 1, 0, 1
        ]
    );
    let long = "a".repeat(256);
    assert_eq!(build_query(1, &long)[12], 0);
}

#[test]
fn replies_are_matched_by_id() {
    let mut r = build_query(7, "example.com");
    assert!(!reply_ok(7, &r), "a query is no answer");
    r[2] |= 0x80;
    r[6] = 1;
    assert!(reply_ok(7, &r));
    assert!(!reply_ok(8, &r));
    assert!(!reply_ok(7, &r[..11]));
    assert!(!probe_ok(Some(r.as_slice())));
    assert!(!probe_ok(None));
    r[0] = 0x50;
    r[1] = 0x57;
    assert!(probe_ok(Some(r.as_slice())));
}

#[test]
fn tcp_messages_carry_their_length() {
    assert_eq!(tcp_frame(&[1, 2, 3]).unwrap(), vec![0, 3, 1, 2, 3]);
    assert_eq!(tcp_length([1, 2]), 258);
    let largest = vec![0u8; 65535];
    let frame = tcp_frame(&largest).unwrap();
    assert_eq!(tcp_length([frame[0], frame[1]]), 65535);
    assert!(tcp_frame(&vec![0u8; 65536]).is_none());
}

#[test]
fn resolvers_are_asked_in_order() {
    assert_eq!(UPSTREAMS, ["1.1.1.1:53", "9.9.9.9:53"]);
    assert_eq!(next_upstream(0, 2, false), Some(1));
    assert_eq!(next_upstream(1, 2, false), None);
    assert_eq!(next_upstream(0, 2, true), None);
}
