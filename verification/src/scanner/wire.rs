//! Wire formats of the UDP probe requests, built field by field: DNS
//! (RFC 1035), SNMPv1 in BER (RFC 1157) and NTP (RFC 5905).

use vstd::prelude::*;

verus! {

/// The ASCII bytes of `s`.
pub open spec fn ascii(s: Seq<char>) -> Seq<u8> {
    s.map_values(|c: char| c as u8)
}

/// `x` as `n` bytes, most significant first.
pub open spec fn big_endian(x: nat, n: nat) -> Seq<u8>
    decreases n,
{
    if n == 0 {
        Seq::<u8>::empty()
    } else {
        big_endian(x / 256, (n - 1) as nat).push((x % 256) as u8)
    }
}

/// A DNS header with the given id, flags and section counts.
pub open spec fn dns_header(id: nat, flags: nat, qdcount: nat, ancount: nat, nscount: nat, arcount: nat) -> Seq<u8> {
    big_endian(id, 2) + big_endian(flags, 2) + big_endian(qdcount, 2) + big_endian(ancount, 2)
        + big_endian(nscount, 2) + big_endian(arcount, 2)
}

/// The flags of a standard query asking for recursion: QR clear (a query, not
/// a response), opcode QUERY, RD set.
pub open spec fn dns_flags_recursive_query() -> nat {
    0x0100
}

/// A domain name as a sequence of length-prefixed labels ended by the root.
pub open spec fn dns_name(labels: Seq<Seq<char>>) -> Seq<u8>
    decreases labels.len(),
{
    if labels.len() == 0 {
        seq![0u8]
    } else {
        seq![labels[0].len() as u8] + ascii(labels[0]) + dns_name(labels.drop_first())
    }
}

/// The record type A (an IPv4 address).
pub open spec fn dns_type_a() -> nat {
    1
}

/// The class IN (the Internet).
pub open spec fn dns_class_in() -> nat {
    1
}

/// A DNS message with one question, for `name` of type `qtype` and class
/// `qclass`.
pub open spec fn dns_query(id: nat, flags: nat, name: Seq<Seq<char>>, qtype: nat, qclass: nat) -> Seq<u8> {
    dns_header(id, flags, 1, 0, 0, 0) + dns_name(name) + big_endian(qtype, 2) + big_endian(qclass, 2)
}

/// A BER element with a short-form length.
pub open spec fn ber(tag: u8, content: Seq<u8>) -> Seq<u8> {
    seq![tag, content.len() as u8] + content
}

/// A BER INTEGER that fits in one byte below 0x80.
pub open spec fn ber_small_int(v: u8) -> Seq<u8> {
    ber(0x02, seq![v])
}

/// A BER NULL.
pub open spec fn ber_null() -> Seq<u8> {
    ber(0x05, Seq::<u8>::empty())
}

/// The base-128 encoding of an OID arc: the high bit marks every byte but the
/// last.
pub open spec fn base128(n: nat) -> Seq<u8>
    decreases n,
{
    if n < 128 {
        seq![n as u8]
    } else {
        base128_high(n / 128).push((n % 128) as u8)
    }
}

/// The leading bytes of a base-128 encoding, each with its high bit set.
pub open spec fn base128_high(n: nat) -> Seq<u8>
    decreases n,
{
    if n == 0 {
        Seq::<u8>::empty()
    } else {
        base128_high(n / 128).push((n % 128 + 128) as u8)
    }
}

/// The encoding of the OID arcs after the first two.
pub open spec fn oid_tail(arcs: Seq<nat>) -> Seq<u8>
    decreases arcs.len(),
{
    if arcs.len() == 0 {
        Seq::<u8>::empty()
    } else {
        base128(arcs[0]) + oid_tail(arcs.drop_first())
    }
}

/// A BER OBJECT IDENTIFIER `first.second.rest...`.
pub open spec fn ber_oid(first: nat, second: nat, rest: Seq<nat>) -> Seq<u8> {
    ber(0x06, seq![(first * 40 + second) as u8] + oid_tail(rest))
}

/// The SNMP PDU tag of a GetRequest.
pub open spec fn snmp_get_request_tag() -> u8 {
    0xa0
}

/// The GetRequest PDU with request id `request_id` for the value bound to
/// one OID: error status and error index 0, one variable binding to NULL.
pub open spec fn snmp_get_request_pdu(request_id: u8, oid: Seq<u8>) -> Seq<u8> {
    let varbind = ber(0x30, oid + ber_null());
    ber(
        snmp_get_request_tag(),
        ber_small_int(request_id) + ber_small_int(0) + ber_small_int(0) + ber(0x30, varbind),
    )
}

/// An SNMPv1 message (version 0) with community `community` carrying `pdu`,
/// whose message length and community length fields are given as written.
pub open spec fn snmp_message(
    message_len: u8,
    community: Seq<char>,
    community_len: u8,
    pdu: Seq<u8>,
) -> Seq<u8> {
    seq![0x30u8, message_len] + ber_small_int(0) + seq![0x04u8, community_len] + ascii(community)
        + pdu
}

/// The first byte of an NTP packet: leap indicator, version, mode.
pub open spec fn ntp_first_byte(leap: nat, version: nat, mode: nat) -> u8 {
    (leap * 64 + version * 8 + mode) as u8
}

/// The NTP mode of a client request.
pub open spec fn ntp_mode_client() -> nat {
    3
}

/// An NTP packet with the given header fields and timestamps.
pub open spec fn ntp_packet(
    leap: nat,
    version: nat,
    mode: nat,
    stratum: nat,
    poll: nat,
    precision: nat,
    root_delay: nat,
    root_dispersion: nat,
    reference_id: nat,
    reference_ts: nat,
    origin_ts: nat,
    receive_ts: nat,
    transmit_ts: nat,
) -> Seq<u8> {
    seq![ntp_first_byte(leap, version, mode), stratum as u8, poll as u8, precision as u8]
        + big_endian(root_delay, 4) + big_endian(root_dispersion, 4) + big_endian(reference_id, 4)
        + big_endian(reference_ts, 8) + big_endian(origin_ts, 8) + big_endian(receive_ts, 8)
        + big_endian(transmit_ts, 8)
}

} // verus!
