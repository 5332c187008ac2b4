//! The UDP probe: the payload sent to a port and the classification of what
//! came back.
//!
//! Known services (DNS, NTP, SNMP) get a request of their own; every other
//! port gets the generic payload `"archscan"`. A reply makes the port `Open`;
//! no reply leaves it `OpenFiltered`, since telling a closed port apart needs
//! the ICMP "port unreachable" answer, which only a raw socket sees.

use vstd::prelude::*;

use crate::models::PortState;
use crate::scanner::wire::{
    ascii, base128, base128_high, ber, ber_null, ber_oid, ber_small_int, big_endian, dns_class_in,
    dns_flags_recursive_query, dns_name, dns_query, dns_type_a, ntp_first_byte, ntp_mode_client,
    ntp_packet, oid_tail, snmp_get_request_pdu, snmp_get_request_tag, snmp_message,
};

verus! {

/// The generic payload: `"archscan"` in ASCII.
pub open spec fn generic_payload() -> Seq<u8> {
    seq![0x61u8, 0x72, 0x63, 0x68, 0x73, 0x63, 0x61, 0x6e]
}

/// A DNS query for `www.google.com`, type A.
pub open spec fn dns_payload() -> Seq<u8> {
    seq![
        0x24u8, 0x1a, 0x01, 0x00, 0x00, 0x01, 0x00, 0x00,
        0x00, 0x00, 0x00, 0x00, 0x03, 0x77, 0x77, 0x77,
        0x06, 0x67, 0x6f, 0x6f, 0x67, 0x6c, 0x65, 0x03,
        0x63, 0x6f, 0x6d, 0x00, 0x00, 0x01, 0x00, 0x01,
    ]
}

/// An SNMP GetRequest with community `public`.
pub open spec fn snmp_payload() -> Seq<u8> {
    seq![
        0x30u8, 0x2c, 0x02, 0x01, 0x00, 0x04, 0x07, 0x70,
        0x75, 0x62, 0x6c, 0x69, 0x63, 0xa0, 0x1e, 0x02,
        0x01, 0x01, 0x02, 0x01, 0x00, 0x02, 0x01, 0x00,
        0x30, 0x13, 0x30, 0x11, 0x06, 0x0d, 0x2b, 0x06,
        0x01, 0x04, 0x01, 0x94, 0x78, 0x01, 0x02, 0x07,
        0x03, 0x02, 0x00, 0x05, 0x00,
    ]
}

/// An NTP mode 3 (client) request.
pub open spec fn ntp_payload() -> Seq<u8> {
    seq![
        0xe3u8, 0x00, 0x04, 0xfa, 0x00, 0x01, 0x00, 0x00,
        0x00, 0x01, 0x00, 0x00, 0x00, 0x00, 0x00, 0x00,
        0x00, 0x00, 0x00, 0x00, 0x00, 0x00, 0x00, 0x00,
        0x00, 0x00, 0x00, 0x00, 0x00, 0x00, 0x00, 0x00,
        0x00, 0x00, 0x00, 0x00, 0x00, 0x00, 0x00, 0x00,
        0xc5, 0x4f, 0x23, 0x4b, 0x71, 0xb1, 0x52, 0xf3,
    ]
}

/// The payload sent to `port`.
pub open spec fn spec_udp_payload(port: u16) -> Seq<u8> {
    if port == 53 {
        dns_payload()
    } else if port == 123 {
        ntp_payload()
    } else if port == 161 {
        snmp_payload()
    } else {
        generic_payload()
    }
}

/// The payload sent to `port`: a service request for DNS (53), NTP (123) and
/// SNMP (161), the generic payload for any other port.
pub fn udp_payload(port: u16) -> (r: Vec<u8>)
    ensures
        r@ == spec_udp_payload(port),
{
    match port {
        53 => {
            let v: Vec<u8> = vec![
                0x24, 0x1a, 0x01, 0x00, 0x00, 0x01, 0x00, 0x00,
                0x00, 0x00, 0x00, 0x00, 0x03, 0x77, 0x77, 0x77,
                0x06, 0x67, 0x6f, 0x6f, 0x67, 0x6c, 0x65, 0x03,
                0x63, 0x6f, 0x6d, 0x00, 0x00, 0x01, 0x00, 0x01,
            ];
            assert(v@ =~= dns_payload());
            v
        },
        123 => {
            let v: Vec<u8> = vec![
                0xe3, 0x00, 0x04, 0xfa, 0x00, 0x01, 0x00, 0x00,
                0x00, 0x01, 0x00, 0x00, 0x00, 0x00, 0x00, 0x00,
                0x00, 0x00, 0x00, 0x00, 0x00, 0x00, 0x00, 0x00,
                0x00, 0x00, 0x00, 0x00, 0x00, 0x00, 0x00, 0x00,
                0x00, 0x00, 0x00, 0x00, 0x00, 0x00, 0x00, 0x00,
                0xc5, 0x4f, 0x23, 0x4b, 0x71, 0xb1, 0x52, 0xf3,
            ];
            assert(v@ =~= ntp_payload());
            v
        },
        161 => {
            let v: Vec<u8> = vec![
                0x30, 0x2c, 0x02, 0x01, 0x00, 0x04, 0x07, 0x70,
                0x75, 0x62, 0x6c, 0x69, 0x63, 0xa0, 0x1e, 0x02,
                0x01, 0x01, 0x02, 0x01, 0x00, 0x02, 0x01, 0x00,
                0x30, 0x13, 0x30, 0x11, 0x06, 0x0d, 0x2b, 0x06,
                0x01, 0x04, 0x01, 0x94, 0x78, 0x01, 0x02, 0x07,
                0x03, 0x02, 0x00, 0x05, 0x00,
            ];
            assert(v@ =~= snmp_payload());
            v
        },
        _ => {
            let v: Vec<u8> = vec![0x61, 0x72, 0x63, 0x68, 0x73, 0x63, 0x61, 0x6e];
            assert(v@ =~= generic_payload());
            v
        },
    }
}

/// How a UDP probe ended.
#[derive(Debug, Clone, Copy, PartialEq, Eq, Structural)]
pub enum UdpOutcome {
    /// No local socket could be bound.
    BindFailed,
    /// The payload could not be sent.
    SendFailed,
    /// A reply came before the timeout.
    Replied,
    /// No reply came before the timeout, or receiving failed.
    NoReply,
}

/// The state of a port whose UDP probe ended with `outcome`.
pub open spec fn spec_classify_udp(outcome: UdpOutcome) -> PortState {
    match outcome {
        UdpOutcome::Replied => PortState::Open,
        _ => PortState::OpenFiltered,
    }
}

/// The state of a port whose UDP probe ended with `outcome`: `Open` on a
/// reply, `OpenFiltered` otherwise.
pub fn classify_udp(outcome: UdpOutcome) -> (r: PortState)
    ensures
        r == spec_classify_udp(outcome),
        r == PortState::Open || r == PortState::OpenFiltered,
{
    match outcome {
        UdpOutcome::Replied => PortState::Open,
        UdpOutcome::BindFailed => PortState::OpenFiltered,
        UdpOutcome::SendFailed => PortState::OpenFiltered,
        UdpOutcome::NoReply => PortState::OpenFiltered,
    }
}


/// The payload for port 53 is a standard DNS query (QR clear, recursion
/// desired) with one question: `www.google.com`, type A, class IN.
pub proof fn law_dns_payload_is_query()
    ensures
        spec_udp_payload(53) == dns_query(
            0x241a,
            dns_flags_recursive_query(),
            seq!["www"@, "google"@, "com"@],
            dns_type_a(),
            dns_class_in(),
        ),
        spec_udp_payload(53)[2] & 0x80 == 0,
{
    reveal_strlit("www");
    reveal_strlit("google");
    reveal_strlit("com");
    reveal_with_fuel(big_endian, 3);
    reveal_with_fuel(dns_name, 4);
    let labels = seq!["www"@, "google"@, "com"@];
    assert(labels.drop_first() =~= seq!["google"@, "com"@]);
    assert(labels.drop_first().drop_first() =~= seq!["com"@]);
    assert(labels.drop_first().drop_first().drop_first() =~= Seq::<Seq<char>>::empty());
    assert(ascii("www"@) =~= seq![0x77u8, 0x77, 0x77]);
    assert(ascii("google"@) =~= seq![0x67u8, 0x6f, 0x6f, 0x67, 0x6c, 0x65]);
    assert(ascii("com"@) =~= seq![0x63u8, 0x6f, 0x6d]);
    assert(spec_udp_payload(53) =~= dns_query(
        0x241a,
        dns_flags_recursive_query(),
        labels,
        dns_type_a(),
        dns_class_in(),
    ));
    assert(0x01u8 & 0x80 == 0) by (bit_vector);
}


/// The OID `1.3.6.1.4.1.2680.1.2.7.3.2.0` that the SNMP probe asks for.
pub open spec fn snmp_probe_oid() -> Seq<u8> {
    ber_oid(1, 3, seq![6nat, 1, 4, 1, 2680, 1, 2, 7, 3, 2, 0])
}

/// The payload for port 161 is an SNMPv1 message for community `public`
/// carrying a GetRequest PDU (tag 0xa0) with request id 1 for the OID
/// `snmp_probe_oid()`. Its length fields are those of the request as it was
/// written: a community length of 7 and a message length of 0x2c, one more
/// than the bytes that follow each of them.
pub proof fn law_snmp_payload_is_get_request()
    ensures
        spec_udp_payload(161) == snmp_message(0x2c, "public"@, 7, snmp_get_request_pdu(1, snmp_probe_oid())),
        spec_udp_payload(161)[13] == snmp_get_request_tag(),
        ascii("public"@) == spec_udp_payload(161).subrange(7, 13),
        snmp_get_request_pdu(1, snmp_probe_oid()).len() == 0x20,
{
    reveal_strlit("public");
    reveal_with_fuel(base128_high, 3);
    reveal_with_fuel(oid_tail, 12);
    let arcs = seq![6nat, 1, 4, 1, 2680, 1, 2, 7, 3, 2, 0];
    assert(base128(2680) =~= seq![0x94u8, 0x78]);
    assert(oid_tail(arcs) =~= seq![0x06u8, 0x01, 0x04, 0x01, 0x94, 0x78, 0x01, 0x02, 0x07, 0x03, 0x02, 0x00]) by {
        assert(arcs.drop_first() =~= seq![1nat, 4, 1, 2680, 1, 2, 7, 3, 2, 0]);
        assert(arcs.drop_first().drop_first() =~= seq![4nat, 1, 2680, 1, 2, 7, 3, 2, 0]);
        assert(arcs.skip(3) =~= seq![1nat, 2680, 1, 2, 7, 3, 2, 0]);
        assert(arcs.drop_first().drop_first().drop_first() =~= arcs.skip(3));
        assert(arcs.skip(3).drop_first() =~= seq![2680nat, 1, 2, 7, 3, 2, 0]);
        assert(arcs.skip(5) =~= seq![1nat, 2, 7, 3, 2, 0]);
        assert(arcs.skip(3).drop_first().drop_first() =~= arcs.skip(5));
        assert(arcs.skip(5).drop_first() =~= seq![2nat, 7, 3, 2, 0]);
        assert(arcs.skip(5).drop_first().drop_first() =~= seq![7nat, 3, 2, 0]);
        assert(arcs.skip(8) =~= seq![3nat, 2, 0]);
        assert(arcs.skip(5).drop_first().drop_first().drop_first() =~= arcs.skip(8));
        assert(arcs.skip(8).drop_first() =~= seq![2nat, 0]);
        assert(arcs.skip(8).drop_first().drop_first() =~= seq![0nat]);
        assert(seq![0nat].drop_first() =~= Seq::<nat>::empty());
    }
    assert(ascii("public"@) =~= seq![0x70u8, 0x75, 0x62, 0x6c, 0x69, 0x63]);
    let oid = snmp_probe_oid();
    assert(oid =~= seq![
        0x06u8, 0x0d, 0x2b, 0x06, 0x01, 0x04, 0x01, 0x94, 0x78, 0x01, 0x02, 0x07, 0x03, 0x02, 0x00,
    ]);
    let varbind = ber(0x30, oid + ber_null());
    assert(varbind =~= seq![0x30u8, 0x11] + oid + seq![0x05u8, 0x00]);
    let list = ber(0x30, varbind);
    assert(list =~= seq![0x30u8, 0x13] + varbind);
    let body = ber_small_int(1) + ber_small_int(0) + ber_small_int(0) + list;
    assert(body =~= seq![0x02u8, 0x01, 0x01, 0x02, 0x01, 0x00, 0x02, 0x01, 0x00] + list);
    assert(body.len() == 0x1e);
    let pdu = snmp_get_request_pdu(1, oid);
    assert(pdu =~= seq![0xa0u8, 0x1e] + body);
    assert(spec_udp_payload(161) =~= snmp_message(0x2c, "public"@, 7, pdu));
}

/// The payload for port 123 is an NTP version 4 client request: no leap
/// warning known (3), stratum 0, poll 4, precision 2^-6, root delay and
/// dispersion of one second, and a transmit timestamp.
pub proof fn law_ntp_payload_is_client_request()
    ensures
        spec_udp_payload(123) == ntp_packet(
            3,
            4,
            ntp_mode_client(),
            0,
            4,
            0xfa,
            0x10000,
            0x10000,
            0,
            0,
            0,
            0,
            0xc54f234b71b152f3,
        ),
        spec_udp_payload(123)[0] % 8 == ntp_mode_client(),
{
    reveal_with_fuel(big_endian, 9);
    assert(ntp_first_byte(3, 4, ntp_mode_client()) == 0xe3);
    assert(big_endian(0xc54f234b71b152f3, 8) =~= seq![0xc5u8, 0x4f, 0x23, 0x4b, 0x71, 0xb1, 0x52, 0xf3]);
    assert(big_endian(0x10000, 4) =~= seq![0x00u8, 0x01, 0x00, 0x00]);
    assert(big_endian(0, 4) =~= seq![0u8, 0, 0, 0]);
    assert(big_endian(0, 8) =~= seq![0u8, 0, 0, 0, 0, 0, 0, 0]);
    assert(spec_udp_payload(123) =~= ntp_packet(
        3,
        4,
        ntp_mode_client(),
        0,
        4,
        0xfa,
        0x10000,
        0x10000,
        0,
        0,
        0,
        0,
        0xc54f234b71b152f3,
    ));
}

/// Every port other than 53, 123 and 161 gets the ASCII text `archscan`.
pub proof fn law_generic_payload(port: u16)
    requires
        port != 53 && port != 123 && port != 161,
    ensures
        spec_udp_payload(port) == ascii("archscan"@),
{
    reveal_strlit("archscan");
    assert(ascii("archscan"@) =~= generic_payload());
}

} // verus!
