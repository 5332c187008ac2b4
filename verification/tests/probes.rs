use archscan::models::PortState;
use archscan::scanner::tcp::{classify_tcp, ConnectOutcome};
use archscan::scanner::udp::{classify_udp, udp_payload, UdpOutcome};

#[test]
fn tcp_outcomes() {
    assert_eq!(classify_tcp(ConnectOutcome::Connected), PortState::Open);
    assert_eq!(classify_tcp(ConnectOutcome::Refused), PortState::Closed);
    assert_eq!(classify_tcp(ConnectOutcome::Reset), PortState::Closed);
    assert_eq!(classify_tcp(ConnectOutcome::Failed), PortState::Filtered);
    assert_eq!(classify_tcp(ConnectOutcome::TimedOut), PortState::Filtered);
}

#[test]
fn udp_outcomes() {
    assert_eq!(classify_udp(UdpOutcome::Replied), PortState::Open);
    assert_eq!(classify_udp(UdpOutcome::NoReply), PortState::OpenFiltered);
    assert_eq!(classify_udp(UdpOutcome::BindFailed), PortState::OpenFiltered);
    assert_eq!(classify_udp(UdpOutcome::SendFailed), PortState::OpenFiltered);
}

#[test]
fn udp_payloads() {
    assert_eq!(udp_payload(9999), b"archscan".to_vec());
    assert_eq!(udp_payload(54), b"archscan".to_vec());
    let dns = udp_payload(53);
    assert_eq!(dns.len(), 32);
    assert_eq!(&dns[12..28], b"\x03www\x06google\x03com\x00");
    let ntp = udp_payload(123);
    assert_eq!(ntp.len(), 48);
    assert_eq!(ntp[0], 0xe3);
    let snmp = udp_payload(161);
    assert_eq!(snmp.len(), 45);
    assert_eq!(&snmp[7..13], b"public");
}
