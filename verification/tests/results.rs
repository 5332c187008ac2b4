use archscan::models::{PortState, Protocol, ScanConfig, ScanResults};
use archscan::scanner::{plan_scan, target_address, MAX_CONCURRENT};

#[test]
fn push_sorts_by_state() {
    let mut r = ScanResults::default();
    r.push(80, PortState::Open);
    r.push(81, PortState::Closed);
    r.push(82, PortState::Filtered);
    r.push(83, PortState::OpenFiltered);
    r.push(79, PortState::Open);
    assert_eq!(r.open, vec![80, 79]);
    assert_eq!(r.closed, vec![81]);
    assert_eq!(r.filtered, vec![82]);
    assert_eq!(r.open_filtered, vec![83]);
    assert_eq!(r.scanned_so_far(), 5);
}

#[test]
fn push_counts_one() {
    let mut r = ScanResults::default();
    for (i, s) in [PortState::Open, PortState::Closed, PortState::Closed].iter().enumerate() {
        let before = r.scanned_so_far();
        r.push(i as u16, *s);
        assert_eq!(r.scanned_so_far(), before + 1);
    }
}

#[test]
fn clear_empties_and_keeps_running_flag() {
    let mut r = ScanResults::default();
    r.push(1, PortState::Open);
    r.is_running = true;
    r.error = Some("x".to_string());
    r.total_ports = 3;
    r.clear();
    assert_eq!(r.scanned_so_far(), 0);
    assert!(r.error.is_none());
    assert_eq!(r.total_ports, 0);
    assert!(r.is_running);
}

#[test]
fn begin_marks_running() {
    let mut r = ScanResults::default();
    r.push(1, PortState::Filtered);
    r.begin();
    assert!(r.is_running);
    assert_eq!(r.scanned_so_far(), 0);
}

#[test]
fn finish_sorts_every_list() {
    let mut r = ScanResults::default();
    for p in [443, 22, 80, 22] {
        r.push(p, PortState::Open);
    }
    for p in [9, 3] {
        r.push(p, PortState::Closed);
    }
    r.push(5, PortState::Filtered);
    r.is_running = true;
    r.finish();
    assert_eq!(r.open, vec![22, 22, 80, 443]);
    assert_eq!(r.closed, vec![3, 9]);
    assert_eq!(r.filtered, vec![5]);
    assert!(r.open_filtered.is_empty());
    assert!(!r.is_running);
    let once = r.clone();
    r.finish();
    assert_eq!(r.open, once.open);
    assert_eq!(r.closed, once.closed);
}

fn config(ports: &str) -> ScanConfig {
    ScanConfig {
        ip: "127.0.0.1".to_string(),
        ports: ports.to_string(),
        protocol: Protocol::Tcp,
        timeout_secs: 2,
    }
}

#[test]
fn plan_scan_records_total() {
    let mut r = ScanResults::default();
    r.begin();
    let ports = plan_scan(&config("20-25"), &mut r).unwrap();
    assert_eq!(ports, vec![20, 21, 22, 23, 24, 25]);
    assert_eq!(r.total_ports, 6);
    assert!(r.is_running);
    assert!(r.error.is_none());
}

#[test]
fn plan_scan_reports_error() {
    let mut r = ScanResults::default();
    r.begin();
    assert!(plan_scan(&config("abc"), &mut r).is_none());
    assert_eq!(r.error.as_deref(), Some("Porta inválida: 'abc'"));
    assert!(!r.is_running);
    assert_eq!(r.total_ports, 0);
}

#[test]
fn full_run_completes() {
    let mut r = ScanResults::default();
    r.begin();
    let ports = plan_scan(&config("1,2,3"), &mut r).unwrap();
    for p in ports {
        r.push(p, PortState::Closed);
    }
    r.finish();
    assert_eq!(r.scanned_so_far(), r.total_ports);
}

#[test]
fn target_address_joins_host_and_port() {
    assert_eq!(target_address("127.0.0.1", 8080), "127.0.0.1:8080");
    assert_eq!(target_address("example.org", 0), "example.org:0");
}

#[test]
fn protocol_names() {
    assert_eq!(Protocol::Tcp.to_string(), "TCP");
    assert_eq!(Protocol::Udp.to_string(), "UDP");
    assert_eq!(Protocol::default(), Protocol::Tcp);
}

#[test]
fn concurrency_limit() {
    assert_eq!(MAX_CONCURRENT, 500);
}
