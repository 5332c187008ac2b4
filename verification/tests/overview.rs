use archscan::models::PortState;
use archscan::overview::{active_ports, get_service_name, ActiveTab};

#[test]
fn service_names() {
    assert_eq!(get_service_name(22), "SSH (Acesso Seguro Remoto)");
    assert_eq!(get_service_name(68), "DHCP (Configuração de Rede)");
    assert_eq!(get_service_name(138), "NetBIOS (Rede Windows)");
    assert_eq!(get_service_name(27017), "MongoDB");
    assert_eq!(get_service_name(1), "Serviço Desconhecido");
}

#[test]
fn active_ports_ordered_by_port() {
    let r = active_ports(&vec![443, 22], &vec![80, 22], &vec![53]);
    assert_eq!(
        r,
        vec![
            (22, PortState::Open),
            (22, PortState::Filtered),
            (53, PortState::OpenFiltered),
            (80, PortState::Filtered),
            (443, PortState::Open),
        ]
    );
}

#[test]
fn active_ports_empty() {
    assert!(active_ports(&vec![], &vec![], &vec![]).is_empty());
}

#[test]
fn default_tab() {
    assert_eq!(ActiveTab::default(), ActiveTab::Overview);
}
