use archscan::scanner::ports::{parse_ports, TOP_1000_PORTS};

#[test]
fn test_range() {
    let ports = parse_ports("0-100").unwrap();
    assert_eq!(ports.len(), 101);
    assert_eq!(ports[0], 0);
    assert_eq!(ports[100], 100);
}

#[test]
fn test_lista() {
    let ports = parse_ports("22,80,443").unwrap();
    assert_eq!(ports, vec![22, 80, 443]);
}

#[test]
fn test_porta_unica() {
    let ports = parse_ports("443").unwrap();
    assert_eq!(ports, vec![443]);
}

#[test]
fn test_porta_invalida() {
    assert!(parse_ports("abc").is_err());
}

#[test]
fn test_range_invertido() {
    assert!(parse_ports("1024-0").is_err());
}

#[test]
fn test_porta_com_espacos() {
    let ports = parse_ports("  80  ").unwrap();
    assert_eq!(ports, vec![80]);
}

#[test]
fn range_with_inner_spaces() {
    let ports = parse_ports("\t 20 - 22 \n").unwrap();
    assert_eq!(ports, vec![20, 21, 22]);
}

#[test]
fn range_reaching_the_last_port() {
    let ports = parse_ports("65530-65535").unwrap();
    assert_eq!(ports, vec![65530, 65531, 65532, 65533, 65534, 65535]);
}

#[test]
fn single_port_range() {
    assert_eq!(parse_ports("7-7").unwrap(), vec![7]);
}

#[test]
fn list_with_spaces_and_duplicates() {
    assert_eq!(parse_ports(" 443 , 22,22 ").unwrap(), vec![443, 22, 22]);
}

#[test]
fn plus_sign_and_leading_zeros() {
    assert_eq!(parse_ports("+0080").unwrap(), vec![80]);
}

#[test]
fn unicode_whitespace_is_trimmed() {
    assert_eq!(parse_ports("\u{3000}8080\u{a0}").unwrap(), vec![8080]);
}

#[test]
fn inverted_range_message() {
    assert_eq!(
        parse_ports("1024-0").unwrap_err(),
        "Porta inicial (1024) maior que a final (0)."
    );
}

#[test]
fn invalid_start_message() {
    assert_eq!(
        parse_ports(" x -10").unwrap_err(),
        "Porta inicial inválida: 'x'"
    );
}

#[test]
fn invalid_end_message() {
    assert_eq!(
        parse_ports("10-70000").unwrap_err(),
        "Porta final inválida: '70000'"
    );
}

#[test]
fn double_dash_is_refused() {
    assert_eq!(
        parse_ports("1--5").unwrap_err(),
        "Porta final inválida: '-5'"
    );
}

#[test]
fn invalid_list_item_message() {
    assert_eq!(
        parse_ports("22, http ,80").unwrap_err(),
        "Porta inválida na lista: 'http'"
    );
}

#[test]
fn empty_list_item_is_refused() {
    assert_eq!(
        parse_ports("22,,80").unwrap_err(),
        "Porta inválida na lista: ''"
    );
}

#[test]
fn invalid_single_port_message() {
    assert_eq!(parse_ports("abc").unwrap_err(), "Porta inválida: 'abc'");
    assert_eq!(parse_ports("   ").unwrap_err(), "Porta inválida: ''");
    assert_eq!(parse_ports("65536").unwrap_err(), "Porta inválida: '65536'");
    assert_eq!(parse_ports("+").unwrap_err(), "Porta inválida: '+'");
}

#[test]
fn accepted_results_are_never_empty() {
    for s in ["0", "0-0", "1,2", " 9 "] {
        assert!(!parse_ports(s).unwrap().is_empty());
    }
}

#[test]
fn whitespace_around_is_ignored() {
    for s in ["80", "1-3", "4,5", "abc", "3-1"] {
        let padded = format!(" \t{}\n ", s);
        assert_eq!(parse_ports(&padded), parse_ports(s));
    }
}

#[test]
fn top_ports_list() {
    assert_eq!(TOP_1000_PORTS.len(), 362);
    assert_eq!(TOP_1000_PORTS[0], 1);
    assert_eq!(TOP_1000_PORTS[TOP_1000_PORTS.len() - 1], 10080);
    assert!(TOP_1000_PORTS.windows(2).all(|w| w[0] < w[1]));
    assert!(TOP_1000_PORTS.contains(&443));
}
