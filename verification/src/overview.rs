//! What the user interface shows of the results: the selected tab, the active
//! ports and the service commonly found on a port.

use vstd::prelude::*;

use crate::models::PortState;
use crate::sorting::{by_port, entry_le, lemma_entry_order_total, sort_by_port};

verus! {

/// The tab shown in the main panel.
#[derive(Debug, Clone, Copy, PartialEq, Eq, Structural)]
pub enum ActiveTab {
    /// Table of the active ports and their estimated services.
    Overview,
    /// The ports listed by state.
    Detailed,
    /// Information and help.
    Help,
}

impl Default for ActiveTab {
    fn default() -> (r: Self)
        ensures
            r == ActiveTab::Overview,
    {
        ActiveTab::Overview
    }
}

/// The service commonly found on `port`.
pub open spec fn spec_service_name(port: u16) -> Seq<char> {
    match port {
        21 => "FTP (Transferência de Arquivos)"@,
        22 => "SSH (Acesso Seguro Remoto)"@,
        23 => "Telnet (Console Remoto)"@,
        25 => "SMTP (Envio de E-mail)"@,
        53 => "DNS (Resolução de Nomes)"@,
        67 | 68 => "DHCP (Configuração de Rede)"@,
        80 => "HTTP (Web Não Criptografado)"@,
        110 => "POP3 (Recebimento de E-mail)"@,
        123 => "NTP (Sincronismo de Tempo)"@,
        137 | 138 | 139 => "NetBIOS (Rede Windows)"@,
        143 => "IMAP (Sincronismo de E-mail)"@,
        161 | 162 => "SNMP (Gerenciamento de Rede)"@,
        389 => "LDAP (Diretório)"@,
        443 => "HTTPS (Web Seguro/SSL)"@,
        445 => "SMB (Compartilhamento Microsoft)"@,
        500 => "ISAKMP (Negociação VPN)"@,
        587 => "SMTP Submission (E-mail)"@,
        636 => "LDAPS (Diretório Seguro)"@,
        993 => "IMAPS (E-mail Criptografado)"@,
        995 => "POP3S (E-mail Criptografado)"@,
        1433 => "MSSQL Server"@,
        1521 => "Oracle Database"@,
        3306 => "MySQL (Banco de Dados)"@,
        3389 => "RDP (Área de Trabalho Remota)"@,
        5432 => "PostgreSQL (Banco de Dados)"@,
        8080 => "HTTP Alt / Proxy"@,
        8443 => "HTTPS Alt"@,
        9200 => "Elasticsearch"@,
        27017 => "MongoDB"@,
        _ => "Serviço Desconhecido"@,
    }
}

/// The service commonly found on `port`, or `"Serviço Desconhecido"`.
pub fn get_service_name(port: u16) -> (r: &'static str)
    ensures
        r@ == spec_service_name(port),
{
    match port {
        21 => "FTP (Transferência de Arquivos)",
        22 => "SSH (Acesso Seguro Remoto)",
        23 => "Telnet (Console Remoto)",
        25 => "SMTP (Envio de E-mail)",
        53 => "DNS (Resolução de Nomes)",
        67 | 68 => "DHCP (Configuração de Rede)",
        80 => "HTTP (Web Não Criptografado)",
        110 => "POP3 (Recebimento de E-mail)",
        123 => "NTP (Sincronismo de Tempo)",
        137 | 138 | 139 => "NetBIOS (Rede Windows)",
        143 => "IMAP (Sincronismo de E-mail)",
        161 | 162 => "SNMP (Gerenciamento de Rede)",
        389 => "LDAP (Diretório)",
        443 => "HTTPS (Web Seguro/SSL)",
        445 => "SMB (Compartilhamento Microsoft)",
        500 => "ISAKMP (Negociação VPN)",
        587 => "SMTP Submission (E-mail)",
        636 => "LDAPS (Diretório Seguro)",
        993 => "IMAPS (E-mail Criptografado)",
        995 => "POP3S (E-mail Criptografado)",
        1433 => "MSSQL Server",
        1521 => "Oracle Database",
        3306 => "MySQL (Banco de Dados)",
        3389 => "RDP (Área de Trabalho Remota)",
        5432 => "PostgreSQL (Banco de Dados)",
        8080 => "HTTP Alt / Proxy",
        8443 => "HTTPS Alt",
        9200 => "Elasticsearch",
        27017 => "MongoDB",
        _ => "Serviço Desconhecido",
    }
}

/// The ports of `ports`, each paired with `state`.
pub open spec fn tagged(ports: Seq<u16>, state: PortState) -> Seq<(u16, PortState)> {
    ports.map_values(|p: u16| (p, state))
}

/// The active entries, in the order the three lists give them: open, then
/// filtered, then open or filtered.
pub open spec fn active_entries(open: Seq<u16>, filtered: Seq<u16>, open_filtered: Seq<u16>) -> Seq<
    (u16, PortState),
> {
    tagged(open, PortState::Open) + tagged(filtered, PortState::Filtered) + tagged(
        open_filtered,
        PortState::OpenFiltered,
    )
}

/// Appends the ports of `ports`, each paired with `state`, to `out`.
fn push_tagged(out: &mut Vec<(u16, PortState)>, ports: &Vec<u16>, state: PortState)
    ensures
        final(out)@ == old(out)@ + tagged(ports@, state),
{
    let ghost start = out@;
    for i in 0..ports.len()
        invariant
            out@ == start + tagged(ports@.take(i as int), state),
    {
        out.push((ports[i], state));
        assert(tagged(ports@.take(i + 1), state) =~= tagged(ports@.take(i as int), state).push(
            (ports@[i as int], state),
        ));
    }
    assert(ports@.take(ports@.len() as int) =~= ports@);
}

/// The ports that are not closed, each with its state, ordered by port; for
/// one port, an open entry comes before a filtered one, which comes before an
/// open-or-filtered one.
pub fn active_ports(open: &Vec<u16>, filtered: &Vec<u16>, open_filtered: &Vec<u16>) -> (r: Vec<
    (u16, PortState),
>)
    ensures
        r@ == by_port(active_entries(open@, filtered@, open_filtered@)),
{
    let mut all: Vec<(u16, PortState)> = Vec::new();
    push_tagged(&mut all, open, PortState::Open);
    push_tagged(&mut all, filtered, PortState::Filtered);
    push_tagged(&mut all, open_filtered, PortState::OpenFiltered);
    assert(all@ =~= active_entries(open@, filtered@, open_filtered@));
    sort_by_port(&all)
}


/// The active ports are ordered by port, none is closed, and each recorded
/// open, filtered or open-or-filtered port appears once with its state.
pub proof fn law_active_ports(open: Seq<u16>, filtered: Seq<u16>, open_filtered: Seq<u16>)
    ensures
        ({
            let r = by_port(active_entries(open, filtered, open_filtered));
            &&& forall|i: int, j: int| 0 <= i < j < r.len() ==> r[i].0 <= r[j].0
            &&& forall|i: int| 0 <= i < r.len() ==> r[i].1 != PortState::Closed
            &&& r.to_multiset() == active_entries(open, filtered, open_filtered).to_multiset()
            &&& r.len() == open.len() + filtered.len() + open_filtered.len()
        }),
{
    let all = active_entries(open, filtered, open_filtered);
    let leq = |a: (u16, PortState), b: (u16, PortState)| entry_le(a, b);
    lemma_entry_order_total();
    all.lemma_sort_by_ensures(leq);
    let r = by_port(all);
    assert forall|i: int, j: int| 0 <= i < j < r.len() implies r[i].0 <= r[j].0 by {
        assert(leq(all.sort_by(leq)[i], all.sort_by(leq)[j]));
    }
    vstd::seq_lib::to_multiset_len(r);
    vstd::seq_lib::to_multiset_len(all);
    assert forall|i: int| 0 <= i < r.len() implies r[i].1 != PortState::Closed by {
        assert(r.contains(r[i]));
        assert(all.contains(r[i]));
        let k = choose|k: int| 0 <= k < all.len() && all[k] == r[i];
        if k < open.len() {
            assert(all[k] == (open[k], PortState::Open));
        } else if k < open.len() + filtered.len() {
            assert(all[k] == (filtered[k - open.len()], PortState::Filtered));
        } else {
            assert(all[k] == (
                open_filtered[k - open.len() - filtered.len()],
                PortState::OpenFiltered,
            ));
        }
    }
}


/// The service table: each well-known port has its own service name, and
/// every other port is unknown.
pub proof fn law_service_table(port: u16)
    ensures
        spec_service_name(21) == "FTP (Transferência de Arquivos)"@,
        spec_service_name(22) == "SSH (Acesso Seguro Remoto)"@,
        spec_service_name(23) == "Telnet (Console Remoto)"@,
        spec_service_name(25) == "SMTP (Envio de E-mail)"@,
        spec_service_name(53) == "DNS (Resolução de Nomes)"@,
        spec_service_name(67) == "DHCP (Configuração de Rede)"@,
        spec_service_name(68) == "DHCP (Configuração de Rede)"@,
        spec_service_name(80) == "HTTP (Web Não Criptografado)"@,
        spec_service_name(110) == "POP3 (Recebimento de E-mail)"@,
        spec_service_name(123) == "NTP (Sincronismo de Tempo)"@,
        spec_service_name(137) == "NetBIOS (Rede Windows)"@,
        spec_service_name(138) == "NetBIOS (Rede Windows)"@,
        spec_service_name(139) == "NetBIOS (Rede Windows)"@,
        spec_service_name(143) == "IMAP (Sincronismo de E-mail)"@,
        spec_service_name(161) == "SNMP (Gerenciamento de Rede)"@,
        spec_service_name(162) == "SNMP (Gerenciamento de Rede)"@,
        spec_service_name(389) == "LDAP (Diretório)"@,
        spec_service_name(443) == "HTTPS (Web Seguro/SSL)"@,
        spec_service_name(445) == "SMB (Compartilhamento Microsoft)"@,
        spec_service_name(500) == "ISAKMP (Negociação VPN)"@,
        spec_service_name(587) == "SMTP Submission (E-mail)"@,
        spec_service_name(636) == "LDAPS (Diretório Seguro)"@,
        spec_service_name(993) == "IMAPS (E-mail Criptografado)"@,
        spec_service_name(995) == "POP3S (E-mail Criptografado)"@,
        spec_service_name(1433) == "MSSQL Server"@,
        spec_service_name(1521) == "Oracle Database"@,
        spec_service_name(3306) == "MySQL (Banco de Dados)"@,
        spec_service_name(3389) == "RDP (Área de Trabalho Remota)"@,
        spec_service_name(5432) == "PostgreSQL (Banco de Dados)"@,
        spec_service_name(8080) == "HTTP Alt / Proxy"@,
        spec_service_name(8443) == "HTTPS Alt"@,
        spec_service_name(9200) == "Elasticsearch"@,
        spec_service_name(27017) == "MongoDB"@,
        ({
            &&& port != 21
            &&& port != 22
            &&& port != 23
            &&& port != 25
            &&& port != 53
            &&& port != 67
            &&& port != 68
            &&& port != 80
            &&& port != 110
            &&& port != 123
            &&& port != 137
            &&& port != 138
            &&& port != 139
            &&& port != 143
            &&& port != 161
            &&& port != 162
            &&& port != 389
            &&& port != 443
            &&& port != 445
            &&& port != 500
            &&& port != 587
            &&& port != 636
            &&& port != 993
            &&& port != 995
            &&& port != 1433
            &&& port != 1521
            &&& port != 3306
            &&& port != 3389
            &&& port != 5432
            &&& port != 8080
            &&& port != 8443
            &&& port != 9200
            &&& port != 27017
        }) ==> spec_service_name(port) == "Serviço Desconhecido"@,
{
}

} // verus!
