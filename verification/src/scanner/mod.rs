//! Port specification parsing, probe classification and the decisions of a
//! scan run: what to probe before it starts and what to record after it ends.

pub mod ports;
pub mod tcp;
pub mod udp;
pub mod wire;

use vstd::prelude::*;

use crate::models::{law_pushes_count, PortState, ScanConfig, ScanResults};
use crate::scanner::ports::{parse_ports, spec_parse_ports};
use crate::text::{decimal, decimal_string};

verus! {

/// The largest number of probes that run at the same time.
pub const MAX_CONCURRENT: usize = 500;

/// The address `ip:port` that a probe of `port` on the host `ip` targets.
pub fn target_address(ip: &str, port: u16) -> (r: String)
    ensures
        r@ == ip@ + ":"@ + decimal(port as nat),
{
    let mut r = String::from_str(ip);
    r.append(":");
    r.append(decimal_string(port).as_str());
    r
}

/// Starts a scan run of `config`: the ports to probe, or `None` where the port
/// specification does not parse.
///
/// On success the number of ports is recorded as the total to scan; on
/// failure the error message is recorded and the scan no longer runs.
pub fn plan_scan(config: &ScanConfig, results: &mut ScanResults) -> (r: Option<Vec<u16>>)
    ensures
        match spec_parse_ports(config.ports@) {
            Ok(ports) => {
                &&& r matches Some(v) && v@ == ports
                &&& final(results).total_ports == ports.len()
                &&& final(results).is_running == old(results).is_running
                &&& final(results).error == old(results).error
            },
            Err(msg) => {
                &&& r is None
                &&& final(results).error matches Some(e) && e@ == msg
                &&& !final(results).is_running
                &&& final(results).total_ports == old(results).total_ports
            },
        },
        forall|s: PortState| #[trigger] final(results).ports_in(s) == old(results).ports_in(s),
{
    match parse_ports(config.ports.as_str()) {
        Ok(ports) => {
            results.total_ports = ports.len();
            Some(ports)
        },
        Err(msg) => {
            results.error = Some(msg);
            results.is_running = false;
            None
        },
    }
}


/// A scan that starts from empty results with `total` planned ports and
/// records ports one after the other has recorded exactly as many as it was
/// given, never more than planned while it runs through the plan, and all of
/// them once every planned port is recorded: its progress goes from 0 to 1.
pub proof fn law_run_progress(
    steps: Seq<ScanResults>,
    ports: Seq<u16>,
    states: Seq<PortState>,
    total: nat,
)
    requires
        steps.len() == ports.len() + 1,
        states.len() == ports.len(),
        ports.len() <= total,
        steps[0].spec_scanned_so_far() == 0,
        steps[0].total_ports == total,
        forall|i: int|
            0 <= i < ports.len() ==> #[trigger] steps[i + 1].is_push_of(
                steps[i],
                ports[i],
                states[i],
            ),
    ensures
        steps.last().spec_scanned_so_far() == ports.len(),
        steps.last().spec_scanned_so_far() <= steps.last().total_ports,
        ports.len() == total ==> steps.last().spec_scanned_so_far() == steps.last().total_ports,
{
    law_pushes_count(steps, ports, states);
}

} // verus!
