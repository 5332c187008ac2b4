//! Types shared by the scanner and its user interface.

use vstd::prelude::*;

use crate::sorting::{
    ascending, is_ascending, lemma_ascending_sorted, lemma_ascending_unique, sort_ascending,
};

verus! {

/// The transport protocol of a scan.
#[derive(Debug, Clone, Copy, PartialEq, Eq, Structural)]
pub enum Protocol {
    Tcp,
    Udp,
}

impl Default for Protocol {
    fn default() -> (r: Self)
        ensures
            r == Protocol::Tcp,
    {
        Protocol::Tcp
    }
}

impl Protocol {
    /// The name of the protocol as shown to the user.
    pub open spec fn spec_name(self) -> Seq<char> {
        match self {
            Protocol::Tcp => "TCP"@,
            Protocol::Udp => "UDP"@,
        }
    }

    /// The name of the protocol as shown to the user: `"TCP"` or `"UDP"`.
    pub fn to_string(&self) -> (r: String)
        ensures
            r@ == self.spec_name(),
    {
        match self {
            Protocol::Tcp => String::from_str("TCP"),
            Protocol::Udp => String::from_str("UDP"),
        }
    }
}

/// The state of one port, as a probe found it.
#[derive(Debug, Clone, Copy, PartialEq, Eq, Structural)]
pub enum PortState {
    Open,
    Closed,
    Filtered,
    OpenFiltered,
}

/// What a scan is asked to do.
#[derive(Debug, Clone)]
pub struct ScanConfig {
    pub ip: String,
    /// A range (`"0-1024"`), a list (`"22,80,443"`) or a single port (`"80"`).
    pub ports: String,
    pub protocol: Protocol,
    pub timeout_secs: u64,
}

/// The results of a scan, filled in while it runs.
#[derive(Debug, Clone)]
pub struct ScanResults {
    pub open: Vec<u16>,
    pub closed: Vec<u16>,
    pub filtered: Vec<u16>,
    pub open_filtered: Vec<u16>,
    /// `true` while the scan runs.
    pub is_running: bool,
    /// The error that stopped the scan, if any.
    pub error: Option<String>,
    /// The number of ports to scan.
    pub total_ports: usize,
}

impl Default for ScanResults {
    fn default() -> (r: Self)
        ensures
            r.open@.len() == 0,
            r.closed@.len() == 0,
            r.filtered@.len() == 0,
            r.open_filtered@.len() == 0,
            !r.is_running,
            r.error is None,
            r.total_ports == 0,
    {
        ScanResults {
            open: Vec::new(),
            closed: Vec::new(),
            filtered: Vec::new(),
            open_filtered: Vec::new(),
            is_running: false,
            error: None,
            total_ports: 0,
        }
    }
}

impl ScanResults {
    /// The ports recorded in the list of `state`.
    pub open spec fn ports_in(self, state: PortState) -> Seq<u16> {
        match state {
            PortState::Open => self.open@,
            PortState::Closed => self.closed@,
            PortState::Filtered => self.filtered@,
            PortState::OpenFiltered => self.open_filtered@,
        }
    }

    /// The number of ports recorded so far, in all four lists.
    pub open spec fn spec_scanned_so_far(self) -> nat {
        self.open@.len() + self.closed@.len() + self.filtered@.len() + self.open_filtered@.len()
    }

    /// Whether `self` is `before` with `port` recorded in the list of `state`.
    pub open spec fn is_push_of(self, before: Self, port: u16, state: PortState) -> bool {
        &&& forall|s: PortState|
            #[trigger] self.ports_in(s) == if s == state {
                before.ports_in(s).push(port)
            } else {
                before.ports_in(s)
            }
        &&& self.is_running == before.is_running
        &&& self.error == before.error
        &&& self.total_ports == before.total_ports
    }

    /// Records `port` in the list of its `state`.
    pub fn push(&mut self, port: u16, state: PortState)
        ensures
            final(self).is_push_of(*old(self), port, state),
    {
        match state {
            PortState::Open => self.open.push(port),
            PortState::Closed => self.closed.push(port),
            PortState::Filtered => self.filtered.push(port),
            PortState::OpenFiltered => self.open_filtered.push(port),
        }
    }

    /// Empties the four lists and forgets the error and the total.
    pub fn clear(&mut self)
        ensures
            final(self).open@.len() == 0,
            final(self).closed@.len() == 0,
            final(self).filtered@.len() == 0,
            final(self).open_filtered@.len() == 0,
            final(self).error is None,
            final(self).total_ports == 0,
            final(self).is_running == old(self).is_running,
    {
        self.open.clear();
        self.closed.clear();
        self.filtered.clear();
        self.open_filtered.clear();
        self.error = None;
        self.total_ports = 0;
    }

    /// The number of ports recorded so far.
    pub fn scanned_so_far(&self) -> (r: usize)
        requires
            self.spec_scanned_so_far() <= usize::MAX,
        ensures
            r == self.spec_scanned_so_far(),
    {
        self.open.len() + self.closed.len() + self.filtered.len() + self.open_filtered.len()
    }

    /// Empties the results and marks a new scan as running.
    pub fn begin(&mut self)
        ensures
            final(self).open@.len() == 0,
            final(self).closed@.len() == 0,
            final(self).filtered@.len() == 0,
            final(self).open_filtered@.len() == 0,
            final(self).error is None,
            final(self).total_ports == 0,
            final(self).is_running,
    {
        self.clear();
        self.is_running = true;
    }

    /// Ends a scan: every list is put in ascending order and the scan no
    /// longer runs.
    pub fn finish(&mut self)
        ensures
            forall|s: PortState| #[trigger] final(self).ports_in(s) == ascending(
                old(self).ports_in(s),
            ),
            !final(self).is_running,
            final(self).error == old(self).error,
            final(self).total_ports == old(self).total_ports,
    {
        sort_ascending(&mut self.open);
        sort_ascending(&mut self.closed);
        sort_ascending(&mut self.filtered);
        sort_ascending(&mut self.open_filtered);
        self.is_running = false;
    }
}


/// Recording a port adds one to the number of recorded ports.
pub proof fn law_push_counts_one(before: ScanResults, after: ScanResults, port: u16, state: PortState)
    requires
        after.is_push_of(before, port, state),
    ensures
        after.spec_scanned_so_far() == before.spec_scanned_so_far() + 1,
{
    assert(after.ports_in(PortState::Open) == after.open@);
    assert(after.ports_in(PortState::Closed) == after.closed@);
    assert(after.ports_in(PortState::Filtered) == after.filtered@);
    assert(after.ports_in(PortState::OpenFiltered) == after.open_filtered@);
}

/// Recording `ports[i]` with `states[i]` for each `i`, one after the other,
/// from `steps[0]` to `steps[n]`: the recorded count grows by `n`.
pub proof fn law_pushes_count(steps: Seq<ScanResults>, ports: Seq<u16>, states: Seq<PortState>)
    requires
        steps.len() == ports.len() + 1,
        states.len() == ports.len(),
        forall|i: int|
            0 <= i < ports.len() ==> #[trigger] steps[i + 1].is_push_of(
                steps[i],
                ports[i],
                states[i],
            ),
    ensures
        steps.last().spec_scanned_so_far() == steps[0].spec_scanned_so_far() + ports.len(),
        steps.last().total_ports == steps[0].total_ports,
    decreases ports.len(),
{
    if ports.len() > 0 {
        let n = ports.len() - 1;
        law_pushes_count(steps.drop_last(), ports.drop_last(), states.drop_last());
        assert(steps[n + 1].is_push_of(steps[n], ports[n], states[n]));
        law_push_counts_one(steps[n], steps[n + 1], ports[n], states[n]);
    }
}

/// Ending a scan keeps every recorded port in its list: each list holds the
/// same ports as before, in ascending order, and the count is unchanged.
pub proof fn law_finish_keeps_ports(before: ScanResults, after: ScanResults)
    requires
        forall|s: PortState| #[trigger] after.ports_in(s) == ascending(before.ports_in(s)),
    ensures
        forall|s: PortState|
            #![trigger after.ports_in(s)]
            is_ascending(after.ports_in(s)) && after.ports_in(s).to_multiset()
                == before.ports_in(s).to_multiset(),
        after.spec_scanned_so_far() == before.spec_scanned_so_far(),
{
    assert forall|s: PortState|
        #![trigger after.ports_in(s)]
        is_ascending(after.ports_in(s)) && after.ports_in(s).to_multiset()
            == before.ports_in(s).to_multiset() by {
        lemma_ascending_sorted(before.ports_in(s));
    }
    assert forall|s: PortState| #[trigger] after.ports_in(s).len() == before.ports_in(s).len() by {
        lemma_ascending_sorted(before.ports_in(s));
        vstd::seq_lib::to_multiset_len(after.ports_in(s));
        vstd::seq_lib::to_multiset_len(before.ports_in(s));
    }
    assert(after.ports_in(PortState::Open) == after.open@);
    assert(after.ports_in(PortState::Closed) == after.closed@);
    assert(after.ports_in(PortState::Filtered) == after.filtered@);
    assert(after.ports_in(PortState::OpenFiltered) == after.open_filtered@);
}

/// Ending a scan twice is ending it once.
pub proof fn law_finish_idempotent(s: Seq<u16>)
    ensures
        ascending(ascending(s)) == ascending(s),
{
    lemma_ascending_sorted(s);
    lemma_ascending_unique(ascending(s), ascending(s));
}

} // verus!
