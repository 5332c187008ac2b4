//! Classification of a TCP connection attempt.
//!
//! - `Open`: the connection was established (SYN-ACK received);
//! - `Closed`: the connection was refused or reset (RST received);
//! - `Filtered`: the attempt timed out or failed otherwise (no answer).

use vstd::prelude::*;

use crate::models::PortState;

verus! {

/// How a TCP connection attempt ended.
#[derive(Debug, Clone, Copy, PartialEq, Eq, Structural)]
pub enum ConnectOutcome {
    /// The connection was established.
    Connected,
    /// The connection was refused.
    Refused,
    /// The connection was reset.
    Reset,
    /// The attempt failed with another error.
    Failed,
    /// No answer came before the timeout.
    TimedOut,
}

/// The state of a port whose TCP connection attempt ended with `outcome`.
pub open spec fn spec_classify_tcp(outcome: ConnectOutcome) -> PortState {
    match outcome {
        ConnectOutcome::Connected => PortState::Open,
        ConnectOutcome::Refused | ConnectOutcome::Reset => PortState::Closed,
        ConnectOutcome::Failed | ConnectOutcome::TimedOut => PortState::Filtered,
    }
}

/// The state of a port whose TCP connection attempt ended with `outcome`.
pub fn classify_tcp(outcome: ConnectOutcome) -> (r: PortState)
    ensures
        r == spec_classify_tcp(outcome),
        r != PortState::OpenFiltered,
{
    match outcome {
        ConnectOutcome::Connected => PortState::Open,
        ConnectOutcome::Refused => PortState::Closed,
        ConnectOutcome::Reset => PortState::Closed,
        ConnectOutcome::Failed => PortState::Filtered,
        ConnectOutcome::TimedOut => PortState::Filtered,
    }
}

} // verus!
