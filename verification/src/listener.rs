//! The listener's fault-isolation decisions.
//!
//! The accept loop runs for the life of the process; a failed accept or a
//! connection that ends in an error is reported to the host's fault
//! notifier and never stops the loop. A connection that ends cleanly —
//! including one ended by a peer reset — reports nothing.

use vstd::prelude::*;
use crate::errors::{spec_ipc_error_message, IpcError};

verus! {

/// One report to the host's fault notifier.
pub struct FaultNotice {
    /// What part of the service failed.
    pub label: String,
    /// The failure rendered as one line.
    pub message: String,
}

/// The label under which connection-level faults are reported.
pub open spec fn spec_fault_label() -> Seq<char> {
    "IPC client"@
}

/// What to tell the fault notifier when a connection ends: nothing for a
/// clean end, one notice for a failed one. The listener keeps accepting
/// either way.
pub fn connection_end_notice(result: Option<IpcError>) -> (r: Option<FaultNotice>)
    ensures
        match result {
            None => r is None,
            Some(e) => r matches Some(n) && n.label@ == spec_fault_label() && n.message@
                == spec_ipc_error_message(e),
        },
{
    match result {
        None => None,
        Some(e) => {
            let message = e.message();
            Some(FaultNotice { label: String::from_str("IPC client"), message })
        },
    }
}

/// What to tell the fault notifier when accepting a connection fails: one
/// notice carrying the transport error's text. The listener keeps
/// accepting.
pub fn accept_failure_notice(error_text: String) -> (r: FaultNotice)
    ensures
        r.label@ == spec_fault_label(),
        r.message@ == spec_ipc_error_message(IpcError::Io(error_text)),
{
    let e = IpcError::Io(error_text);
    let message = e.message();
    FaultNotice { label: String::from_str("IPC client"), message }
}

} // verus!
