//! The end of a tunnel: what the proxy counts and reports once the two-way
//! copy between client and target is over.

use vstd::prelude::*;

use crate::counters::counted_once;
use crate::metrics::{inc_errors_total, series_key, MetricsSlot};
use crate::proxy::ProxyError;

verus! {

/// How the two-way copy of a tunnel ended.
pub enum TunnelOutcome {
    /// Both sides closed; the bytes copied each way.
    Finished { from_client: u64, from_target: u64 },
    /// Copying failed, with the system's message.
    Failed(String),
    /// The tunnel outlived the configured timeout.
    TimedOut,
}

/// `in`: the direction of bytes from client to target.
pub open spec fn inbound() -> Seq<char> {
    seq!['i', 'n']
}

/// `out`: the direction of bytes from target to client.
pub open spec fn outbound() -> Seq<char> {
    seq!['o', 'u', 't']
}

/// `tunnel_error`.
pub open spec fn tunnel_error_reason() -> Seq<char> {
    seq!['t', 'u', 'n', 'n', 'e', 'l', '_', 'e', 'r', 'r', 'o', 'r']
}

/// `tunnel_timeout`.
pub open spec fn tunnel_timeout_reason() -> Seq<char> {
    seq!['t', 'u', 'n', 'n', 'e', 'l', '_', 't', 'i', 'm', 'e', 'o', 'u', 't']
}

/// Settles a finished tunnel. A tunnel that closed hands back the byte
/// counts to record, labelled `in` (client to target) and `out` (target to
/// client), and leaves the metrics as they were; a failed one counts a
/// `tunnel_error` and a timed-out one a `tunnel_timeout` (when the metrics
/// are set up) and reports the matching error.
pub fn settle_tunnel(slot: &mut MetricsSlot, outcome: TunnelOutcome) -> (r: Result<
    Vec<(&'static str, u64)>,
    ProxyError,
>)
    ensures
        match outcome {
            TunnelOutcome::Finished { from_client, from_target } => {
                &&& final(slot).current() == old(slot).current()
                &&& r matches Ok(records)
                &&& records@.len() == 2
                &&& records@[0].0@ == inbound() && records@[0].1 == from_client
                &&& records@[1].0@ == outbound() && records@[1].1 == from_target
            },
            TunnelOutcome::Failed(e) => {
                &&& r matches Err(ProxyError::TunnelFailed(m)) && m@ == e@
                &&& counted_error(*old(slot), *final(slot), tunnel_error_reason())
            },
            TunnelOutcome::TimedOut => {
                &&& r matches Err(ProxyError::TunnelTimeout)
                &&& counted_error(*old(slot), *final(slot), tunnel_timeout_reason())
            },
        },
{
    match outcome {
        TunnelOutcome::Finished { from_client, from_target } => {
            proof {
                reveal_strlit("in");
                reveal_strlit("out");
                assert("in"@ =~= inbound());
                assert("out"@ =~= outbound());
            }
            let mut records: Vec<(&'static str, u64)> = Vec::new();
            records.push(("in", from_client));
            records.push(("out", from_target));
            Ok(records)
        },
        TunnelOutcome::Failed(e) => {
            proof {
                reveal_strlit("tunnel_error");
                assert("tunnel_error"@ =~= tunnel_error_reason());
            }
            inc_errors_total(slot, "tunnel_error");
            Err(ProxyError::TunnelFailed(e))
        },
        TunnelOutcome::TimedOut => {
            proof {
                reveal_strlit("tunnel_timeout");
                assert("tunnel_timeout"@ =~= tunnel_timeout_reason());
            }
            inc_errors_total(slot, "tunnel_timeout");
            Err(ProxyError::TunnelTimeout)
        },
    }
}

/// `after` is `before` with one error counted for `reason`: nothing, when
/// the metrics are not set up; otherwise the reason's count in the error
/// family is one higher, every other family unchanged.
pub open spec fn counted_error(before: MetricsSlot, after: MetricsSlot, reason: Seq<char>) -> bool {
    match before.current() {
        None => after.current() is None,
        Some(m) => after.current() matches Some(n) && n.errors() == m.errors().insert(
            series_key(reason),
        ) && n.error_counts() == counted_once(m.error_counts(), series_key(reason))
            && n.connections_total == m.connections_total && n.data_transferred_bytes_total
            == m.data_transferred_bytes_total,
    }
}

} // verus!
