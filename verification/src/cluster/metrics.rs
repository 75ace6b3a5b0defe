//! The counters of a cluster server.

use crate::metrics::Metric;
use vstd::prelude::*;
use vstd::string::StringExecFns;

verus! {

/// `n + by`, or the largest count where that does not fit.
pub open spec fn capped_add(n: u64, by: int) -> u64 {
    if n + by <= u64::MAX {
        (n + by) as u64
    } else {
        u64::MAX
    }
}

/// Counts one more event; a count at its limit stays there.
pub fn bump(n: u64) -> (r: u64)
    ensures
        r == capped_add(n, 1),
{
    if n < u64::MAX {
        n + 1
    } else {
        n
    }
}

/// Counts `by` more events; a count that would pass its limit stays there.
pub fn bump_by(n: u64, by: usize) -> (r: u64)
    ensures
        r == capped_add(n, by as int),
{
    let by64 = by as u64;
    if by64 <= u64::MAX - n {
        n + by64
    } else {
        u64::MAX
    }
}

/// How often a cluster server has seen each kind of event.
#[derive(Debug, Clone, Copy, PartialEq, Eq, Structural)]
pub struct ClusterMetrics {
    pub errors: u64,
    pub poll_notifications: u64,
    pub joins: u64,
    pub leaves: u64,
    pub received_local_envelopes: u64,
    pub received_remote_envelopes: u64,
    pub status_requests: u64,
    pub accepted_connections: u64,
    pub connection_attempts: u64,
}

/// A counter under its name.
pub open spec fn named_counter(entry: (String, Metric), name: Seq<char>, count: u64) -> bool {
    entry.0@ == name && entry.1 == Metric::Counter(count)
}

impl ClusterMetrics {
    /// All counters at zero.
    pub open spec fn zero() -> ClusterMetrics {
        ClusterMetrics {
            errors: 0,
            poll_notifications: 0,
            joins: 0,
            leaves: 0,
            received_local_envelopes: 0,
            received_remote_envelopes: 0,
            status_requests: 0,
            accepted_connections: 0,
            connection_attempts: 0,
        }
    }

    /// All counters at zero.
    pub fn new() -> (m: ClusterMetrics)
        ensures
            m == ClusterMetrics::zero(),
    {
        ClusterMetrics {
            errors: 0,
            poll_notifications: 0,
            joins: 0,
            leaves: 0,
            received_local_envelopes: 0,
            received_remote_envelopes: 0,
            status_requests: 0,
            accepted_connections: 0,
            connection_attempts: 0,
        }
    }

    /// Whether `data` lists the counters under their names, in the order of the
    /// fields.
    pub open spec fn listed_as(self, data: Seq<(String, Metric)>) -> bool {
        &&& data.len() == 9
        &&& named_counter(data[0], "errors"@, self.errors)
        &&& named_counter(data[1], "poll_notifications"@, self.poll_notifications)
        &&& named_counter(data[2], "joins"@, self.joins)
        &&& named_counter(data[3], "leaves"@, self.leaves)
        &&& named_counter(data[4], "received_local_envelopes"@, self.received_local_envelopes)
        &&& named_counter(data[5], "received_remote_envelopes"@, self.received_remote_envelopes)
        &&& named_counter(data[6], "status_requests"@, self.status_requests)
        &&& named_counter(data[7], "accepted_connections"@, self.accepted_connections)
        &&& named_counter(data[8], "connection_attempts"@, self.connection_attempts)
    }

    /// The counters as named metrics, in the order of the fields.
    pub fn data(&self) -> (r: Vec<(String, Metric)>)
        ensures
            self.listed_as(r@),
    {
        let mut r: Vec<(String, Metric)> = Vec::new();
        r.push((String::from_str("errors"), Metric::Counter(self.errors)));
        r.push((String::from_str("poll_notifications"), Metric::Counter(self.poll_notifications)));
        r.push((String::from_str("joins"), Metric::Counter(self.joins)));
        r.push((String::from_str("leaves"), Metric::Counter(self.leaves)));
        r.push(
            (
                String::from_str("received_local_envelopes"),
                Metric::Counter(self.received_local_envelopes),
            ),
        );
        r.push(
            (
                String::from_str("received_remote_envelopes"),
                Metric::Counter(self.received_remote_envelopes),
            ),
        );
        r.push((String::from_str("status_requests"), Metric::Counter(self.status_requests)));
        r.push(
            (String::from_str("accepted_connections"), Metric::Counter(self.accepted_connections)),
        );
        r.push(
            (String::from_str("connection_attempts"), Metric::Counter(self.connection_attempts)),
        );
        r
    }
}

} // verus!
