//! Counters of the connection table, by label.

use vstd::hash_map::StringHashMap;
use vstd::prelude::*;

verus! {

/// The counters: connections accepted by role, connections closed by
/// reason, and connections live by role.
pub struct ConnectionMetrics {
    pub accepted: StringHashMap<u64>,
    pub evicted: StringHashMap<u64>,
    pub active: StringHashMap<i64>,
}

/// The value of a counter under a label; a label never counted stands at
/// zero.
pub open spec fn counter_at(counters: Map<Seq<char>, u64>, label: Seq<char>) -> u64 {
    if counters.contains_key(label) {
        counters[label]
    } else {
        0
    }
}

/// The value of a gauge under a label; a label never set stands at zero.
pub open spec fn gauge_at(gauges: Map<Seq<char>, i64>, label: Seq<char>) -> i64 {
    if gauges.contains_key(label) {
        gauges[label]
    } else {
        0
    }
}

/// One more, up to the largest value a counter holds.
pub open spec fn bumped(v: u64) -> u64 {
    if v < u64::MAX {
        (v + 1) as u64
    } else {
        v
    }
}

impl ConnectionMetrics {
    pub fn new() -> (m: Self)
        ensures
            m.accepted@ == Map::<Seq<char>, u64>::empty(),
            m.evicted@ == Map::<Seq<char>, u64>::empty(),
            m.active@ == Map::<Seq<char>, i64>::empty(),
    {
        ConnectionMetrics {
            accepted: StringHashMap::new(),
            evicted: StringHashMap::new(),
            active: StringHashMap::new(),
        }
    }
}

fn bump(counters: &mut StringHashMap<u64>, label: &str)
    ensures
        final(counters)@ == old(counters)@.insert(
            label@,
            bumped(counter_at(old(counters)@, label@)),
        ),
{
    let v: u64 = match counters.get(label) {
        Some(v) => *v,
        None => 0,
    };
    let next: u64 = if v < u64::MAX {
        v + 1
    } else {
        v
    };
    counters.insert(label.to_owned(), next);
}

/// Counts a connection accepted for `role`.
pub fn inc_accepted(metrics: &mut ConnectionMetrics, role: &str)
    ensures
        final(metrics).accepted@ == old(metrics).accepted@.insert(
            role@,
            bumped(counter_at(old(metrics).accepted@, role@)),
        ),
        final(metrics).evicted@ == old(metrics).evicted@,
        final(metrics).active@ == old(metrics).active@,
{
    bump(&mut metrics.accepted, role);
}

/// Counts a connection closed for `reason`.
pub fn inc_evicted(metrics: &mut ConnectionMetrics, reason: &str)
    ensures
        final(metrics).evicted@ == old(metrics).evicted@.insert(
            reason@,
            bumped(counter_at(old(metrics).evicted@, reason@)),
        ),
        final(metrics).accepted@ == old(metrics).accepted@,
        final(metrics).active@ == old(metrics).active@,
{
    bump(&mut metrics.evicted, reason);
}

/// One more live connection of `role`.
pub fn inc_active(metrics: &mut ConnectionMetrics, role: &str)
    ensures
        final(metrics).active@ == old(metrics).active@.insert(
            role@,
            if gauge_at(old(metrics).active@, role@) < i64::MAX {
                (gauge_at(old(metrics).active@, role@) + 1) as i64
            } else {
                i64::MAX
            },
        ),
        final(metrics).accepted@ == old(metrics).accepted@,
        final(metrics).evicted@ == old(metrics).evicted@,
{
    let v: i64 = match metrics.active.get(role) {
        Some(v) => *v,
        None => 0,
    };
    let next: i64 = if v < i64::MAX {
        v + 1
    } else {
        v
    };
    metrics.active.insert(role.to_owned(), next);
}

/// One live connection of `role` less.
pub fn dec_active(metrics: &mut ConnectionMetrics, role: &str)
    ensures
        final(metrics).active@ == old(metrics).active@.insert(
            role@,
            if gauge_at(old(metrics).active@, role@) > i64::MIN {
                (gauge_at(old(metrics).active@, role@) - 1) as i64
            } else {
                i64::MIN
            },
        ),
        final(metrics).accepted@ == old(metrics).accepted@,
        final(metrics).evicted@ == old(metrics).evicted@,
{
    let v: i64 = match metrics.active.get(role) {
        Some(v) => *v,
        None => 0,
    };
    let next: i64 = if v > i64::MIN {
        v - 1
    } else {
        v
    };
    metrics.active.insert(role.to_owned(), next);
}

} // verus!
