//! Admission and the choice of the connection to evict.
//!
//! The table of live connections belongs to the caller. When the table is
//! full the caller hands in what it knows of each connection, and the
//! library picks the one to close.

use crate::text::str_eq;
use vstd::prelude::*;

verus! {

#[derive(Debug, Clone, Copy, PartialEq, Eq, Structural)]
pub enum ConnectionError {
    MaxConnectionsExceeded,
    NotFound,
}

impl ConnectionError {
    pub open spec fn message_text(self) -> Seq<char> {
        match self {
            ConnectionError::MaxConnectionsExceeded => "Max connections exceeded"@,
            ConnectionError::NotFound => "Connection not found"@,
        }
    }

    /// The error in words.
    pub fn message(&self) -> (text: &'static str)
        ensures
            text@ == self.message_text(),
    {
        match self {
            ConnectionError::MaxConnectionsExceeded => "Max connections exceeded",
            ConnectionError::NotFound => "Connection not found",
        }
    }
}

/// What the choice of a victim looks at.
#[derive(Debug, Clone, Copy, PartialEq, Eq, Structural)]
pub struct Candidate {
    pub id: u128,
    /// How long the connection has been idle.
    pub idle: u64,
    pub priority: u8,
    pub connected_at: u64,
}

/// The order in which connections are given up.
#[derive(Debug, Clone, Copy, PartialEq, Eq, Structural)]
pub enum EvictPolicy {
    /// The longest idle first; among equally idle ones the lowest priority.
    IdleThenPriority,
    /// The one connected first.
    Fifo,
    /// The shortest idle first; among equally idle ones the highest
    /// priority.
    PriorityThenIdle,
}

/// The policy a configured name stands for. An unknown name stands for
/// `Fifo`.
pub open spec fn policy_of(name: Seq<char>) -> EvictPolicy {
    if name == "idle_then_priority"@ {
        EvictPolicy::IdleThenPriority
    } else if name == "priority_then_idle"@ {
        EvictPolicy::PriorityThenIdle
    } else {
        EvictPolicy::Fifo
    }
}

/// Whether `a` is given up strictly before `b` under `policy`.
pub open spec fn goes_before(policy: EvictPolicy, a: Candidate, b: Candidate) -> bool {
    match policy {
        EvictPolicy::IdleThenPriority => a.idle > b.idle || (a.idle == b.idle && a.priority
            < b.priority),
        EvictPolicy::Fifo => a.connected_at < b.connected_at,
        EvictPolicy::PriorityThenIdle => a.idle < b.idle || (a.idle == b.idle && a.priority
            > b.priority),
    }
}

/// `i` is the victim among `candidates`: nobody goes before it, and it goes
/// before everybody listed ahead of it.
pub open spec fn is_victim(policy: EvictPolicy, candidates: Seq<Candidate>, i: int) -> bool {
    &&& 0 <= i < candidates.len()
    &&& forall|j: int|
        0 <= j < candidates.len() ==> !goes_before(policy, #[trigger] candidates[j], candidates[i])
    &&& forall|j: int| 0 <= j < i ==> goes_before(policy, candidates[i], #[trigger] candidates[j])
}

/// Reads a policy's name.
pub fn parse_policy(name: &str) -> (policy: EvictPolicy)
    ensures
        policy == policy_of(name@),
{
    if str_eq(name, "idle_then_priority") {
        EvictPolicy::IdleThenPriority
    } else if str_eq(name, "priority_then_idle") {
        EvictPolicy::PriorityThenIdle
    } else {
        EvictPolicy::Fifo
    }
}

fn before(policy: EvictPolicy, a: &Candidate, b: &Candidate) -> (r: bool)
    ensures
        r == goes_before(policy, *a, *b),
{
    match policy {
        EvictPolicy::IdleThenPriority => a.idle > b.idle || (a.idle == b.idle && a.priority
            < b.priority),
        EvictPolicy::Fifo => a.connected_at < b.connected_at,
        EvictPolicy::PriorityThenIdle => a.idle < b.idle || (a.idle == b.idle && a.priority
            > b.priority),
    }
}

/// Whether the table is full, so that a connection has to go before another
/// is let in.
pub fn must_evict(live: usize, max_connections: usize) -> (full: bool)
    ensures
        full == (live >= max_connections),
{
    live >= max_connections
}

/// Picks the connection to close under the policy named `policy_name`:
/// the first of those that nobody goes before. `None` only where there is
/// no candidate.
pub fn find_connection_to_evict(policy_name: &str, candidates: &Vec<Candidate>) -> (victim: Option<
    u128,
>)
    ensures
        victim is None <==> candidates@.len() == 0,
        victim matches Some(id) ==> exists|i: int|
            is_victim(policy_of(policy_name@), candidates@, i) && #[trigger] candidates@[i].id
                == id,
{
    if candidates.len() == 0 {
        return None;
    }
    let policy = parse_policy(policy_name);
    let mut best: usize = 0;
    let mut i: usize = 1;
    while i < candidates.len()
        invariant
            1 <= i <= candidates@.len(),
            best < i,
            forall|j: int|
                0 <= j < i ==> !goes_before(
                    policy,
                    #[trigger] candidates@[j],
                    candidates@[best as int],
                ),
            forall|j: int|
                0 <= j < best ==> goes_before(
                    policy,
                    candidates@[best as int],
                    #[trigger] candidates@[j],
                ),
        decreases candidates@.len() - i,
    {
        if before(policy, &candidates[i], &candidates[best]) {
            best = i;
        }
        i = i + 1;
    }
    assert(is_victim(policy, candidates@, best as int));
    Some(candidates[best].id)
}

} // verus!
