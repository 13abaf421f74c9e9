//! One connection.

use vstd::prelude::*;

verus! {

/// Why a connection was closed.
#[derive(Debug, Clone, Copy, PartialEq, Eq, Structural)]
pub enum CloseReason {
    IdleTimeout,
    MaxConnectionsReached,
    ClientClosed,
    ServerShutdown,
    AuthFailed,
}

impl CloseReason {
    /// The reason's name among the counters.
    pub open spec fn label_text(self) -> Seq<char> {
        match self {
            CloseReason::IdleTimeout => "idle_timeout"@,
            CloseReason::MaxConnectionsReached => "max_reached"@,
            CloseReason::ClientClosed => "client_closed"@,
            CloseReason::ServerShutdown => "server_shutdown"@,
            CloseReason::AuthFailed => "auth_failed"@,
        }
    }

    /// The reason's name among the counters.
    pub fn label(&self) -> (name: &'static str)
        ensures
            name@ == self.label_text(),
    {
        match self {
            CloseReason::IdleTimeout => "idle_timeout",
            CloseReason::MaxConnectionsReached => "max_reached",
            CloseReason::ClientClosed => "client_closed",
            CloseReason::ServerShutdown => "server_shutdown",
            CloseReason::AuthFailed => "auth_failed",
        }
    }
}

/// What is known of one connection. Times are nanoseconds on the caller's
/// clock.
#[derive(Debug)]
pub struct ConnectionInfo {
    pub id: u128,
    /// The peer's address, as text.
    pub addr: String,
    pub user: Option<String>,
    pub role: Option<String>,
    /// 0 is the lowest, 255 the highest.
    pub priority: u8,
    pub connected_at: u64,
    /// The time of the last activity; zero before the first.
    pub last_active: u64,
    pub is_websocket: bool,
}

/// How long a connection has been idle at `now`: nothing before its first
/// activity, else the time since the last.
pub open spec fn idle_nanos(last_active: u64, now: u64) -> u64 {
    if last_active == 0 || now <= last_active {
        0
    } else {
        (now - last_active) as u64
    }
}

impl ConnectionInfo {
    /// A connection that was just accepted: no user yet, lowest priority,
    /// no activity yet.
    pub fn new(id: u128, addr: String, is_websocket: bool, now: u64) -> (c: Self)
        ensures
            c.id == id,
            c.addr@ == addr@,
            c.user is None,
            c.role is None,
            c.priority == 0,
            c.connected_at == now,
            c.last_active == 0,
            c.is_websocket == is_websocket,
    {
        ConnectionInfo {
            id,
            addr,
            user: None,
            role: None,
            priority: 0,
            connected_at: now,
            last_active: 0,
            is_websocket,
        }
    }

    /// Records who is behind the connection.
    pub fn set_user(&mut self, user: String, role: String, priority: u8)
        ensures
            final(self).user == Some(user),
            final(self).role == Some(role),
            final(self).priority == priority,
            final(self).id == old(self).id,
            final(self).addr == old(self).addr,
            final(self).connected_at == old(self).connected_at,
            final(self).last_active == old(self).last_active,
            final(self).is_websocket == old(self).is_websocket,
    {
        self.user = Some(user);
        self.role = Some(role);
        self.priority = priority;
    }

    /// Records activity at `now`.
    pub fn touch(&mut self, now: u64)
        ensures
            final(self).last_active == now,
            final(self).id == old(self).id,
            final(self).priority == old(self).priority,
            final(self).connected_at == old(self).connected_at,
    {
        self.last_active = now;
    }

    /// How long the connection has been idle at `now`.
    pub fn idle_time(&self, now: u64) -> (idle: u64)
        ensures
            idle == idle_nanos(self.last_active, now),
    {
        if self.last_active == 0 || now <= self.last_active {
            0
        } else {
            now - self.last_active
        }
    }
}

} // verus!
