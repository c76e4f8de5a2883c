//! The per-tick decisions of the notification service.  The transport layer
//! owns the sockets and the clock; it feeds each connection's event of the
//! tick into these functions and performs the actions they hand back:
//! sending frames, closing displaced or stale connections, and dropping or
//! keeping pending connections.
use crate::auth::verify_spec;
use crate::auth::BasicAuth;
use crate::codec::dec_rep;
use crate::codec::parse_handshake;
use crate::codec::parse_handshake_spec;
use crate::codec::usize_to_decimal;
use crate::codec::Handshake;
use crate::dispatch::dispatch_seq;
use crate::dispatch::route_requests;
use crate::dispatch::Outbound;
use crate::dispatch::WsRequest;
use crate::registry::evict_map;
use crate::registry::evicted_conn;
use crate::registry::fresh_entry;
use crate::registry::live_at;
use crate::registry::touched;
use crate::registry::Registry;
use crate::registry::ALIVE_TIMEOUT;
use vstd::prelude::*;

verus! {

/// A connection that has not authenticated yet: its transport handle and
/// the time of its last activity.
#[derive(Debug, Clone, Copy, PartialEq, Eq, Structural)]
pub struct PendingConn {
    pub conn: u64,
    pub last_seen: u64,
}

/// What one connection produced this tick: a close frame, a ping with its
/// payload, a text message, or nothing.
#[derive(Debug)]
pub enum WsEvent {
    Closed,
    Ping(Vec<u8>),
    Text(String),
    Silent,
}

/// What to do with an unauthenticated connection after its event.
#[derive(Debug)]
pub enum PendingAction {
    /// The peer closed: answer with a close frame and discard the connection.
    ReplyClose,
    /// A ping: answer with a pong carrying the same payload; liveness was
    /// refreshed.
    ReplyPong(Vec<u8>),
    /// A well-formed registration message: look up the identity's stored
    /// hash and call `try_register`.
    Handshake(Handshake),
    /// Anything else, malformed registrations included: send nothing.
    NoReply,
}

/// The outcome of a registration attempt.
#[derive(Debug)]
pub enum RegisterOutcome {
    /// The credential matched: the connection is registered; `displaced`
    /// holds the identity's previous connection, to be closed by the caller.
    Registered { displaced: Option<u64> },
    /// Unknown identity or wrong secret: nothing was sent, nothing changed.
    Rejected,
}

/// Whether a handshake must be accepted: the store knows the identity and
/// the claimed secret verifies against the stored hash, the identity's
/// decimal writing being the salt.
pub open spec fn handshake_accepted(id: nat, token: Seq<char>, stored_hash: Option<Seq<char>>) -> bool {
    match stored_hash {
        Some(h) => verify_spec(dec_rep(id), token, h),
        None => false,
    }
}

/// Whether a pending connection is still within its inactivity allowance.
pub fn pending_live(p: &PendingConn, now: u64) -> (r: bool)
    ensures
        r == live_at(p.last_seen, now),
{
    !(now >= ALIVE_TIMEOUT && p.last_seen <= now - ALIVE_TIMEOUT)
}

/// Reacts to one event on an unauthenticated connection: answers a close
/// with a close, a ping with a pong (refreshing liveness), hands a
/// well-formed registration message back for credential lookup, and stays
/// silent on everything else.
pub fn pending_event(p: &mut PendingConn, event: WsEvent, now: u64) -> (a: PendingAction)
    ensures
        match event {
            WsEvent::Closed => a is ReplyClose && *final(p) == *old(p),
            WsEvent::Ping(data) => a == PendingAction::ReplyPong(data) && final(p).conn == old(
                p,
            ).conn && final(p).last_seen == now,
            WsEvent::Text(t) => *final(p) == *old(p) && (match parse_handshake_spec(t@) {
                Some(hs) => (a matches PendingAction::Handshake(h) && h.id as nat == hs.0
                    && h.token@ == hs.1),
                None => a is NoReply,
            }),
            WsEvent::Silent => a is NoReply && *final(p) == *old(p),
        },
{
    match event {
        WsEvent::Closed => PendingAction::ReplyClose,
        WsEvent::Ping(data) => {
            p.last_seen = now;
            PendingAction::ReplyPong(data)
        },
        WsEvent::Text(t) => {
            match parse_handshake(t.as_str()) {
                Some(h) => PendingAction::Handshake(h),
                None => PendingAction::NoReply,
            }
        },
        WsEvent::Silent => PendingAction::NoReply,
    }
}

/// Decides a registration attempt.  Exactly when the stored hash is present
/// and the claimed secret verifies, the connection is admitted: any previous
/// connection of the identity leaves the registry in the same step and is
/// handed back so the caller closes it before the new entry can be observed,
/// and the caller then answers the device with the empty acknowledgement.
/// Otherwise nothing is sent, and the registry — and the pending connection,
/// which stays in the caller's unauthenticated set — are untouched.
pub fn try_register(
    reg: &mut Registry,
    conn: u64,
    hs: &Handshake,
    stored_hash: Option<&String>,
    now: u64,
) -> (r: RegisterOutcome)
    requires
        old(reg).wf(),
    ensures
        final(reg).wf(),
        match r {
            RegisterOutcome::Registered { displaced } => {
                &&& handshake_accepted(
                    hs.id as nat,
                    hs.token@,
                    match stored_hash {
                        Some(h) => Some(h@),
                        None => None,
                    },
                )
                &&& final(reg)@ == old(reg)@.insert(hs.id, fresh_entry(hs.id, conn, now))
                &&& match displaced {
                    Some(c) => old(reg)@.contains_key(hs.id) && old(reg)@[hs.id].conn == c,
                    None => !old(reg)@.contains_key(hs.id),
                }
            },
            RegisterOutcome::Rejected => {
                &&& !handshake_accepted(
                    hs.id as nat,
                    hs.token@,
                    match stored_hash {
                        Some(h) => Some(h@),
                        None => None,
                    },
                )
                &&& final(reg)@ == old(reg)@
            },
        },
{
    match stored_hash {
        None => RegisterOutcome::Rejected,
        Some(h) => {
            let user = usize_to_decimal(hs.id);
            let auth = BasicAuth::from_parts(user.as_str(), hs.token.as_str());
            if auth.verify(h.as_str()) {
                let displaced = reg.promote(hs.id, conn, now);
                RegisterOutcome::Registered { displaced }
            } else {
                RegisterOutcome::Rejected
            }
        },
    }
}

/// What to do with a registered connection after its event.
#[derive(Debug)]
pub enum StationAction {
    /// The peer closed: its entry left the registry; answer with a close
    /// frame and drop the connection.
    ReplyClose { removed: Option<u64> },
    /// A ping: answer with a pong carrying the same payload; the entry's
    /// liveness was refreshed.
    ReplyPong(Vec<u8>),
    /// Registered connections only speak pings and closes; anything else is
    /// ignored.
    Ignore,
}

/// Reacts to one event on a registered connection.
pub fn station_event(reg: &mut Registry, id: usize, event: WsEvent, now: u64) -> (a: StationAction)
    requires
        old(reg).wf(),
    ensures
        final(reg).wf(),
        match event {
            WsEvent::Closed => final(reg)@ == old(reg)@.remove(id) && (
            a matches StationAction::ReplyClose { removed } && (match removed {
                Some(c) => old(reg)@.contains_key(id) && old(reg)@[id].conn == c,
                None => !old(reg)@.contains_key(id),
            })),
            WsEvent::Ping(data) => a == StationAction::ReplyPong(data) && final(reg)@ == (if old(
                reg,
            )@.contains_key(id) {
                old(reg)@.insert(id, touched(old(reg)@[id], now))
            } else {
                old(reg)@
            }),
            WsEvent::Text(_) => a is Ignore && final(reg)@ == old(reg)@,
            WsEvent::Silent => a is Ignore && final(reg)@ == old(reg)@,
        },
{
    match event {
        WsEvent::Closed => {
            let removed = reg.remove(id);
            StationAction::ReplyClose { removed }
        },
        WsEvent::Ping(data) => {
            reg.refresh(id, now);
            StationAction::ReplyPong(data)
        },
        WsEvent::Text(_) => StationAction::Ignore,
        WsEvent::Silent => StationAction::Ignore,
    }
}

/// The tail of one tick, after all inbound events were processed: first the
/// eviction pass, then one dispatch pass over the drained queue, so a
/// station that just proved liveness is not evicted in the same tick, and
/// pushes are routed against the surviving entries only.
pub fn end_of_tick(reg: &mut Registry, reqs: &Vec<WsRequest>, now: u64) -> (r: (
    Vec<u64>,
    Vec<Outbound>,
))
    requires
        old(reg).wf(),
    ensures
        final(reg).wf(),
        final(reg)@ == evict_map(old(reg)@, now),
        forall|c: u64| #[trigger] r.0@.contains(c) <==> evicted_conn(old(reg)@, now, c),
        r.1@.map_values(|o: Outbound| (o.conn, o.payload@)) == dispatch_seq(
            evict_map(old(reg)@, now),
            reqs@,
        ),
{
    let closed = reg.evict_stale(now);
    let out = route_requests(reg, reqs);
    (closed, out)
}

} // verus!
