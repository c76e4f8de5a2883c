//! The outbound dispatch queue: a mailbox into which other components
//! enqueue push requests, drained once per tick and routed to the matching
//! live connection.  A request whose target is not registered is dropped
//! silently; delivery is fire-and-forget.
use crate::codec::conf_message;
use crate::codec::conf_message_seq;
use crate::codec::state_message;
use crate::codec::state_message_seq;
use crate::registry::Registry;
use crate::registry::StationConn;
use vstd::prelude::*;

verus! {

/// A push that changes a station's state.
#[derive(Debug)]
pub struct WsUpdateState {
    pub id: usize,
    pub state: String,
}

/// A push that changes a station's configuration.
#[derive(Debug)]
pub struct WsUpdateConf {
    pub id: usize,
    pub conf: String,
}

/// One outbound push request, aimed at a station identity.
#[derive(Debug)]
pub enum WsRequest {
    UpdateState(WsUpdateState),
    UpdateConf(WsUpdateConf),
}

impl WsRequest {
    /// The identity the request is aimed at.
    pub open spec fn target(&self) -> usize {
        match self {
            WsRequest::UpdateState(r) => r.id,
            WsRequest::UpdateConf(r) => r.id,
        }
    }

    /// The exact message text delivered for this request.
    pub open spec fn render(&self) -> Seq<char> {
        match self {
            WsRequest::UpdateState(r) => state_message_seq(r.state@),
            WsRequest::UpdateConf(r) => conf_message_seq(r.conf@),
        }
    }
}

/// A framed message on its way to a connection.
#[derive(Debug)]
pub struct Outbound {
    pub conn: u64,
    pub payload: String,
}

/// The mailbox shared with the components that produce push requests.
/// Enqueueing appends and returns immediately; the notification service
/// empties the whole queue in one swap, so producers never observe a
/// half-drained queue.
pub struct DispatchQueue {
    reqs: Vec<WsRequest>,
}

impl View for DispatchQueue {
    type V = Seq<WsRequest>;

    closed spec fn view(&self) -> Seq<WsRequest> {
        self.reqs@
    }
}

impl DispatchQueue {
    /// An empty mailbox.
    pub fn new() -> (r: Self)
        ensures
            r@ == Seq::<WsRequest>::empty(),
    {
        DispatchQueue { reqs: Vec::new() }
    }

    /// Appends a request; never blocks and never fails.
    pub fn enqueue(&mut self, r: WsRequest)
        ensures
            final(self)@ == old(self)@.push(r),
    {
        self.reqs.push(r);
    }

    /// Takes every queued request out at once, oldest first, leaving the
    /// queue empty.
    pub fn drain(&mut self) -> (r: Vec<WsRequest>)
        ensures
            final(self)@ == Seq::<WsRequest>::empty(),
            r@ == old(self)@,
    {
        let mut out: Vec<WsRequest> = Vec::new();
        core::mem::swap(&mut out, &mut self.reqs);
        out
    }
}

/// The messages one dispatch pass sends: the requests in order, each mapped
/// to its target's connection and rendered text, skipping the requests whose
/// target is not registered.
pub open spec fn dispatch_seq(m: Map<usize, StationConn>, reqs: Seq<WsRequest>) -> Seq<
    (u64, Seq<char>),
>
    decreases reqs.len(),
{
    if reqs.len() == 0 {
        Seq::empty()
    } else {
        let rest = dispatch_seq(m, reqs.drop_last());
        let r = reqs.last();
        if m.contains_key(r.target()) {
            rest.push((m[r.target()].conn, r.render()))
        } else {
            rest
        }
    }
}

/// Routes one drained batch of requests through the registry, in order of
/// arrival: exactly one framed message per request whose target is
/// registered, and nothing for the others.
#[verifier::loop_isolation(false)]
pub fn route_requests(reg: &Registry, reqs: &Vec<WsRequest>) -> (out: Vec<Outbound>)
    requires
        reg.wf(),
    ensures
        out@.map_values(|o: Outbound| (o.conn, o.payload@)) == dispatch_seq(reg@, reqs@),
{
    let n = reqs.len();
    let mut out: Vec<Outbound> = Vec::new();
    let mut i: usize = 0;
    while i < n
        invariant
            i <= n,
            out@.map_values(|o: Outbound| (o.conn, o.payload@)) == dispatch_seq(
                reg@,
                reqs@.take(i as int),
            ),
        decreases n - i,
    {
        proof {
            assert(reqs@.take(i + 1 as int).drop_last() =~= reqs@.take(i as int));
            assert(reqs@.take(i + 1 as int).last() == reqs@[i as int]);
        }
        match &reqs[i] {
            WsRequest::UpdateState(u) => {
                match reg.route(u.id) {
                    Some(c) => {
                        let payload = state_message(u.state.as_str());
                        out.push(Outbound { conn: c, payload });
                        proof {
                            assert(out@.map_values(|o: Outbound| (o.conn, o.payload@))
                                =~= dispatch_seq(reg@, reqs@.take(i + 1 as int)));
                        }
                    },
                    None => {
                        proof {
                            assert(out@.map_values(|o: Outbound| (o.conn, o.payload@))
                                =~= dispatch_seq(reg@, reqs@.take(i + 1 as int)));
                        }
                    },
                }
            },
            WsRequest::UpdateConf(u) => {
                match reg.route(u.id) {
                    Some(c) => {
                        let payload = conf_message(u.conf.as_str());
                        out.push(Outbound { conn: c, payload });
                        proof {
                            assert(out@.map_values(|o: Outbound| (o.conn, o.payload@))
                                =~= dispatch_seq(reg@, reqs@.take(i + 1 as int)));
                        }
                    },
                    None => {
                        proof {
                            assert(out@.map_values(|o: Outbound| (o.conn, o.payload@))
                                =~= dispatch_seq(reg@, reqs@.take(i + 1 as int)));
                        }
                    },
                }
            },
        }
        i = i + 1;
    }
    proof {
        assert(reqs@.take(n as int) =~= reqs@);
    }
    out
}

} // verus!
