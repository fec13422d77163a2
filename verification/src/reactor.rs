//! The reactor's bookkeeping: the live session list, the lifecycle events a
//! session hands back, and the interest set that is rebuilt from scratch
//! whenever the session topology changes.
//!
//! The poll call itself and the delivery of readiness events live outside
//! this crate; what is verified here is that the interest set always equals
//! the concatenation of every live session's declared descriptors, keyed by
//! `(sessionIndex, fdIndex)`, and that every topology mutation asks for a
//! rebuild.

use vstd::prelude::*;

use crate::http::HttpSession;
use crate::tcp_server::TcpServer;
use crate::websockets::WsSession;

verus! {

/// The readiness a descriptor is registered for. Every session in this
/// gateway only ever reads.
#[derive(Clone, Copy, PartialEq, Eq, Structural, Debug)]
pub enum Interest {
    Read,
}

/// One live protocol session: the listening socket, a pending HTTP parse, or
/// an active WebSocket-to-subprocess bridge.
pub enum Session {
    Listener(TcpServer),
    Http(HttpSession),
    Ws(WsSession),
}

/// What a session asks of the reactor after handling one readiness event.
pub enum ProtocolEvent {
    /// Substitute the new session in this session's slot.
    ReplaceWith(Box<Session>),
    /// Append the new session to the session list.
    AddSibling(Box<Session>),
    /// Delete this session.
    Remove,
    /// Rebuild the interest set: this session's descriptor list changed.
    Refresh,
    /// Log the message; the session is retained.
    Error(String),
    /// No change.
    Continue,
}

impl Session {
    /// The descriptors this session declares, in fd-index order.
    pub open spec fn spec_pollfds(self) -> Seq<(i32, Interest)> {
        match self {
            Session::Listener(t) => t.spec_pollfds(),
            Session::Http(h) => h.spec_pollfds(),
            Session::Ws(w) => w.spec_pollfds(),
        }
    }

    /// Enumerates the descriptors to poll for this session. Every session
    /// declares at least one descriptor, its primary one first.
    pub fn pollfds(&self) -> (r: Vec<(i32, Interest)>)
        ensures
            r@ == self.spec_pollfds(),
            r@.len() >= 1,
    {
        match self {
            Session::Listener(t) => t.pollfds(),
            Session::Http(h) => h.pollfds(),
            Session::Ws(w) => w.pollfds(),
        }
    }
}

/// Every session declares at least one descriptor, whatever its state.
pub proof fn lemma_pollfds_nonempty(s: Session)
    ensures
        s.spec_pollfds().len() >= 1,
{
}

/// The interest-set entries contributed by the session in slot `c`: its
/// descriptors in order, keyed by `(c, indexInList)`.
pub open spec fn session_entries(s: Session, c: int) -> Seq<((usize, usize), (i32, Interest))> {
    Seq::new(s.spec_pollfds().len(), |i: int| ((c as usize, i as usize), s.spec_pollfds()[i]))
}

/// The interest set of the first `n` sessions, in session order.
pub open spec fn interest_set_prefix(clients: Seq<Session>, n: int) -> Seq<
    ((usize, usize), (i32, Interest)),
>
    decreases n,
{
    if n <= 0 {
        Seq::empty()
    } else {
        interest_set_prefix(clients, n - 1) + session_entries(clients[n - 1], n - 1)
    }
}

/// The whole interest set: the concatenation of every live session's
/// declared descriptors, keyed by `(sessionIndex, fdIndex)`.
pub open spec fn interest_set(clients: Seq<Session>) -> Seq<((usize, usize), (i32, Interest))> {
    interest_set_prefix(clients, clients.len() as int)
}

/// Rebuilds the interest set from scratch from the current session list.
pub fn refresh_pollfds(clients: &Vec<Session>) -> (r: Vec<((usize, usize), (i32, Interest))>)
    ensures
        r@ == interest_set(clients@),
{
    let mut r: Vec<((usize, usize), (i32, Interest))> = Vec::new();
    let mut c: usize = 0;
    while c < clients.len()
        invariant
            c <= clients@.len(),
            r@ == interest_set_prefix(clients@, c as int),
        decreases clients@.len() - c,
    {
        let fds = clients[c].pollfds();
        let mut i: usize = 0;
        while i < fds.len()
            invariant
                c < clients@.len(),
                i <= fds@.len(),
                fds@ == clients@[c as int].spec_pollfds(),
                r@ == interest_set_prefix(clients@, c as int) + session_entries(
                    clients@[c as int],
                    c as int,
                ).take(i as int),
            decreases fds@.len() - i,
        {
            let (fd, interest) = fds[i];
            r.push(((c, i), (fd, interest)));
            i += 1;
            proof {
                assert(r@ =~= interest_set_prefix(clients@, c as int) + session_entries(
                    clients@[c as int],
                    c as int,
                ).take(i as int));
            }
        }
        c += 1;
        proof {
            assert(session_entries(clients@[c - 1], c - 1).take(fds@.len() as int)
                =~= session_entries(clients@[c - 1], c - 1));
            assert(r@ =~= interest_set_prefix(clients@, c as int));
        }
    }
    r
}

/// Applies one lifecycle event to the session list: `ReplaceWith`
/// substitutes in place, `AddSibling` appends, `Remove` swaps the last
/// session into the removed slot, and the rest leave the list unchanged.
/// Returns whether the interest set must be rebuilt, and a message to log.
pub fn apply_event(clients: &mut Vec<Session>, c: usize, event: ProtocolEvent) -> (r: (
    bool,
    Option<String>,
))
    requires
        c < old(clients)@.len(),
    ensures
        match event {
            ProtocolEvent::ReplaceWith(p) => final(clients)@ == old(clients)@.update(c as int, *p)
                && r.0 == true && r.1 is None,
            ProtocolEvent::AddSibling(p) => final(clients)@ == old(clients)@.push(*p) && r.0 == true
                && r.1 is None,
            ProtocolEvent::Remove => final(clients)@ == old(clients)@.update(
                c as int,
                old(clients)@.last(),
            ).drop_last() && r.0 == true && r.1 is None,
            ProtocolEvent::Refresh => final(clients)@ == old(clients)@ && r.0 == true
                && r.1 is None,
            ProtocolEvent::Error(e) => final(clients)@ == old(clients)@ && r.0 == false && (
            r.1 matches Some(m) && m == e),
            ProtocolEvent::Continue => final(clients)@ == old(clients)@ && r.0 == false
                && r.1 is None,
        },
        !r.0 ==> final(clients)@ == old(clients)@,
{
    match event {
        ProtocolEvent::ReplaceWith(p) => {
            let _removed = clients.remove(c);
            clients.insert(c, *p);
            proof {
                assert(final(clients)@ =~= old(clients)@.update(c as int, *p));
            }
            (true, None)
        },
        ProtocolEvent::AddSibling(p) => {
            clients.push(*p);
            (true, None)
        },
        ProtocolEvent::Remove => {
            let _removed = clients.swap_remove(c);
            (true, None)
        },
        ProtocolEvent::Refresh => (true, None),
        ProtocolEvent::Error(e) => (false, Some(e)),
        ProtocolEvent::Continue => (false, None),
    }
}

/// Every descriptor a live session declares appears in the interest set,
/// under its `(sessionIndex, fdIndex)` key. (That the set holds nothing else
/// is `interest_set`'s definition: it concatenates the sessions' descriptor
/// lists and nothing more.)
pub proof fn lemma_interest_set_complete(clients: Seq<Session>)
    ensures
        forall|c: int, i: int|
            0 <= c < clients.len() && 0 <= i < clients[c].spec_pollfds().len()
                ==> interest_set(clients).contains(
                (((c as usize), (i as usize)), #[trigger] clients[c].spec_pollfds()[i]),
            ),
        interest_set(clients).len() >= clients.len(),
{
    lemma_interest_set_prefix_complete(clients, clients.len() as int);
}

proof fn lemma_interest_set_prefix_complete(clients: Seq<Session>, n: int)
    requires
        n <= clients.len(),
    ensures
        forall|c: int, i: int|
            0 <= c < n && 0 <= i < clients[c].spec_pollfds().len() ==> interest_set_prefix(
                clients,
                n,
            ).contains((((c as usize), (i as usize)), #[trigger] clients[c].spec_pollfds()[i])),
        interest_set_prefix(clients, n).len() >= n,
    decreases n,
{
    if n > 0 {
        lemma_interest_set_prefix_complete(clients, n - 1);
        lemma_pollfds_nonempty(clients[n - 1]);
        assert forall|c: int, i: int|
            0 <= c < n && 0 <= i < clients[c].spec_pollfds().len() implies interest_set_prefix(
            clients,
            n,
        ).contains((((c as usize), (i as usize)), #[trigger] clients[c].spec_pollfds()[i])) by {
            let entry = ((c as usize, i as usize), clients[c].spec_pollfds()[i]);
            if c < n - 1 {
                assert(interest_set_prefix(clients, n - 1).contains(entry));
                let j = choose|j: int|
                    0 <= j < interest_set_prefix(clients, n - 1).len()
                        && #[trigger] interest_set_prefix(clients, n - 1)[j] == entry;
                assert(interest_set_prefix(clients, n)[j] == entry);
            } else {
                let j = interest_set_prefix(clients, n - 1).len() + i;
                assert(interest_set_prefix(clients, n)[j as int] == entry);
            }
        }
    }
}

} // verus!
