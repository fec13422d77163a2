//! The listener session: it owns the listening socket's descriptor and turns
//! each accepted connection into a sibling HTTP session.

use vstd::prelude::*;
use vstd::string::StringExecFns;

use crate::http::HttpSession;
use crate::reactor::Interest;
use crate::reactor::ProtocolEvent;
use crate::reactor::Session;

verus! {

/// The listening socket's session.
pub struct TcpServer {
    pub listener_fd: i32,
}

impl TcpServer {
    /// A listener session over an already bound socket.
    pub fn new(listener_fd: i32) -> (s: Self)
        ensures
            s.listener_fd == listener_fd,
    {
        TcpServer { listener_fd }
    }

    /// The single descriptor this session declares: the listening socket.
    pub open spec fn spec_pollfds(self) -> Seq<(i32, Interest)> {
        seq![(self.listener_fd, Interest::Read)]
    }

    /// Enumerates the descriptors to poll.
    pub fn pollfds(&self) -> (r: Vec<(i32, Interest)>)
        ensures
            r@ == self.spec_pollfds(),
            r@.len() >= 1,
    {
        let mut fds: Vec<(i32, Interest)> = Vec::new();
        fds.push((self.listener_fd, Interest::Read));
        proof {
            assert(fds@ =~= self.spec_pollfds());
        }
        fds
    }

    /// Handles readiness on the listening socket, given the outcome of the
    /// accept call: an accepted connection becomes a sibling HTTP session
    /// over the new descriptor; a failed accept is reported and the listener
    /// stays as it is.
    pub fn incoming(&mut self, accepted: Option<i32>) -> (r: ProtocolEvent)
        ensures
            final(self).listener_fd == old(self).listener_fd,
            match accepted {
                Some(fd) => {
                    &&& r matches ProtocolEvent::AddSibling(s)
                    &&& *s matches Session::Http(h)
                    &&& h.stream_fd == fd
                    &&& h.stream_buffer@ == Seq::<u8>::empty()
                },
                None => r is Error,
            },
    {
        match accepted {
            Some(fd) => ProtocolEvent::AddSibling(Box::new(Session::Http(HttpSession::new(fd)))),
            None => ProtocolEvent::Error(String::from_str("couldn't accept client")),
        }
    }
}

} // verus!
