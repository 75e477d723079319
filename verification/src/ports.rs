//! The search for a free local port.

use vstd::prelude::*;

verus! {

/// Searches for a free port from `start_port` up. Each port is probed once,
/// in rising order, until a probe succeeds; `None` where every port up to the
/// last one was probed in vain.
pub fn find_available_port<F: Fn(u16) -> bool>(start_port: u16, is_free: F) -> (r: Option<u16>)
    requires
        forall|p: u16| is_free.requires((p,)),
    ensures
        match r {
            Some(p) => start_port <= p && is_free.ensures((p,), true) && forall|q: u16|
                start_port <= q < p ==> is_free.ensures((q,), false),
            None => forall|q: u16| start_port <= q ==> is_free.ensures((q,), false),
        },
{
    let mut port: u16 = start_port;
    loop
        invariant
            start_port <= port,
            forall|p: u16| is_free.requires((p,)),
            forall|q: u16| start_port <= q < port ==> is_free.ensures((q,), false),
        decreases u16::MAX - port,
    {
        if is_free(port) {
            return Some(port);
        }
        if port == u16::MAX {
            return None;
        }
        port = port + 1;
    }
}

} // verus!
