//! How the two servers' pipe transports find each other.

use vstd::prelude::*;

verus! {

/// What a pipe transport reports of its own socket: the address and port it
/// listens on.
pub struct PipeTuple {
    pub local_address: String,
    pub local_port: u16,
}

/// The address and port a pipe connects to, given the tuple that the other
/// server's pipe reported: where that pipe listens.
pub fn pipe_connect_target(other: PipeTuple) -> (r: (String, u16))
    ensures
        r.0 == other.local_address,
        r.1 == other.local_port,
{
    (other.local_address, other.local_port)
}

} // verus!
