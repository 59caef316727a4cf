//! Settings of the media servers: where media transports listen, how many
//! workers run and which of them hosts a new room.

use vstd::prelude::*;

verus! {

/// Transport protocol of a listening socket.
#[derive(PartialEq, Eq, Structural, Debug, Clone, Copy)]
pub enum TransportProtocol {
    Tcp,
    Udp,
}

/// Where a media transport listens.
pub struct ListenConfig {
    pub protocol: TransportProtocol,
    /// IPv4 address bound to.
    pub ip: [u8; 4],
    /// Address announced to clients in place of `ip`.
    pub announced_address: Option<String>,
    pub expose_internal_ip: bool,
    /// A fixed port, when not taken from `port_range`.
    pub port: Option<u16>,
    /// Inclusive range of ports to pick from.
    pub port_range: Option<(u16, u16)>,
}

/// TCP on `host_ip`, announced to clients as `announce`, on a port between 5170
/// and 5172.
pub fn listen_config(host_ip: [u8; 4], announce: String) -> (c: ListenConfig)
    ensures
        c.protocol == TransportProtocol::Tcp,
        c.ip == host_ip,
        c.announced_address == Some(announce),
        !c.expose_internal_ip,
        c.port is None,
        c.port_range == Some((5170u16, 5172u16)),
{
    ListenConfig {
        protocol: TransportProtocol::Tcp,
        ip: host_ip,
        announced_address: Some(announce),
        expose_internal_ip: false,
        port: None,
        port_range: Some((5170u16, 5172u16)),
    }
}

/// Number of media workers to start: the configured number, where 0 stands for
/// one per CPU.
pub fn worker_count(configured: u16, cpus: usize) -> (n: usize)
    ensures
        n == (if configured == 0 {
            cpus
        } else {
            configured as usize
        }),
{
    if configured == 0 {
        cpus
    } else {
        configured as usize
    }
}

/// The worker, among `pool_len`, that hosts a new room: the first one.
pub fn worker_for_new_room(pool_len: usize) -> (w: Option<usize>)
    ensures
        w == (if pool_len > 0 {
            Some(0usize)
        } else {
            None
        }),
{
    if pool_len > 0 {
        Some(0)
    } else {
        None
    }
}

} // verus!
