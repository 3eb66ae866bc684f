//! Flow identities: the full 5-tuple of one direction of a TCP connection, and
//! the reduced identity that leaves out the source port.

use vstd::prelude::*;

verus! {

/// The destination port of the flows this station inspects.
pub const TLS_PORT: u16 = 443;

/// An IP address, by family. The two families are not normalised to a common
/// form: an IPv4 address and its IPv6-mapped form are different addresses.
#[derive(Clone, Copy, Debug, PartialEq, Eq, Structural, Hash)]
pub enum IpAddress {
    V4(u32),
    V6(u128),
}

/// One direction of one TCP connection.
#[derive(Clone, Copy, Debug, PartialEq, Eq, Structural, Hash)]
pub struct Flow {
    pub src_ip: IpAddress,
    pub src_port: u16,
    pub dst_ip: IpAddress,
    pub dst_port: u16,
}

/// A flow without its source port, so that later traffic of the same session
/// on another source port still matches.
#[derive(Clone, Copy, Debug, PartialEq, Eq, Structural, Hash)]
pub struct FlowNoSrcPort {
    pub src_ip: IpAddress,
    pub dst_ip: IpAddress,
    pub dst_port: u16,
}

impl Flow {
    pub fn new(src_ip: IpAddress, src_port: u16, dst_ip: IpAddress, dst_port: u16) -> (r: Flow)
        ensures
            r == (Flow { src_ip, src_port, dst_ip, dst_port }),
    {
        Flow { src_ip, src_port, dst_ip, dst_port }
    }
}

/// The reduced identity of a flow.
pub open spec fn reduce(f: Flow) -> FlowNoSrcPort {
    FlowNoSrcPort { src_ip: f.src_ip, dst_ip: f.dst_ip, dst_port: f.dst_port }
}

impl FlowNoSrcPort {
    pub fn from_flow(f: &Flow) -> (r: FlowNoSrcPort)
        ensures
            r == reduce(*f),
    {
        FlowNoSrcPort { src_ip: f.src_ip, dst_ip: f.dst_ip, dst_port: f.dst_port }
    }

    pub fn from_parts(src_ip: IpAddress, dst_ip: IpAddress, dst_port: u16) -> (r: FlowNoSrcPort)
        ensures
            r == (FlowNoSrcPort { src_ip, dst_ip, dst_port }),
    {
        FlowNoSrcPort { src_ip, dst_ip, dst_port }
    }
}

} // verus!
