//! Frame dissection: from the bytes of one Ethernet frame to an IPv4 or IPv6
//! packet, with at most one VLAN tag in between.

use crate::flow::{Flow, IpAddress};
use pnet::packet::ethernet::EthernetPacket;
use pnet::packet::ipv4::Ipv4Packet;
use pnet::packet::ipv6::Ipv6Packet;
use pnet::packet::tcp::TcpPacket;
use pnet::packet::Packet;
use vstd::prelude::*;
use vstd::slice::{slice_subrange, slice_to_vec};

verus! {

/// Ethertype of an IPv4 payload.
pub const ETHERTYPE_IPV4: u16 = 0x0800;

/// Ethertype of an IPv6 payload.
pub const ETHERTYPE_IPV6: u16 = 0x86dd;

/// Ethertype of a single 802.1Q VLAN tag.
pub const ETHERTYPE_VLAN: u16 = 0x8100;

/// Length of an Ethernet header: two addresses and the ethertype.
pub const ETHERNET_HEADER_LEN: usize = 14;

/// Smallest IPv4 header.
pub const IPV4_HEADER_LEN: usize = 20;

/// Fixed IPv6 header.
pub const IPV6_HEADER_LEN: usize = 40;

/// The 16-bit big-endian number held by two bytes.
pub open spec fn be16(hi: u8, lo: u8) -> u16 {
    (hi as int * 256 + lo as int) as u16
}

/// Mathematical view of a dissected IP packet: its family and its bytes,
/// header and payload as captured.
pub enum IpModel {
    V4(Seq<u8>),
    V6(Seq<u8>),
}

/// A dissected IP packet. The bytes start with the IP header and are at least
/// as long as the fixed header of their family.
pub enum IpPacket {
    V4(Vec<u8>),
    V6(Vec<u8>),
}

impl View for IpPacket {
    type V = IpModel;

    open spec fn view(&self) -> IpModel {
        match self {
            IpPacket::V4(b) => IpModel::V4(b@),
            IpPacket::V6(b) => IpModel::V6(b@),
        }
    }
}

impl IpModel {
    /// The IP bytes, whatever the family.
    pub open spec fn bytes(self) -> Seq<u8> {
        match self {
            IpModel::V4(b) => b,
            IpModel::V6(b) => b,
        }
    }
}

/// What an IP payload carried under `ethertype` dissects to.
pub open spec fn ip_of(ethertype: u16, body: Seq<u8>) -> Option<IpModel> {
    if ethertype == ETHERTYPE_IPV4 {
        if body.len() >= IPV4_HEADER_LEN { Some(IpModel::V4(body)) } else { None }
    } else if ethertype == ETHERTYPE_IPV6 {
        if body.len() >= IPV6_HEADER_LEN { Some(IpModel::V6(body)) } else { None }
    } else {
        None
    }
}

/// What a whole frame dissects to: the outer ethertype decides, unless it is a
/// VLAN tag, in which case the inner ethertype after the two tag bytes decides
/// and the four bytes of the tag are skipped.
pub open spec fn dissect(frame: Seq<u8>) -> Option<IpModel> {
    if frame.len() < ETHERNET_HEADER_LEN {
        None
    } else {
        let ethertype = be16(frame[12], frame[13]);
        let body = frame.subrange(ETHERNET_HEADER_LEN as int, frame.len() as int);
        if ethertype == ETHERTYPE_VLAN {
            if body.len() >= 4 {
                ip_of(be16(body[2], body[3]), body.subrange(4, body.len() as int))
            } else {
                None
            }
        } else {
            ip_of(ethertype, body)
        }
    }
}

/// The Ethernet header of a frame: its ethertype and the bytes after it.
pub struct EthernetView {
    pub ethertype: u16,
    pub payload: Vec<u8>,
}

/// Relies on pnet's `EthernetPacket::new`, which accepts a buffer of at least
/// 14 bytes, on `get_ethertype`, which reads bytes 12 and 13 big-endian, and
/// on `payload`, which is everything after those 14 bytes.
#[verifier::external_body]
fn ethernet_view(frame: &[u8]) -> (r: Option<EthernetView>)
    ensures
        frame@.len() >= ETHERNET_HEADER_LEN <==> r is Some,
        r matches Some(v) ==> v.ethertype == be16(frame@[12], frame@[13])
            && v.payload@ == frame@.subrange(ETHERNET_HEADER_LEN as int, frame@.len() as int),
{
    match EthernetPacket::new(frame) {
        Some(p) => Some(EthernetView { ethertype: p.get_ethertype().0, payload: p.payload().to_vec() }),
        None => None,
    }
}

/// IP protocol number of TCP.
pub const IP_PROTOCOL_TCP: u8 = 6;

/// Smallest TCP header.
pub const TCP_HEADER_LEN: usize = 20;

/// The unsigned number held by bytes in big-endian order.
pub open spec fn be_value(s: Seq<u8>) -> nat
    decreases s.len(),
{
    if s.len() == 0 {
        0
    } else {
        be_value(s.drop_last()) * 256 + s.last() as nat
    }
}

/// The bytes of `p` from `start` up to `upper`, cut at the end of `p`;
/// nothing where `start` is at or past that end.
pub open spec fn window(p: Seq<u8>, start: int, upper: int) -> Seq<u8> {
    if p.len() <= start {
        Seq::empty()
    } else {
        p.subrange(start, if upper < p.len() { upper } else { p.len() as int })
    }
}

/// The payload of an IPv4 packet: after the header (its length field, at
/// least 20 bytes), as long as the total length leaves for it.
pub open spec fn ipv4_payload(p: Seq<u8>) -> Seq<u8> {
    let header_len = (p[0] % 16) as int * 4;
    let start = if header_len > 20 { header_len } else { 20 };
    let total = be16(p[2], p[3]) as int;
    let payload_len = if total > header_len { total - header_len } else { 0 };
    window(p, start, start + payload_len)
}

/// The payload of an IPv6 packet: after the fixed header, as long as its
/// payload-length field says.
pub open spec fn ipv6_payload(p: Seq<u8>) -> Seq<u8> {
    window(p, 40, 40 + be16(p[4], p[5]) as int)
}

/// The payload of a TCP segment: after the header (its data offset, at least
/// 20 bytes), to the end.
pub open spec fn tcp_payload(s: Seq<u8>) -> Seq<u8> {
    let offset = (s[12] / 16) as int * 4;
    let start = if offset > 20 { offset } else { 20 };
    window(s, start, s.len() as int)
}

/// The fields of an IP header that the flow logic reads.
pub struct IpHeader {
    pub protocol: u8,
    pub source: IpAddress,
    pub destination: IpAddress,
    pub payload: Vec<u8>,
}

/// Relies on pnet's `Ipv4Packet::new`, which accepts a buffer of at least 20
/// bytes, on its getters, which read the protocol at byte 9 and the addresses
/// at bytes 12..16 and 16..20, and on `payload`, which pnet bounds by the
/// header-length and total-length fields and cuts at the buffer's end.
#[verifier::external_body]
fn ipv4_header(p: &[u8]) -> (r: Option<IpHeader>)
    ensures
        p@.len() >= IPV4_HEADER_LEN <==> r is Some,
        r matches Some(h) ==> h.protocol == p@[9]
            && h.source == IpAddress::V4(be_value(p@.subrange(12, 16)) as u32)
            && h.destination == IpAddress::V4(be_value(p@.subrange(16, 20)) as u32)
            && h.payload@ == ipv4_payload(p@),
{
    match Ipv4Packet::new(p) {
        Some(q) => Some(IpHeader {
            protocol: q.get_next_level_protocol().0,
            source: IpAddress::V4(u32::from(q.get_source())),
            destination: IpAddress::V4(u32::from(q.get_destination())),
            payload: q.payload().to_vec(),
        }),
        None => None,
    }
}

/// Relies on pnet's `Ipv6Packet::new`, which accepts a buffer of at least 40
/// bytes, on its getters, which read the next header at byte 6 and the
/// addresses at bytes 8..24 and 24..40, and on `payload`, which pnet bounds
/// by the payload-length field and cuts at the buffer's end.
#[verifier::external_body]
fn ipv6_header(p: &[u8]) -> (r: Option<IpHeader>)
    ensures
        p@.len() >= IPV6_HEADER_LEN <==> r is Some,
        r matches Some(h) ==> h.protocol == p@[6]
            && h.source == IpAddress::V6(be_value(p@.subrange(8, 24)) as u128)
            && h.destination == IpAddress::V6(be_value(p@.subrange(24, 40)) as u128)
            && h.payload@ == ipv6_payload(p@),
{
    match Ipv6Packet::new(p) {
        Some(q) => Some(IpHeader {
            protocol: q.get_next_header().0,
            source: IpAddress::V6(u128::from(q.get_source())),
            destination: IpAddress::V6(u128::from(q.get_destination())),
            payload: q.payload().to_vec(),
        }),
        None => None,
    }
}

/// Mathematical view of a TCP segment.
pub struct TcpModel {
    pub source: u16,
    pub destination: u16,
    pub flags: u8,
    pub payload: Seq<u8>,
}

/// The TCP fields that the flow logic reads.
pub struct TcpView {
    pub source: u16,
    pub destination: u16,
    pub flags: u8,
    pub payload: Vec<u8>,
}

impl View for TcpView {
    type V = TcpModel;

    open spec fn view(&self) -> TcpModel {
        TcpModel { source: self.source, destination: self.destination, flags: self.flags, payload: self.payload@ }
    }
}

/// What the bytes of a TCP segment dissect to.
pub open spec fn tcp_of(s: Seq<u8>) -> Option<TcpModel> {
    if s.len() >= TCP_HEADER_LEN {
        Some(TcpModel {
            source: be16(s[0], s[1]),
            destination: be16(s[2], s[3]),
            flags: s[13],
            payload: tcp_payload(s),
        })
    } else {
        None
    }
}

/// Relies on pnet's `TcpPacket::new`, which accepts a buffer of at least 20
/// bytes, on its getters, which read the ports at bytes 0..2 and 2..4 and the
/// flags at byte 13, and on `payload`, which starts after the data offset.
#[verifier::external_body]
fn tcp_view(s: &[u8]) -> (r: Option<TcpView>)
    ensures
        s@.len() >= TCP_HEADER_LEN <==> r is Some,
        r matches Some(t) ==> t.source == be16(s@[0], s@[1])
            && t.destination == be16(s@[2], s@[3])
            && t.flags == s@[13]
            && t.payload@ == tcp_payload(s@),
{
    match TcpPacket::new(s) {
        Some(t) => Some(TcpView {
            source: t.get_source(),
            destination: t.get_destination(),
            flags: t.get_flags(),
            payload: t.payload().to_vec(),
        }),
        None => None,
    }
}

impl IpModel {
    /// The IP bytes are long enough for the fixed header of their family.
    pub open spec fn wf(self) -> bool {
        match self {
            IpModel::V4(b) => b.len() >= IPV4_HEADER_LEN,
            IpModel::V6(b) => b.len() >= IPV6_HEADER_LEN,
        }
    }

    pub open spec fn protocol(self) -> u8 {
        match self {
            IpModel::V4(b) => b[9],
            IpModel::V6(b) => b[6],
        }
    }

    pub open spec fn source(self) -> IpAddress {
        match self {
            IpModel::V4(b) => IpAddress::V4(be_value(b.subrange(12, 16)) as u32),
            IpModel::V6(b) => IpAddress::V6(be_value(b.subrange(8, 24)) as u128),
        }
    }

    pub open spec fn destination(self) -> IpAddress {
        match self {
            IpModel::V4(b) => IpAddress::V4(be_value(b.subrange(16, 20)) as u32),
            IpModel::V6(b) => IpAddress::V6(be_value(b.subrange(24, 40)) as u128),
        }
    }

    pub open spec fn payload(self) -> Seq<u8> {
        match self {
            IpModel::V4(b) => ipv4_payload(b),
            IpModel::V6(b) => ipv6_payload(b),
        }
    }

    /// The TCP view of a packet whose transport is TCP.
    pub open spec fn tcp(self) -> Option<TcpModel> {
        if self.protocol() == IP_PROTOCOL_TCP { tcp_of(self.payload()) } else { None }
    }

    /// The flow that a packet with this TCP view belongs to.
    pub open spec fn flow(self, t: TcpModel) -> Flow {
        Flow { src_ip: self.source(), src_port: t.source, dst_ip: self.destination(), dst_port: t.destination }
    }
}

impl IpPacket {
    /// The header fields of the packet.
    pub fn header(&self) -> (r: IpHeader)
        requires
            self@.wf(),
        ensures
            r.protocol == self@.protocol(),
            r.source == self@.source(),
            r.destination == self@.destination(),
            r.payload@ == self@.payload(),
    {
        let h = match self {
            IpPacket::V4(b) => ipv4_header(b.as_slice()),
            IpPacket::V6(b) => ipv6_header(b.as_slice()),
        };
        match h {
            Some(h) => h,
            None => IpHeader { protocol: 0, source: IpAddress::V4(0), destination: IpAddress::V4(0), payload: Vec::new() },
        }
    }

    /// The TCP view of the packet, where its transport is TCP and the segment
    /// holds a TCP header.
    pub fn tcp(&self) -> (r: Option<TcpView>)
        requires
            self@.wf(),
        ensures
            r matches Some(t) ==> self@.tcp() == Some(t@),
            r is None ==> self@.tcp() is None,
    {
        let h = self.header();
        if h.protocol != IP_PROTOCOL_TCP {
            return None;
        }
        tcp_view(h.payload.as_slice())
    }

    /// The packet's bytes, header and payload as captured.
    pub fn packet(&self) -> (r: &Vec<u8>)
        ensures
            r@ == self@.bytes(),
    {
        match self {
            IpPacket::V4(b) => b,
            IpPacket::V6(b) => b,
        }
    }
}

/// The IP packet carried under `ethertype`, if it is IPv4 or IPv6 and long
/// enough for its header.
fn ip_packet_of(ethertype: u16, body: &[u8]) -> (r: Option<IpPacket>)
    ensures
        r matches Some(p) ==> ip_of(ethertype, body@) == Some(p@),
        r is None ==> ip_of(ethertype, body@) is None,
{
    if ethertype == ETHERTYPE_IPV4 && body.len() >= IPV4_HEADER_LEN {
        Some(IpPacket::V4(slice_to_vec(body)))
    } else if ethertype == ETHERTYPE_IPV6 && body.len() >= IPV6_HEADER_LEN {
        Some(IpPacket::V6(slice_to_vec(body)))
    } else {
        None
    }
}

/// Dissects one frame. Short frames and frames of any other ethertype give
/// `None`.
pub fn get_ip_packet(frame: &[u8]) -> (r: Option<IpPacket>)
    ensures
        r matches Some(p) ==> dissect(frame@) == Some(p@) && p@.wf(),
        r is None ==> dissect(frame@) is None,
{
    let eth = match ethernet_view(frame) {
        Some(e) => e,
        None => return None,
    };
    let payload = eth.payload.as_slice();
    if eth.ethertype == ETHERTYPE_VLAN {
        if payload.len() < 4 {
            return None;
        }
        let inner: u16 = (payload[2] as u16) * 256 + payload[3] as u16;
        let rest = slice_subrange(payload, 4, payload.len());
        ip_packet_of(inner, rest)
    } else {
        ip_packet_of(eth.ethertype, payload)
    }
}

/// No buffer shorter than an Ethernet header and the smallest IP header
/// dissects to a packet.
pub proof fn lemma_short_frame_no_result(frame: Seq<u8>)
    requires
        frame.len() < ETHERNET_HEADER_LEN + IPV4_HEADER_LEN,
    ensures
        dissect(frame) is None,
{
}

/// A VLAN-tagged IPv4 frame dissects to the same packet as the frame with the
/// tag taken out and the inner ethertype put in the outer one's place.
pub proof fn lemma_vlan_ipv4_same_view(tagged: Seq<u8>, untagged: Seq<u8>)
    requires
        tagged.len() >= 18,
        be16(tagged[12], tagged[13]) == ETHERTYPE_VLAN,
        be16(tagged[16], tagged[17]) == ETHERTYPE_IPV4,
        untagged == tagged.subrange(0, 12) + seq![0x08u8, 0x00u8] + tagged.subrange(18, tagged.len() as int),
    ensures
        dissect(tagged) == dissect(untagged),
{
    let ip = tagged.subrange(18, tagged.len() as int);
    let body = tagged.subrange(14, tagged.len() as int);
    assert(body.subrange(4, body.len() as int) =~= ip);
    assert(untagged[12] == 0x08u8 && untagged[13] == 0x00u8);
    assert(untagged.subrange(14, untagged.len() as int) =~= ip);
}

} // verus!
