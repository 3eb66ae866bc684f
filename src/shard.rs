//! One shard's packet processing: counters, the flow tracker, and the decision
//! taken for each captured frame. Outside work (the decode primitive, the
//! destination selection, the notification channel and the virtual interface)
//! is done by the caller, which receives a `TlsAction` and hands back results.

use crate::dissect::{dissect, get_ip_packet, IpModel, IpPacket, TcpView, IP_PROTOCOL_TCP};
use crate::flow::{reduce, Flow, FlowNoSrcPort, IpAddress, TLS_PORT};
use crate::tracker::{has_key, lemma_touched_has_key, removed, swept, touched, FlowTracker};
use vstd::prelude::*;

verus! {

/// Record type of a TLS application-data record.
pub const TLS_TYPE_APPLICATION_DATA: u8 = 0x17;

pub const TCP_FLAG_FIN: u8 = 0x01;
pub const TCP_FLAG_SYN: u8 = 0x02;
pub const TCP_FLAG_RST: u8 = 0x04;
pub const TCP_FLAG_ACK: u8 = 0x10;

/// A SYN without ACK: the opening of a connection.
pub open spec fn is_bare_syn(flags: u8) -> bool {
    flags & TCP_FLAG_SYN != 0 && flags & TCP_FLAG_ACK == 0
}

/// A RST or a FIN: the end of a connection.
pub open spec fn is_close(flags: u8) -> bool {
    flags & TCP_FLAG_RST != 0 || flags & TCP_FLAG_FIN != 0
}

/// The cheap test for a TLS application-data record: more than five bytes,
/// the first of them the application-data record type.
pub open spec fn is_tls_app_data(payload: Seq<u8>) -> bool {
    payload.len() > 5 && payload[0] == TLS_TYPE_APPLICATION_DATA
}

/// The link-layer header that the virtual interface expects before an IP packet.
pub open spec fn tun_header() -> Seq<u8> {
    seq![0x00u8, 0x01u8, 0x08u8, 0x00u8]
}

/// Byte `k` (0 the most significant) of the 16 big-endian bytes of `x`.
pub open spec fn be_byte(x: u128, k: int) -> u8 {
    ((x >> ((8 * (15 - k)) as u128)) & 0xff) as u8
}

/// The 16-byte form of an address: an IPv6 address as is, an IPv4 address
/// IPv6-mapped (ten zero bytes, two 0xff bytes, the four octets).
pub open spec fn addr_bytes(a: IpAddress) -> Seq<u8> {
    match a {
        IpAddress::V6(x) => Seq::new(16, |k: int| be_byte(x, k)),
        IpAddress::V4(x) => Seq::new(
            16,
            |k: int|
                if k < 10 {
                    0u8
                } else if k < 12 {
                    0xffu8
                } else {
                    be_byte(x as u128, k)
                },
        ),
    }
}

/// The notification for a decoded tag: the seed, then the selected address.
pub open spec fn tag_message_of(seed: Seq<u8>, dst: IpAddress) -> Seq<u8> {
    seed + addr_bytes(dst)
}

/// A counter one higher, held at its largest value.
pub open spec fn bump(x: u64) -> u64 {
    if x < u64::MAX { (x + 1) as u64 } else { x }
}

/// A counter `n` higher, held at its largest value.
pub open spec fn bump_by(x: u64, n: int) -> u64 {
    if x + n <= u64::MAX { (x + n) as u64 } else { u64::MAX }
}

fn incr(x: u64) -> (r: u64)
    ensures
        r == bump(x),
{
    if x < u64::MAX { x + 1 } else { x }
}

fn incr_by(x: u64, n: u64) -> (r: u64)
    ensures
        r == bump_by(x, n as int),
{
    if x <= u64::MAX - n { x + n } else { u64::MAX }
}

/// The counters of one reporting period.
#[derive(Clone, Copy, Debug, PartialEq, Eq, Structural)]
pub struct Stats {
    pub packets_this_period: u64,
    pub bytes_this_period: u64,
    pub ipv4_packets_this_period: u64,
    pub ipv6_packets_this_period: u64,
    pub tcp_packets_this_period: u64,
    pub tls_packets_this_period: u64,
    pub tls_bytes_this_period: u64,
    pub port_443_syns_this_period: u64,
    pub elligator_this_period: u64,
}

impl Stats {
    /// All counters at zero.
    pub open spec fn default_stats() -> Stats {
        Stats {
            packets_this_period: 0,
            bytes_this_period: 0,
            ipv4_packets_this_period: 0,
            ipv6_packets_this_period: 0,
            tcp_packets_this_period: 0,
            tls_packets_this_period: 0,
            tls_bytes_this_period: 0,
            port_443_syns_this_period: 0,
            elligator_this_period: 0,
        }
    }

    /// All counters at zero, as at the start of a period.
    pub fn zero() -> (r: Stats)
        ensures
            r == Stats::default_stats(),
    {
        Stats {
            packets_this_period: 0,
            bytes_this_period: 0,
            ipv4_packets_this_period: 0,
            ipv6_packets_this_period: 0,
            tcp_packets_this_period: 0,
            tls_packets_this_period: 0,
            tls_bytes_this_period: 0,
            port_443_syns_this_period: 0,
            elligator_this_period: 0,
        }
    }
}

/// What the caller does after one packet.
pub enum TlsAction {
    /// Nothing further.
    Ignore,
    /// Send these bytes to the virtual interface.
    Forward(Vec<u8>),
    /// Attempt one decode of this payload for this flow, then report the
    /// outcome through `check_dark_decoy_tag`.
    Inspect(Flow, Vec<u8>),
}

/// One shard's state.
pub struct PerCoreGlobal {
    pub stats: Stats,
    pub flow_tracker: FlowTracker,
}

/// The frame that forwards an IP packet: the link-layer header, then the IP
/// bytes unchanged.
pub fn forward_pkt(ip_pkt: &IpPacket) -> (r: Vec<u8>)
    ensures
        r@ == tun_header() + ip_pkt@.bytes(),
{
    let data = ip_pkt.packet();
    let mut out: Vec<u8> = vec![0x00u8, 0x01u8, 0x08u8, 0x00u8];
    let mut i: usize = 0;
    while i < data.len()
        invariant
            i <= data@.len(),
            out@ == tun_header() + data@.subrange(0, i as int),
        decreases data@.len() - i,
    {
        out.push(data[i]);
        i = i + 1;
        proof {
            assert(data@.subrange(0, i as int) =~= data@.subrange(0, i - 1).push(data@[i - 1]));
        }
    }
    proof {
        assert(data@.subrange(0, data@.len() as int) =~= data@);
    }
    out
}

/// The 16-byte form of an address.
pub fn addr_to_bytes(a: IpAddress) -> (r: Vec<u8>)
    ensures
        r@ == addr_bytes(a),
{
    let mut out: Vec<u8> = Vec::new();
    let mut k: usize = 0;
    while k < 16
        invariant
            k <= 16,
            out@.len() == k,
            forall|j: int| 0 <= j < k ==> out@[j] == addr_bytes(a)[j],
        decreases 16 - k,
    {
        let b: u8 = match a {
            IpAddress::V6(x) => ((x >> ((8 * (15 - k)) as u128)) & 0xff) as u8,
            IpAddress::V4(x) => {
                if k < 10 {
                    0u8
                } else if k < 12 {
                    0xffu8
                } else {
                    (((x as u128) >> ((8 * (15 - k)) as u128)) & 0xff) as u8
                }
            },
        };
        out.push(b);
        k = k + 1;
    }
    proof {
        assert(out@ =~= addr_bytes(a));
    }
    out
}

/// The notification for a decoded tag: bytes 0..16 the seed, bytes 16..32
/// the selected address in its 16-byte form.
pub fn tag_message(seed: &[u8; 16], dst: IpAddress) -> (r: Vec<u8>)
    ensures
        r@ == tag_message_of(seed@, dst),
        r@.len() == 32,
{
    let mut msg: Vec<u8> = Vec::new();
    let mut k: usize = 0;
    while k < 16
        invariant
            k <= 16,
            seed@.len() == 16,
            msg@ == seed@.subrange(0, k as int),
        decreases 16 - k,
    {
        msg.push(seed[k]);
        k = k + 1;
        proof {
            assert(seed@.subrange(0, k as int) =~= seed@.subrange(0, k - 1).push(seed@[k - 1]));
        }
    }
    let ab = addr_to_bytes(dst);
    let mut j: usize = 0;
    while j < 16
        invariant
            j <= 16,
            seed@.len() == 16,
            ab@ == addr_bytes(dst),
            ab@.len() == 16,
            msg@ == seed@ + ab@.subrange(0, j as int),
        decreases 16 - j,
    {
        msg.push(ab[j]);
        j = j + 1;
        proof {
            assert(ab@.subrange(0, j as int) =~= ab@.subrange(0, j - 1).push(ab@[j - 1]));
        }
    }
    proof {
        assert(seed@.subrange(0, 16) =~= seed@);
        assert(ab@.subrange(0, 16) =~= ab@);
    }
    msg
}

/// The cheap application-data test on a TCP segment's payload.
pub fn is_tls_app_pkt(tcp_pkt: &TcpView) -> (r: bool)
    ensures
        r == is_tls_app_data(tcp_pkt.payload@),
{
    tcp_pkt.payload.len() > 5 && tcp_pkt.payload[0] == TLS_TYPE_APPLICATION_DATA
}

/// Nothing of the tracker changed.
pub open spec fn same_tracker(a: FlowTracker, b: FlowTracker) -> bool {
    a.pending == b.pending && a.tagged == b.tagged && a.pending_idle == b.pending_idle
        && a.tagged_idle == b.tagged_idle
}

/// What handling one port-443 packet `ip` at `now` does, from tracker `t0`
/// and counters `s0` to tracker `t1` and counters `s1`, with result `r`.
///
/// A tagged reduced identity comes first: the packet is forwarded and the tag
/// refreshed. Otherwise a bare SYN admits the flow as pending, a RST or FIN
/// removes it, and a packet of a pending flow that passes the
/// application-data test is handed out for its one decode attempt and leaves
/// the pending namespace. Anything else changes nothing.
pub open spec fn tls_outcome(
    t0: FlowTracker,
    s0: Stats,
    t1: FlowTracker,
    s1: Stats,
    ip: IpModel,
    now: u64,
    r: TlsAction,
) -> bool {
    match ip.tcp() {
        None => same_tracker(t0, t1) && s1 == s0 && r is Ignore,
        Some(t) => {
            let flow = ip.flow(t);
            let dd = reduce(flow);
            &&& t1.pending_idle == t0.pending_idle
            &&& t1.tagged_idle == t0.tagged_idle
            &&& if has_key(t0.tagged@, dd) {
                &&& r matches TlsAction::Forward(v) && v@ == tun_header() + ip.bytes()
                &&& touched(t0.tagged@, t1.tagged@, dd, now)
                &&& t1.pending == t0.pending
                &&& s1 == s0
            } else if is_bare_syn(t.flags) {
                &&& r is Ignore
                &&& touched(t0.pending@, t1.pending@, flow, now)
                &&& t1.tagged == t0.tagged
                &&& s1 == (Stats { port_443_syns_this_period: bump(s0.port_443_syns_this_period), ..s0 })
            } else if is_close(t.flags) {
                &&& r is Ignore
                &&& removed(t0.pending@, t1.pending@, flow)
                &&& !has_key(t0.pending@, flow) ==> t1.pending@ == t0.pending@
                &&& t1.tagged == t0.tagged
                &&& s1 == s0
            } else if has_key(t0.pending@, flow) && is_tls_app_data(t.payload) {
                &&& r matches TlsAction::Inspect(f, p) && f == flow && p@ == t.payload
                &&& removed(t0.pending@, t1.pending@, flow)
                &&& t1.tagged == t0.tagged
                &&& s1 == (Stats { elligator_this_period: bump(s0.elligator_this_period), ..s0 })
            } else {
                same_tracker(t0, t1) && s1 == s0 && r is Ignore
            }
        },
    }
}

/// What handling one dissected IP packet `ip` does, once its family's counter
/// has been counted into `s0`: anything but TCP to port 443 is ignored, with
/// TCP segments counted; TCP to port 443 is counted with the frame's length
/// and then handled as `tls_outcome` says.
pub open spec fn ip_outcome(
    t0: FlowTracker,
    s0: Stats,
    t1: FlowTracker,
    s1: Stats,
    ip: IpModel,
    frame_len: usize,
    now: u64,
    r: TlsAction,
) -> bool {
    match ip.tcp() {
        None => same_tracker(t0, t1) && s1 == s0 && r is Ignore,
        Some(t) => {
            let s_tcp = Stats { tcp_packets_this_period: bump(s0.tcp_packets_this_period), ..s0 };
            if t.destination != TLS_PORT {
                same_tracker(t0, t1) && s1 == s_tcp && r is Ignore
            } else {
                let s_tls = Stats {
                    tls_packets_this_period: bump(s_tcp.tls_packets_this_period),
                    tls_bytes_this_period: bump_by(s_tcp.tls_bytes_this_period, frame_len as int),
                    ..s_tcp
                };
                tls_outcome(t0, s_tls, t1, s1, ip, now, r)
            }
        },
    }
}

/// What handling one captured frame does: it is counted with its length, then
/// an IPv4 or IPv6 packet is counted by family and handled as `ip_outcome`
/// says; a frame that dissects to nothing changes nothing more.
pub open spec fn frame_outcome(
    t0: FlowTracker,
    s0: Stats,
    t1: FlowTracker,
    s1: Stats,
    frame: Seq<u8>,
    now: u64,
    r: TlsAction,
) -> bool {
    let s = Stats {
        packets_this_period: bump(s0.packets_this_period),
        bytes_this_period: bump_by(s0.bytes_this_period, frame.len() as int),
        ..s0
    };
    match dissect(frame) {
        None => same_tracker(t0, t1) && s1 == s && r is Ignore,
        Some(ip) => match ip {
            IpModel::V4(_) => ip_outcome(
                t0,
                Stats { ipv4_packets_this_period: bump(s.ipv4_packets_this_period), ..s },
                t1,
                s1,
                ip,
                frame.len() as usize,
                now,
                r,
            ),
            IpModel::V6(_) => ip_outcome(
                t0,
                Stats { ipv6_packets_this_period: bump(s.ipv6_packets_this_period), ..s },
                t1,
                s1,
                ip,
                frame.len() as usize,
                now,
                r,
            ),
        },
    }
}

/// The notification for an IPv4 destination is the seed, ten zero bytes, two
/// 0xff bytes, then the address's four octets, most significant first.
pub proof fn lemma_ipv4_tag_message_layout(seed: Seq<u8>, x: u32)
    requires
        seed.len() == 16,
    ensures
        tag_message_of(seed, IpAddress::V4(x)).len() == 32,
        tag_message_of(seed, IpAddress::V4(x)).subrange(0, 16) == seed,
        forall|k: int| 16 <= k < 26 ==> #[trigger] tag_message_of(seed, IpAddress::V4(x))[k] == 0u8,
        tag_message_of(seed, IpAddress::V4(x))[26] == 0xffu8,
        tag_message_of(seed, IpAddress::V4(x))[27] == 0xffu8,
        tag_message_of(seed, IpAddress::V4(x))[28] == (x >> 24u32) as u8,
        tag_message_of(seed, IpAddress::V4(x))[29] == ((x >> 16u32) & 0xff) as u8,
        tag_message_of(seed, IpAddress::V4(x))[30] == ((x >> 8u32) & 0xff) as u8,
        tag_message_of(seed, IpAddress::V4(x))[31] == (x & 0xff) as u8,
{
    let m = tag_message_of(seed, IpAddress::V4(x));
    assert(m.subrange(0, 16) =~= seed);
    let w = x as u128;
    assert(((w >> 24u128) & 0xff) as u8 == (x >> 24u32) as u8) by (bit_vector)
        requires w == x as u128;
    assert(((w >> 16u128) & 0xff) as u8 == ((x >> 16u32) & 0xff) as u8) by (bit_vector)
        requires w == x as u128;
    assert(((w >> 8u128) & 0xff) as u8 == ((x >> 8u32) & 0xff) as u8) by (bit_vector)
        requires w == x as u128;
    assert(((w >> 0u128) & 0xff) as u8 == (x & 0xff) as u8) by (bit_vector)
        requires w == x as u128;
    assert(m[28] == be_byte(w, 12));
    assert(m[29] == be_byte(w, 13));
    assert(m[30] == be_byte(w, 14));
    assert(m[31] == be_byte(w, 15));
}

/// A bare SYN to port 443 admits its flow as pending, and a later RST or FIN
/// of the same 5-tuple removes it again (neither carrying a tagged reduced
/// identity, the close not itself a bare SYN).
pub proof fn lemma_syn_then_close(
    t0: FlowTracker,
    s0: Stats,
    t1: FlowTracker,
    s1: Stats,
    syn: IpModel,
    now1: u64,
    r1: TlsAction,
    t2: FlowTracker,
    s2: Stats,
    close: IpModel,
    now2: u64,
    r2: TlsAction,
)
    requires
        tls_outcome(t0, s0, t1, s1, syn, now1, r1),
        tls_outcome(t1, s1, t2, s2, close, now2, r2),
        syn.tcp() matches Some(a) && is_bare_syn(a.flags),
        close.tcp() matches Some(b) && is_close(b.flags) && !is_bare_syn(b.flags),
        syn.flow(syn.tcp().unwrap()) == close.flow(close.tcp().unwrap()),
        !has_key(t0.tagged@, reduce(syn.flow(syn.tcp().unwrap()))),
    ensures
        !has_key(t0.pending@, syn.flow(syn.tcp().unwrap())) ==> r1 is Ignore,
        has_key(t1.pending@, syn.flow(syn.tcp().unwrap())),
        !has_key(t2.pending@, syn.flow(syn.tcp().unwrap())),
        r2 is Ignore,
{
    let flow = syn.flow(syn.tcp().unwrap());
    lemma_touched_has_key(t0.pending@, t1.pending@, flow, now1);
}

/// Any packet other than a bare SYN, of a flow that is neither pending nor
/// tagged by its reduced identity, changes nothing and asks for nothing.
pub proof fn lemma_absent_flow_no_op(
    t0: FlowTracker,
    s0: Stats,
    t1: FlowTracker,
    s1: Stats,
    ip: IpModel,
    now: u64,
    r: TlsAction,
)
    requires
        tls_outcome(t0, s0, t1, s1, ip, now, r),
        ip.tcp() matches Some(t) && !is_bare_syn(t.flags),
        !has_key(t0.pending@, ip.flow(ip.tcp().unwrap())),
        !has_key(t0.tagged@, reduce(ip.flow(ip.tcp().unwrap()))),
    ensures
        t1.pending@ == t0.pending@,
        t1.tagged == t0.tagged,
        s1 == s0,
        r is Ignore,
{
}

/// The first application-data packet of a pending flow is handed out for one
/// decode attempt and the flow leaves the pending namespace; a second such
/// packet of the same 5-tuple is not handed out again.
pub proof fn lemma_one_decode_attempt(
    t0: FlowTracker,
    s0: Stats,
    t1: FlowTracker,
    s1: Stats,
    first: IpModel,
    now1: u64,
    r1: TlsAction,
    t2: FlowTracker,
    s2: Stats,
    second: IpModel,
    now2: u64,
    r2: TlsAction,
)
    requires
        tls_outcome(t0, s0, t1, s1, first, now1, r1),
        tls_outcome(t1, s1, t2, s2, second, now2, r2),
        first.tcp() matches Some(a) && is_tls_app_data(a.payload) && !is_bare_syn(a.flags) && !is_close(a.flags),
        second.tcp() matches Some(b) && is_tls_app_data(b.payload) && !is_bare_syn(b.flags) && !is_close(b.flags),
        first.flow(first.tcp().unwrap()) == second.flow(second.tcp().unwrap()),
        has_key(t0.pending@, first.flow(first.tcp().unwrap())),
        !has_key(t0.tagged@, reduce(first.flow(first.tcp().unwrap()))),
    ensures
        r1 matches TlsAction::Inspect(f, p) && f == first.flow(first.tcp().unwrap()) && p@ == first.tcp().unwrap().payload,
        s1.elligator_this_period == bump(s0.elligator_this_period),
        !has_key(t1.pending@, first.flow(first.tcp().unwrap())),
        !(r2 is Inspect),
        s2.elligator_this_period == s1.elligator_this_period,
{
}

/// Every packet whose reduced identity is tagged is forwarded, whatever its
/// flags: the link-layer header, then its IP bytes unchanged; and the tag
/// stays.
pub proof fn lemma_tagged_always_forwarded(
    t0: FlowTracker,
    s0: Stats,
    t1: FlowTracker,
    s1: Stats,
    ip: IpModel,
    now: u64,
    r: TlsAction,
)
    requires
        tls_outcome(t0, s0, t1, s1, ip, now, r),
        ip.tcp() is Some,
        has_key(t0.tagged@, reduce(ip.flow(ip.tcp().unwrap()))),
    ensures
        r matches TlsAction::Forward(v) && v@ == tun_header() + ip.bytes(),
        has_key(t1.tagged@, reduce(ip.flow(ip.tcp().unwrap()))),
        t1.pending == t0.pending,
{
    lemma_touched_has_key(t0.tagged@, t1.tagged@, reduce(ip.flow(ip.tcp().unwrap())), now);
}

impl PerCoreGlobal {
    pub open spec fn wf(&self) -> bool {
        self.flow_tracker.wf()
    }

    /// A shard with zeroed counters and empty namespaces.
    pub fn new(pending_idle: u64, tagged_idle: u64) -> (r: PerCoreGlobal)
        ensures
            r.wf(),
            r.stats == Stats::default_stats(),
            r.flow_tracker.pending@.len() == 0,
            r.flow_tracker.tagged@.len() == 0,
            r.flow_tracker.pending_idle == pending_idle,
            r.flow_tracker.tagged_idle == tagged_idle,
    {
        PerCoreGlobal { stats: Stats::zero(), flow_tracker: FlowTracker::new(pending_idle, tagged_idle) }
    }

    /// Handles one packet to port 443. Packets that carry no TCP view are
    /// ignored.
    pub fn process_tls_pkt(&mut self, ip_pkt: &IpPacket, now: u64) -> (r: TlsAction)
        requires
            old(self).wf(),
            ip_pkt@.wf(),
        ensures
            final(self).wf(),
            tls_outcome(old(self).flow_tracker, old(self).stats, final(self).flow_tracker, final(self).stats, ip_pkt@, now, r),
    {
        let tcp_pkt = match ip_pkt.tcp() {
            Some(t) => t,
            None => return TlsAction::Ignore,
        };
        let h = ip_pkt.header();
        let flow = Flow::new(h.source, tcp_pkt.source, h.destination, tcp_pkt.destination);
        let dd_flow = FlowNoSrcPort::from_flow(&flow);

        if self.flow_tracker.is_registered_dark_decoy(&dd_flow) {
            self.flow_tracker.mark_dark_decoy(&dd_flow, now);
            return TlsAction::Forward(forward_pkt(ip_pkt));
        }

        let tcp_flags = tcp_pkt.flags;
        if (tcp_flags & TCP_FLAG_SYN) != 0 && (tcp_flags & TCP_FLAG_ACK) == 0 {
            self.stats.port_443_syns_this_period = incr(self.stats.port_443_syns_this_period);
            self.flow_tracker.begin_tracking_flow(&flow, now);
            return TlsAction::Ignore;
        } else if (tcp_flags & TCP_FLAG_RST) != 0 || (tcp_flags & TCP_FLAG_FIN) != 0 {
            self.flow_tracker.stop_tracking_flow(&flow);
            return TlsAction::Ignore;
        }

        if !self.flow_tracker.is_tracked_flow(&flow) {
            return TlsAction::Ignore;
        }

        if is_tls_app_pkt(&tcp_pkt) {
            self.stats.elligator_this_period = incr(self.stats.elligator_this_period);
            self.flow_tracker.stop_tracking_flow(&flow);
            TlsAction::Inspect(flow, tcp_pkt.payload)
        } else {
            TlsAction::Ignore
        }
    }

    /// Completes the one decode attempt of `flow`: `selected` is the
    /// destination that selection gave for the decoded `seed`, if it gave
    /// one. With a destination, the reduced identity from the flow's source
    /// to that destination on port 443 becomes tagged, and the notification
    /// to publish is returned.
    pub fn check_dark_decoy_tag(
        &mut self,
        flow: &Flow,
        seed: &[u8; 16],
        selected: Option<IpAddress>,
        now: u64,
    ) -> (r: Option<Vec<u8>>)
        requires
            old(self).wf(),
        ensures
            final(self).wf(),
            final(self).stats == old(self).stats,
            final(self).flow_tracker.pending == old(self).flow_tracker.pending,
            final(self).flow_tracker.pending_idle == old(self).flow_tracker.pending_idle,
            final(self).flow_tracker.tagged_idle == old(self).flow_tracker.tagged_idle,
            match selected {
                None => r is None && final(self).flow_tracker.tagged == old(self).flow_tracker.tagged,
                Some(dst) => {
                    &&& r matches Some(m) && m@ == tag_message_of(seed@, dst)
                    &&& touched(
                        old(self).flow_tracker.tagged@,
                        final(self).flow_tracker.tagged@,
                        FlowNoSrcPort { src_ip: flow.src_ip, dst_ip: dst, dst_port: TLS_PORT },
                        now,
                    )
                },
            },
    {
        let dst_ip = match selected {
            Some(ip) => ip,
            None => return None,
        };
        let msg = tag_message(seed, dst_ip);
        let dd_flow = FlowNoSrcPort::from_parts(flow.src_ip, dst_ip, TLS_PORT);
        self.flow_tracker.mark_dark_decoy(&dd_flow, now);
        Some(msg)
    }

    /// Handles a TCP-to-443 candidate once its family has been counted.
    fn process_ip_tail(&mut self, ip_pkt: &IpPacket, frame_len: usize, now: u64) -> (r: TlsAction)
        requires
            old(self).wf(),
            ip_pkt@.wf(),
        ensures
            final(self).wf(),
            ip_outcome(old(self).flow_tracker, old(self).stats, final(self).flow_tracker, final(self).stats, ip_pkt@, frame_len, now, r),
    {
        let tcp_pkt = match ip_pkt.tcp() {
            Some(t) => t,
            None => return TlsAction::Ignore,
        };
        self.stats.tcp_packets_this_period = incr(self.stats.tcp_packets_this_period);
        if tcp_pkt.destination != TLS_PORT {
            return TlsAction::Ignore;
        }
        self.stats.tls_packets_this_period = incr(self.stats.tls_packets_this_period);
        self.stats.tls_bytes_this_period = incr_by(self.stats.tls_bytes_this_period, frame_len as u64);
        self.process_tls_pkt(ip_pkt, now)
    }

    /// Handles one IPv4 packet of a frame `frame_len` bytes long.
    pub fn process_ipv4_packet(&mut self, ip_pkt: &IpPacket, frame_len: usize, now: u64) -> (r: TlsAction)
        requires
            old(self).wf(),
            ip_pkt@.wf(),
            ip_pkt@ is V4,
        ensures
            final(self).wf(),
            ip_outcome(
                old(self).flow_tracker,
                Stats { ipv4_packets_this_period: bump(old(self).stats.ipv4_packets_this_period), ..old(self).stats },
                final(self).flow_tracker,
                final(self).stats,
                ip_pkt@,
                frame_len,
                now,
                r,
            ),
    {
        self.stats.ipv4_packets_this_period = incr(self.stats.ipv4_packets_this_period);
        if ip_pkt.header().protocol != IP_PROTOCOL_TCP {
            return TlsAction::Ignore;
        }
        self.process_ip_tail(ip_pkt, frame_len, now)
    }

    /// Handles one IPv6 packet of a frame `frame_len` bytes long.
    pub fn process_ipv6_packet(&mut self, ip_pkt: &IpPacket, frame_len: usize, now: u64) -> (r: TlsAction)
        requires
            old(self).wf(),
            ip_pkt@.wf(),
            ip_pkt@ is V6,
        ensures
            final(self).wf(),
            ip_outcome(
                old(self).flow_tracker,
                Stats { ipv6_packets_this_period: bump(old(self).stats.ipv6_packets_this_period), ..old(self).stats },
                final(self).flow_tracker,
                final(self).stats,
                ip_pkt@,
                frame_len,
                now,
                r,
            ),
    {
        self.stats.ipv6_packets_this_period = incr(self.stats.ipv6_packets_this_period);
        if ip_pkt.header().protocol != IP_PROTOCOL_TCP {
            return TlsAction::Ignore;
        }
        self.process_ip_tail(ip_pkt, frame_len, now)
    }

    /// Handles one captured frame: counts it, dissects it, and decides what
    /// becomes of it.
    pub fn process_packet(&mut self, frame: &[u8], now: u64) -> (r: TlsAction)
        requires
            old(self).wf(),
        ensures
            final(self).wf(),
            frame_outcome(old(self).flow_tracker, old(self).stats, final(self).flow_tracker, final(self).stats, frame@, now, r),
    {
        let frame_len = frame.len();
        self.stats.packets_this_period = incr(self.stats.packets_this_period);
        self.stats.bytes_this_period = incr_by(self.stats.bytes_this_period, frame_len as u64);
        match get_ip_packet(frame) {
            Some(ip) => match ip {
                IpPacket::V4(_) => self.process_ipv4_packet(&ip, frame_len, now),
                IpPacket::V6(_) => self.process_ipv6_packet(&ip, frame_len, now),
            },
            None => TlsAction::Ignore,
        }
    }

    /// Drops pending and tagged entries idle past their windows.
    pub fn drop_stale(&mut self, now: u64)
        requires
            old(self).wf(),
        ensures
            final(self).wf(),
            final(self).stats == old(self).stats,
            swept(old(self).flow_tracker.pending@, final(self).flow_tracker.pending@, now, old(self).flow_tracker.pending_idle),
            swept(old(self).flow_tracker.tagged@, final(self).flow_tracker.tagged@, now, old(self).flow_tracker.tagged_idle),
            final(self).flow_tracker.pending_idle == old(self).flow_tracker.pending_idle,
            final(self).flow_tracker.tagged_idle == old(self).flow_tracker.tagged_idle,
    {
        self.flow_tracker.drop_stale(now);
    }

    /// Hands out the period's counters and starts a new period at zero.
    pub fn take_stats(&mut self) -> (r: Stats)
        ensures
            r == old(self).stats,
            final(self).stats == Stats::default_stats(),
            final(self).flow_tracker == old(self).flow_tracker,
    {
        let s = self.stats;
        self.stats = Stats::zero();
        s
    }
}

} // verus!
