use tls_tap::dissect::{get_ip_packet, IpPacket};
use tls_tap::flow::{Flow, FlowNoSrcPort, IpAddress};
use tls_tap::shard::{forward_pkt, tag_message, PerCoreGlobal, TlsAction};
use tls_tap::tracker::FlowTracker;

const SYN: u8 = 0x02;
const ACK: u8 = 0x10;
const RST: u8 = 0x04;
const FIN: u8 = 0x01;
const PSH: u8 = 0x08;

const CLIENT: [u8; 4] = [10, 0, 0, 1];
const SERVER: [u8; 4] = [93, 184, 216, 34];

fn tcp_segment(sport: u16, dport: u16, flags: u8, payload: &[u8]) -> Vec<u8> {
    let mut s = Vec::new();
    s.extend_from_slice(&sport.to_be_bytes());
    s.extend_from_slice(&dport.to_be_bytes());
    s.extend_from_slice(&[0, 0, 0, 1, 0, 0, 0, 0]);
    s.push(0x50);
    s.push(flags);
    s.extend_from_slice(&[0xff, 0xff, 0, 0, 0, 0]);
    s.extend_from_slice(payload);
    s
}

fn ipv4_packet(src: [u8; 4], dst: [u8; 4], protocol: u8, segment: &[u8]) -> Vec<u8> {
    let total = (20 + segment.len()) as u16;
    let mut p = vec![0x45, 0];
    p.extend_from_slice(&total.to_be_bytes());
    p.extend_from_slice(&[0, 0, 0x40, 0, 64, protocol, 0, 0]);
    p.extend_from_slice(&src);
    p.extend_from_slice(&dst);
    p.extend_from_slice(segment);
    p
}

fn ipv6_packet(src: [u8; 16], dst: [u8; 16], segment: &[u8]) -> Vec<u8> {
    let len = segment.len() as u16;
    let mut p = vec![0x60, 0, 0, 0];
    p.extend_from_slice(&len.to_be_bytes());
    p.push(6);
    p.push(64);
    p.extend_from_slice(&src);
    p.extend_from_slice(&dst);
    p.extend_from_slice(segment);
    p
}

fn ethernet(ethertype: u16, body: &[u8]) -> Vec<u8> {
    let mut f = vec![0x02, 0, 0, 0, 0, 1, 0x02, 0, 0, 0, 0, 2];
    f.extend_from_slice(&ethertype.to_be_bytes());
    f.extend_from_slice(body);
    f
}

fn vlan(inner: u16, body: &[u8]) -> Vec<u8> {
    let mut b = vec![0x00, 0x2a];
    b.extend_from_slice(&inner.to_be_bytes());
    b.extend_from_slice(body);
    ethernet(0x8100, &b)
}

fn v4_frame(src: [u8; 4], sport: u16, dst: [u8; 4], dport: u16, flags: u8, payload: &[u8]) -> Vec<u8> {
    ethernet(0x0800, &ipv4_packet(src, dst, 6, &tcp_segment(sport, dport, flags, payload)))
}

fn v4(a: [u8; 4]) -> IpAddress {
    IpAddress::V4(u32::from_be_bytes(a))
}

fn client_flow(sport: u16) -> Flow {
    Flow::new(v4(CLIENT), sport, v4(SERVER), 443)
}

fn app_data() -> Vec<u8> {
    vec![0x17, 0x03, 0x03, 0x00, 0x20, 0xaa, 0xbb, 0xcc]
}

fn shard() -> PerCoreGlobal {
    PerCoreGlobal::new(30, 120)
}

#[test]
fn short_frames_dissect_to_nothing() {
    for len in 0..34usize {
        let mut f = vec![0u8; len];
        if len >= 14 {
            f[12] = 0x08;
            f[13] = 0x00;
        }
        assert!(get_ip_packet(&f).is_none(), "length {}", len);
    }
    let full = ethernet(0x0800, &[0x45u8; 20]);
    assert_eq!(full.len(), 34);
    assert!(get_ip_packet(&full).is_some());
}

#[test]
fn other_ethertypes_dissect_to_nothing() {
    let ip = ipv4_packet(CLIENT, SERVER, 6, &tcp_segment(1000, 443, SYN, &[]));
    assert!(get_ip_packet(&ethernet(0x0806, &ip)).is_none());
    assert!(get_ip_packet(&vlan(0x0806, &ip)).is_none());
    assert!(get_ip_packet(&vlan(0x8100, &ip)).is_none());
    let short_tag = ethernet(0x8100, &[0x00, 0x2a, 0x08]);
    assert!(get_ip_packet(&short_tag).is_none());
}

#[test]
fn vlan_ipv4_dissects_like_untagged() {
    let ip = ipv4_packet(CLIENT, SERVER, 6, &tcp_segment(1000, 443, SYN, &[]));
    let tagged = get_ip_packet(&vlan(0x0800, &ip)).unwrap();
    let plain = get_ip_packet(&ethernet(0x0800, &ip)).unwrap();
    match (&tagged, &plain) {
        (IpPacket::V4(a), IpPacket::V4(b)) => {
            assert_eq!(a, b);
            assert_eq!(a, &ip);
        }
        _ => panic!("expected two IPv4 packets"),
    }
}

#[test]
fn vlan_ipv6_dissects_to_ipv6() {
    let ip = ipv6_packet([0x20; 16], [0x26; 16], &tcp_segment(1000, 443, SYN, &[]));
    match get_ip_packet(&vlan(0x86dd, &ip)).unwrap() {
        IpPacket::V6(b) => assert_eq!(b, ip),
        _ => panic!("expected IPv6"),
    }
}

#[test]
fn syn_admits_and_rst_removes() {
    let mut g = shard();
    let r = g.process_packet(&v4_frame(CLIENT, 40000, SERVER, 443, SYN, &[]), 1);
    assert!(matches!(r, TlsAction::Ignore));
    assert!(g.flow_tracker.is_tracked_flow(&client_flow(40000)));
    assert_eq!(g.stats.port_443_syns_this_period, 1);
    g.process_packet(&v4_frame(CLIENT, 40000, SERVER, 443, RST | ACK, &[]), 2);
    assert!(!g.flow_tracker.is_tracked_flow(&client_flow(40000)));
}

#[test]
fn fin_removes_pending_flow() {
    let mut g = shard();
    g.process_packet(&v4_frame(CLIENT, 40001, SERVER, 443, SYN, &[]), 1);
    g.process_packet(&v4_frame(CLIENT, 40001, SERVER, 443, FIN | ACK, &[]), 2);
    assert!(!g.flow_tracker.is_tracked_flow(&client_flow(40001)));
    assert_eq!(g.flow_tracker.pending.len(), 0);
}

#[test]
fn syn_ack_does_not_admit() {
    let mut g = shard();
    g.process_packet(&v4_frame(CLIENT, 40002, SERVER, 443, SYN | ACK, &[]), 1);
    assert_eq!(g.flow_tracker.pending.len(), 0);
    assert_eq!(g.stats.port_443_syns_this_period, 0);
}

#[test]
fn packet_of_absent_flow_is_no_op() {
    let mut g = shard();
    let r = g.process_packet(&v4_frame(CLIENT, 40003, SERVER, 443, ACK | PSH, &app_data()), 1);
    assert!(matches!(r, TlsAction::Ignore));
    assert_eq!(g.flow_tracker.pending.len(), 0);
    assert_eq!(g.flow_tracker.tagged.len(), 0);
    assert_eq!(g.stats.elligator_this_period, 0);
}

#[test]
fn pending_flow_gets_one_decode_attempt() {
    let mut g = shard();
    g.process_packet(&v4_frame(CLIENT, 40004, SERVER, 443, SYN, &[]), 1);
    let first = g.process_packet(&v4_frame(CLIENT, 40004, SERVER, 443, ACK | PSH, &app_data()), 2);
    match first {
        TlsAction::Inspect(f, p) => {
            assert_eq!(f, client_flow(40004));
            assert_eq!(p, app_data());
        }
        _ => panic!("expected an inspection"),
    }
    assert!(!g.flow_tracker.is_tracked_flow(&client_flow(40004)));
    let second = g.process_packet(&v4_frame(CLIENT, 40004, SERVER, 443, ACK | PSH, &app_data()), 3);
    assert!(matches!(second, TlsAction::Ignore));
    assert_eq!(g.stats.elligator_this_period, 1);
}

#[test]
fn non_application_data_keeps_flow_pending() {
    let mut g = shard();
    g.process_packet(&v4_frame(CLIENT, 40005, SERVER, 443, SYN, &[]), 1);
    let hello = [0x16u8, 0x03, 0x01, 0x02, 0x00, 0x01, 0x00];
    let r = g.process_packet(&v4_frame(CLIENT, 40005, SERVER, 443, ACK | PSH, &hello), 2);
    assert!(matches!(r, TlsAction::Ignore));
    let five = [0x17u8, 0x03, 0x03, 0x00, 0x01];
    let r = g.process_packet(&v4_frame(CLIENT, 40005, SERVER, 443, ACK | PSH, &five), 3);
    assert!(matches!(r, TlsAction::Ignore));
    assert!(g.flow_tracker.is_tracked_flow(&client_flow(40005)));
}

#[test]
fn tag_message_maps_ipv4() {
    let seed: [u8; 16] = [1, 2, 3, 4, 5, 6, 7, 8, 9, 10, 11, 12, 13, 14, 15, 16];
    let m = tag_message(&seed, v4([192, 122, 190, 7]));
    assert_eq!(m.len(), 32);
    assert_eq!(&m[..16], &seed[..]);
    assert_eq!(&m[16..], &[0, 0, 0, 0, 0, 0, 0, 0, 0, 0, 0xff, 0xff, 192, 122, 190, 7]);
}

#[test]
fn tag_message_keeps_ipv6() {
    let seed = [0xabu8; 16];
    let addr: u128 = 0x2001_48a8_687f_0001_0000_0000_0000_0042;
    let m = tag_message(&seed, IpAddress::V6(addr));
    assert_eq!(&m[..16], &seed[..]);
    assert_eq!(&m[16..], &addr.to_be_bytes()[..]);
}

#[test]
fn tagged_flow_is_forwarded_for_all_flags() {
    let mut g = shard();
    let decoy = [192, 122, 190, 7];
    let seed = [7u8; 16];
    let msg = g.check_dark_decoy_tag(&client_flow(40006), &seed, Some(v4(decoy)), 5).unwrap();
    assert_eq!(&msg[28..], &decoy[..]);
    assert!(g.flow_tracker.is_registered_dark_decoy(&FlowNoSrcPort::from_parts(v4(CLIENT), v4(decoy), 443)));
    for (i, flags) in [SYN, ACK, ACK | PSH, RST, FIN | ACK, 0].iter().enumerate() {
        let ip = ipv4_packet(CLIENT, decoy, 6, &tcp_segment(50000 + i as u16, 443, *flags, &app_data()));
        match g.process_packet(&ethernet(0x0800, &ip), 6 + i as u64) {
            TlsAction::Forward(bytes) => {
                assert_eq!(&bytes[..4], &[0x00, 0x01, 0x08, 0x00]);
                assert_eq!(&bytes[4..], &ip[..]);
            }
            _ => panic!("expected forwarding for flags {:#x}", flags),
        }
    }
    assert_eq!(g.flow_tracker.pending.len(), 0);
    assert_eq!(g.stats.port_443_syns_this_period, 0);
}

#[test]
fn failed_selection_tags_nothing() {
    let mut g = shard();
    assert!(g.check_dark_decoy_tag(&client_flow(40007), &[1u8; 16], None, 5).is_none());
    assert_eq!(g.flow_tracker.tagged.len(), 0);
}

#[test]
fn idle_tag_expires() {
    let mut g = shard();
    let decoy = [192, 122, 190, 9];
    g.check_dark_decoy_tag(&client_flow(40008), &[2u8; 16], Some(v4(decoy)), 100);
    g.drop_stale(219);
    let frame = v4_frame(CLIENT, 40008, decoy, 443, ACK, &[]);
    assert!(matches!(g.process_packet(&frame, 219), TlsAction::Forward(_)));
    g.drop_stale(338);
    assert!(g.flow_tracker.is_registered_dark_decoy(&FlowNoSrcPort::from_parts(v4(CLIENT), v4(decoy), 443)));
    g.drop_stale(339);
    assert!(matches!(g.process_packet(&frame, 340), TlsAction::Ignore));
}

#[test]
fn idle_pending_flow_expires() {
    let mut g = shard();
    g.process_packet(&v4_frame(CLIENT, 40009, SERVER, 443, SYN, &[]), 10);
    g.drop_stale(39);
    assert!(g.flow_tracker.is_tracked_flow(&client_flow(40009)));
    g.drop_stale(40);
    assert!(!g.flow_tracker.is_tracked_flow(&client_flow(40009)));
}

#[test]
fn begin_tracking_twice_keeps_one_entry() {
    let mut t = FlowTracker::new(30, 120);
    t.begin_tracking_flow(&client_flow(40010), 1);
    t.begin_tracking_flow(&client_flow(40010), 2);
    assert_eq!(t.pending.len(), 1);
    assert_eq!(t.pending[0], (client_flow(40010), 2));
    t.stop_tracking_flow(&client_flow(40010));
    t.stop_tracking_flow(&client_flow(40010));
    assert_eq!(t.pending.len(), 0);
}

#[test]
fn other_ports_and_protocols_are_ignored() {
    let mut g = shard();
    g.process_packet(&v4_frame(CLIENT, 40011, SERVER, 80, SYN, &[]), 1);
    let udp = ethernet(0x0800, &ipv4_packet(CLIENT, SERVER, 17, &[0u8; 20]));
    g.process_packet(&udp, 2);
    assert_eq!(g.flow_tracker.pending.len(), 0);
    assert_eq!(g.stats.packets_this_period, 2);
    assert_eq!(g.stats.ipv4_packets_this_period, 2);
    assert_eq!(g.stats.tcp_packets_this_period, 1);
    assert_eq!(g.stats.tls_packets_this_period, 0);
}

#[test]
fn counters_follow_frames() {
    let mut g = shard();
    let frame = v4_frame(CLIENT, 40012, SERVER, 443, SYN, &[]);
    g.process_packet(&frame, 1);
    g.process_packet(&[0u8; 10], 2);
    let s = g.take_stats();
    assert_eq!(s.packets_this_period, 2);
    assert_eq!(s.bytes_this_period, frame.len() as u64 + 10);
    assert_eq!(s.tls_packets_this_period, 1);
    assert_eq!(s.tls_bytes_this_period, frame.len() as u64);
    assert_eq!(g.stats.packets_this_period, 0);
}

#[test]
fn ipv6_flow_lifecycle() {
    let mut g = shard();
    let src = [0x20u8, 0x01, 0x0d, 0xb8, 0, 0, 0, 0, 0, 0, 0, 0, 0, 0, 0, 1];
    let dst = [0x20u8, 0x01, 0x0d, 0xb8, 0, 0, 0, 0, 0, 0, 0, 0, 0, 0, 0, 2];
    let flow = Flow::new(IpAddress::V6(u128::from_be_bytes(src)), 40013, IpAddress::V6(u128::from_be_bytes(dst)), 443);
    g.process_packet(&ethernet(0x86dd, &ipv6_packet(src, dst, &tcp_segment(40013, 443, SYN, &[]))), 1);
    assert!(g.flow_tracker.is_tracked_flow(&flow));
    assert_eq!(g.stats.ipv6_packets_this_period, 1);
    let r = g.process_packet(&ethernet(0x86dd, &ipv6_packet(src, dst, &tcp_segment(40013, 443, ACK, &app_data()))), 2);
    assert!(matches!(r, TlsAction::Inspect(f, _) if f == flow));
}

#[test]
fn forward_prepends_link_header() {
    let ip = ipv4_packet(CLIENT, SERVER, 6, &tcp_segment(1, 443, ACK, &[9, 9]));
    let framed = forward_pkt(&IpPacket::V4(ip.clone()));
    assert_eq!(framed.len(), ip.len() + 4);
    assert_eq!(&framed[..4], &[0x00, 0x01, 0x08, 0x00]);
    assert_eq!(&framed[4..], &ip[..]);
}

#[test]
fn padding_after_ipv4_total_length_is_not_payload() {
    let mut g = shard();
    g.process_packet(&v4_frame(CLIENT, 40014, SERVER, 443, SYN, &[]), 1);
    let mut frame = v4_frame(CLIENT, 40014, SERVER, 443, ACK | PSH, &app_data());
    frame.extend_from_slice(&[0u8; 6]);
    match g.process_packet(&frame, 2) {
        TlsAction::Inspect(_, p) => assert_eq!(p, app_data()),
        _ => panic!("expected an inspection"),
    }
}

#[test]
fn tcp_options_are_not_payload() {
    let mut g = shard();
    g.process_packet(&v4_frame(CLIENT, 40015, SERVER, 443, SYN, &[]), 1);
    let mut seg = tcp_segment(40015, 443, ACK | PSH, &[]);
    seg[12] = 0x60;
    seg.extend_from_slice(&[1, 1, 1, 1]);
    seg.extend_from_slice(&app_data());
    let frame = ethernet(0x0800, &ipv4_packet(CLIENT, SERVER, 6, &seg));
    match g.process_packet(&frame, 2) {
        TlsAction::Inspect(_, p) => assert_eq!(p, app_data()),
        _ => panic!("expected an inspection"),
    }
}
