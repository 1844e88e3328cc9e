use pcap_analyzer::dispatch_filter::{
    DispatchFilter, DispatchFilterBuilder, FResult, FilteringAction, FilteringKey, FiveTupleC,
    IpAddrC, IpAddrProtoPort, IpAddrProtoPortC, KeyContainer,
};
use pcap_analyzer::flow::{FiveTuple, IpAddress};
use pcap_analyzer::key_parser::{parse_ipv4_five_tuple, parse_ipv6_five_tuple};
use pcap_analyzer::packet::TaggedPayload;

/// A minimal IPv4 header (20 bytes) with UDP ports appended.
fn ipv4_udp(src: u32, dst: u32, src_port: u16, dst_port: u16) -> Vec<u8> {
    let mut d = vec![0u8; 28];
    d[0] = 0x45; // version 4, header length 5 words
    d[9] = 17; // UDP
    d[12..16].copy_from_slice(&src.to_be_bytes());
    d[16..20].copy_from_slice(&dst.to_be_bytes());
    d[20..22].copy_from_slice(&src_port.to_be_bytes());
    d[22..24].copy_from_slice(&dst_port.to_be_bytes());
    d
}

fn ipv6_tcp(src: u128, dst: u128, src_port: u16, dst_port: u16) -> Vec<u8> {
    let mut d = vec![0u8; 44];
    d[0] = 0x60;
    d[6] = 6; // next header: TCP
    d[8..24].copy_from_slice(&src.to_be_bytes());
    d[24..40].copy_from_slice(&dst.to_be_bytes());
    d[40..42].copy_from_slice(&src_port.to_be_bytes());
    d[42..44].copy_from_slice(&dst_port.to_be_bytes());
    d
}

/// Wrap a network payload in an ethernet frame carrying the ethertype.
fn in_ethernet(ethertype: u16, payload: &[u8]) -> Vec<u8> {
    let mut d = vec![0u8; 14];
    d[12..14].copy_from_slice(&ethertype.to_be_bytes());
    d.extend_from_slice(payload);
    d
}

fn src_ip_filter(action: FilteringAction, ips: Vec<IpAddress>) -> DispatchFilter {
    DispatchFilterBuilder::from_args(
        FilteringKey::SrcIpaddr,
        action,
        KeyContainer::IpSet(IpAddrC::new(ips)),
    )
    .expect("an address set fits an address key")
}

#[test]
fn keep_filter_keeps_listed_source() {
    let f = src_ip_filter(FilteringAction::Keep, vec![IpAddress::V4(0x0a000001)]);
    let hit = TaggedPayload::L3(0x0800, ipv4_udp(0x0a000001, 0x08080808, 1000, 53));
    let miss = TaggedPayload::L3(0x0800, ipv4_udp(0x0a000099, 0x08080808, 1000, 53));
    assert!(matches!(f.keep(&hit), FResult::Keep(())));
    assert!(matches!(f.keep(&miss), FResult::Discard));
}

#[test]
fn drop_filter_inverts_the_decision() {
    let f = src_ip_filter(FilteringAction::Drop, vec![IpAddress::V4(0x0a000001)]);
    let hit = TaggedPayload::L3(0x0800, ipv4_udp(0x0a000001, 0x08080808, 1000, 53));
    let miss = TaggedPayload::L3(0x0800, ipv4_udp(0x0a000099, 0x08080808, 1000, 53));
    assert!(matches!(f.keep(&hit), FResult::Discard));
    assert!(matches!(f.keep(&miss), FResult::Keep(())));
}

#[test]
fn ethernet_frame_is_judged_past_its_header() {
    let f = src_ip_filter(FilteringAction::Keep, vec![IpAddress::V4(0x0a000001)]);
    let frame = in_ethernet(0x0800, &ipv4_udp(0x0a000001, 0x08080808, 1000, 53));
    assert!(matches!(f.keep(&TaggedPayload::L2(frame)), FResult::Keep(())));
    let short = vec![0u8; 13];
    assert!(matches!(f.keep(&TaggedPayload::L2(short)), FResult::Error(_)));
}

#[test]
fn source_or_destination_key_tests_both_ends() {
    let f = DispatchFilterBuilder::from_args(
        FilteringKey::SrcDstIpaddr,
        FilteringAction::Keep,
        KeyContainer::IpSet(IpAddrC::new(vec![IpAddress::V4(0x08080808)])),
    )
    .unwrap();
    let as_dst = TaggedPayload::L3(0x0800, ipv4_udp(0x0a000001, 0x08080808, 1000, 53));
    let as_src = TaggedPayload::L3(0x0800, ipv4_udp(0x08080808, 0x0a000001, 53, 1000));
    let neither = TaggedPayload::L3(0x0800, ipv4_udp(0x0a000001, 0x0a000002, 1000, 53));
    assert!(matches!(f.keep(&as_dst), FResult::Keep(())));
    assert!(matches!(f.keep(&as_src), FResult::Keep(())));
    assert!(matches!(f.keep(&neither), FResult::Discard));
}

#[test]
fn address_protocol_port_key() {
    let key = IpAddrProtoPort { ip: IpAddress::V4(0x0a000001), proto: 17, port: 53 };
    let f = DispatchFilterBuilder::from_args(
        FilteringKey::SrcIpaddrProtoDstPort,
        FilteringAction::Keep,
        KeyContainer::IpProtoPortSet(IpAddrProtoPortC::new(vec![key])),
    )
    .unwrap();
    let hit = TaggedPayload::L3(0x0800, ipv4_udp(0x0a000001, 0x08080808, 40000, 53));
    let wrong_port = TaggedPayload::L3(0x0800, ipv4_udp(0x0a000001, 0x08080808, 40000, 54));
    assert!(matches!(f.keep(&hit), FResult::Keep(())));
    assert!(matches!(f.keep(&wrong_port), FResult::Discard));
}

#[test]
fn five_tuple_key_over_ipv6() {
    let t = FiveTuple {
        proto: 6,
        src: IpAddress::V6(0x2001_0db8_0000_0000_0000_0000_0000_0001),
        dst: IpAddress::V6(0x2001_0db8_0000_0000_0000_0000_0000_0002),
        src_port: 4000,
        dst_port: 443,
    };
    let f = DispatchFilterBuilder::from_args(
        FilteringKey::SrcDstIpaddrProtoSrcDstPort,
        FilteringAction::Keep,
        KeyContainer::FiveTupleSet(FiveTupleC::new(vec![t])),
    )
    .unwrap();
    let hit = TaggedPayload::L3(
        0x86dd,
        ipv6_tcp(
            0x2001_0db8_0000_0000_0000_0000_0000_0001,
            0x2001_0db8_0000_0000_0000_0000_0000_0002,
            4000,
            443,
        ),
    );
    let other = TaggedPayload::L3(
        0x86dd,
        ipv6_tcp(
            0x2001_0db8_0000_0000_0000_0000_0000_0001,
            0x2001_0db8_0000_0000_0000_0000_0000_0002,
            4001,
            443,
        ),
    );
    assert!(matches!(f.keep(&hit), FResult::Keep(())));
    assert!(matches!(f.keep(&other), FResult::Discard));
}

#[test]
fn unknown_ethertype_is_an_error() {
    let f = src_ip_filter(FilteringAction::Keep, vec![IpAddress::V4(1)]);
    let arp = TaggedPayload::L3(0x0806, vec![0u8; 28]);
    assert!(matches!(f.keep(&arp), FResult::Error(_)));
}

#[test]
fn short_network_data_is_an_error() {
    let f = src_ip_filter(FilteringAction::Keep, vec![IpAddress::V4(1)]);
    let short4 = TaggedPayload::L3(0x0800, vec![0x45; 12]);
    let short6 = TaggedPayload::L3(0x86dd, vec![0x60; 39]);
    assert!(matches!(f.keep(&short4), FResult::Error(_)));
    assert!(matches!(f.keep(&short6), FResult::Error(_)));
}

#[test]
fn container_shape_must_fit_the_key() {
    let r = DispatchFilterBuilder::from_args(
        FilteringKey::SrcIpaddr,
        FilteringAction::Keep,
        KeyContainer::FiveTupleSet(FiveTupleC::new(Vec::new())),
    );
    assert!(r.is_err());
}

#[test]
fn filter_delegates_to_keep() {
    let f = src_ip_filter(FilteringAction::Keep, vec![IpAddress::V4(0x0a000001)]);
    let hit = TaggedPayload::L3(0x0800, ipv4_udp(0x0a000001, 0x08080808, 1, 2));
    assert!(matches!(f.filter(&hit), FResult::Keep(())));
}

#[test]
fn ipv4_five_tuple_fields_are_exact() {
    let d = ipv4_udp(0xc0a80001, 0x0a0a0a0a, 1234, 80);
    let t = parse_ipv4_five_tuple(&d, 0).unwrap();
    assert_eq!(t.proto, 17);
    assert_eq!(t.src, IpAddress::V4(0xc0a80001));
    assert_eq!(t.dst, IpAddress::V4(0x0a0a0a0a));
    assert_eq!(t.src_port, 1234);
    assert_eq!(t.dst_port, 80);
}

#[test]
fn ipv4_options_shift_the_ports() {
    // header length 6 words: ports start at byte 24
    let mut d = vec![0u8; 32];
    d[0] = 0x46;
    d[9] = 6;
    d[24..26].copy_from_slice(&4000u16.to_be_bytes());
    d[26..28].copy_from_slice(&443u16.to_be_bytes());
    let t = parse_ipv4_five_tuple(&d, 0).unwrap();
    assert_eq!((t.src_port, t.dst_port), (4000, 443));
}

#[test]
fn ipv6_five_tuple_fields_are_exact() {
    let d = ipv6_tcp(7, 9, 5353, 5354);
    let t = parse_ipv6_five_tuple(&d, 0).unwrap();
    assert_eq!(t.proto, 6);
    assert_eq!(t.src, IpAddress::V6(7));
    assert_eq!(t.dst, IpAddress::V6(9));
    assert_eq!((t.src_port, t.dst_port), (5353, 5354));
}
