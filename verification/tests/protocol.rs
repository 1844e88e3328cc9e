use pcap_analyzer::data_engine::{Config, PcapAnalyzer, PcapDataEngine};
use pcap_analyzer::duration::Duration;
use pcap_analyzer::error::Error;
use pcap_analyzer::flow::{FiveTuple, FlowTable, IpAddress};
use pcap_analyzer::key_parser::{five_tuple_of_payload, l4_payload_of_payload};
use pcap_analyzer::packet::{CaptureBlock, Packet, ParseContext};
use pcap_analyzer::rusticata::{
    Direction, L4Info, PacketInfo, ParseStatus, ProbeDef, ProbeResult, RBuilder, RParser,
    Rusticata, PLUGIN_FLOW_DEL, PLUGIN_L4, PROBE_TCP, PROBE_UDP,
};

// protocol ids of the stub builder set
const DNS_UDP: usize = 0;
const TLS: usize = 1;
const SSH: usize = 2;
const DHCP: usize = 3;
const NTP: usize = 4;

/// A stub parser: remembers payloads and exposes a few extracted fields,
/// standing in for the real dissectors, which are plugged in from outside.
struct StubParser {
    proto: usize,
    query: Option<String>,
    qtype: Option<String>,
    sni: Option<String>,
    directions: Vec<Direction>,
}

/// Read the DNS question name at offset 12 of a DNS message.
fn dns_query_name(d: &[u8]) -> Option<String> {
    let mut i = 12;
    let mut parts: Vec<String> = Vec::new();
    while i < d.len() {
        let n = d[i] as usize;
        if n == 0 {
            return Some(parts.join("."));
        }
        if i + 1 + n > d.len() {
            return None;
        }
        parts.push(String::from_utf8(d[i + 1..i + 1 + n].to_vec()).ok()?);
        i += 1 + n;
    }
    None
}

impl RParser for StubParser {
    fn parse(&mut self, data: &[u8], direction: Direction) -> ParseStatus {
        self.directions.push(direction);
        match self.proto {
            DNS_UDP => {
                self.query = dns_query_name(data);
                let qtype_off = data.len().checked_sub(4);
                self.qtype = match qtype_off {
                    Some(o) if data[o] == 0 && data[o + 1] == 1 => Some(String::from("A")),
                    _ => None,
                };
                ParseStatus::Success
            },
            TLS => {
                // the stub reads the server name the test placed after a
                // one-byte length at offset 9
                let n = data[8] as usize;
                if 9 + n <= data.len() {
                    self.sni = String::from_utf8(data[9..9 + n].to_vec()).ok();
                }
                ParseStatus::Success
            },
            _ => ParseStatus::Success,
        }
    }

    fn keys(&self) -> Vec<String> {
        let mut ks = Vec::new();
        if self.query.is_some() {
            ks.push(String::from("query"));
        }
        if self.sni.is_some() {
            ks.push(String::from("sni"));
        }
        ks
    }

    fn get(&self, key: &str) -> Option<String> {
        match key {
            "query" => self.query.clone(),
            "qtype" => self.qtype.clone(),
            "sni" => self.sni.clone(),
            _ => None,
        }
    }
}

/// A stub builder set with one probe per protocol, in deliberately
/// unsorted registration order.
struct StubBuilder;

impl RBuilder<StubParser> for StubBuilder {
    fn l4_probes(&self) -> Vec<ProbeDef> {
        vec![
            ProbeDef { filter: PROBE_UDP | 5, proto: NTP },
            ProbeDef { filter: PROBE_TCP | 2, proto: SSH },
            ProbeDef { filter: PROBE_UDP | 1, proto: DNS_UDP },
            ProbeDef { filter: PROBE_TCP | 1, proto: TLS },
            ProbeDef { filter: PROBE_UDP | 0, proto: DHCP },
        ]
    }

    fn probe(&self, proto: usize, data: &[u8], l4_info: &L4Info) -> ProbeResult {
        match proto {
            DNS_UDP => {
                if l4_info.l4_proto == 17 && data.len() > 12 && data[4] == 0 && data[5] == 1 {
                    ProbeResult::Certain
                } else {
                    ProbeResult::NotForUs
                }
            },
            TLS => {
                if l4_info.l4_proto == 6 && data.len() > 2 && data[0] == 0x16 && data[1] == 0x03 {
                    ProbeResult::Certain
                } else {
                    ProbeResult::NotForUs
                }
            },
            SSH => {
                if data.starts_with(b"SSH-") {
                    ProbeResult::Reverse
                } else {
                    ProbeResult::NotForUs
                }
            },
            DHCP => {
                if data.len() >= 240 {
                    ProbeResult::Certain
                } else if data.len() >= 4 && data[0] == 2 {
                    ProbeResult::Unsure
                } else {
                    ProbeResult::NotForUs
                }
            },
            _ => ProbeResult::NotForUs,
        }
    }

    fn build(&self, proto: usize) -> Option<StubParser> {
        if proto > NTP {
            return None;
        }
        Some(StubParser { proto, query: None, qtype: None, sni: None, directions: Vec::new() })
    }
}

fn engine() -> Rusticata<StubBuilder, StubParser> {
    let mut r = Rusticata::new(StubBuilder);
    r.pre_process();
    r
}

fn udp_tuple() -> FiveTuple {
    FiveTuple {
        proto: 17,
        src: IpAddress::V4(0x0a000001),
        dst: IpAddress::V4(0x08080808),
        src_port: 53123,
        dst_port: 53,
    }
}

fn pinfo(flow_id: u64, t: FiveTuple, to_server: bool, payload: Vec<u8>) -> PacketInfo {
    PacketInfo {
        five_tuple: t,
        flow_id: Some(flow_id),
        to_server,
        l4_type: t.proto,
        l4_payload: Some(payload),
        pcap_index: 1,
    }
}

fn dns_query_example_com() -> Vec<u8> {
    let mut d = vec![
        0x12, 0x34, // id
        0x01, 0x00, // flags: standard query
        0x00, 0x01, // one question
        0x00, 0x00, 0x00, 0x00, 0x00, 0x00,
    ];
    d.extend_from_slice(b"\x07example\x03com\x00");
    d.extend_from_slice(&[0x00, 0x01, 0x00, 0x01]); // qtype A, class IN
    d
}

#[test]
fn probe_table_is_sorted_by_transport_then_priority() {
    let r = engine();
    let filters: Vec<u32> = r.probes_l4.iter().map(|d| d.filter).collect();
    let mut sorted = filters.clone();
    sorted.sort();
    assert_eq!(filters, sorted);
    // TCP (0x06) probes come before UDP (0x11) probes, priorities ascending
    assert_eq!(
        r.probes_l4.iter().map(|d| d.proto).collect::<Vec<_>>(),
        vec![TLS, SSH, DHCP, DNS_UDP, NTP]
    );
}

#[test]
fn plugin_reports_its_capabilities() {
    let r = engine();
    assert_eq!(r.name(), "Rusticata");
    assert_eq!(r.plugin_type(), PLUGIN_L4 | PLUGIN_FLOW_DEL);
}

#[test]
fn reverse_direction_maps_to_same_flow() {
    let mut table = FlowTable::new();
    let t = udp_tuple();
    let (id1, to_server1) = table.get_or_insert(&t, Duration { secs: 1, micros: 0 });
    let (id2, to_server2) = table.get_or_insert(&t.get_reverse(), Duration { secs: 2, micros: 0 });
    assert_eq!(id1, id2);
    assert!(to_server1);
    assert!(!to_server2);
    assert_eq!(table.flow_count(), 1);
    // a genuinely different conversation gets a fresh identifier
    let mut other = t;
    other.dst_port = 54;
    let (id3, _) = table.get_or_insert(&other, Duration { secs: 3, micros: 0 });
    assert_ne!(id1, id3);
}

#[test]
fn dns_query_binds_and_extracts() {
    let mut r = engine();
    let payload = dns_query_example_com();
    r.handle_layer_transport(&pinfo(7, udp_tuple(), true, payload));
    let parser = r.get_parser(7).expect("flow must be bound after a certain probe");
    assert_eq!(parser.get("query"), Some(String::from("example.com")));
    assert_eq!(parser.get("qtype"), Some(String::from("A")));
    assert_eq!(parser.keys(), vec![String::from("query")]);
    assert!(!r.flow_probes.contains_key(&7));
    assert!(!r.flow_bypass.contains(&7));
}

#[test]
fn two_interfaces_two_tls_flows() {
    let mut r = engine();
    let mk_hello = |name: &str| {
        let mut d = vec![0x16, 0x03, 0x01, 0x00, 0x40, 0x01, 0x00, 0x00];
        d.push(name.len() as u8);
        d.extend_from_slice(name.as_bytes());
        d
    };
    let mut t1 = udp_tuple();
    t1.proto = 6;
    t1.dst_port = 443;
    let mut t2 = t1;
    t2.src = IpAddress::V4(0x0a000002);
    r.handle_layer_transport(&pinfo(1, t1, true, mk_hello("one.example")));
    r.handle_layer_transport(&pinfo(2, t2, true, mk_hello("two.example")));
    assert_eq!(r.parser_count(), 2);
    assert_eq!(r.get_parser(1).unwrap().get("sni"), Some(String::from("one.example")));
    assert_eq!(r.get_parser(2).unwrap().get("sni"), Some(String::from("two.example")));
}

#[test]
fn ssh_banner_on_unusual_port_binds() {
    let mut table = FlowTable::new();
    let mut client = udp_tuple();
    client.proto = 6;
    client.src_port = 50000;
    client.dst_port = 2222; // not the well-known SSH port
    // the client opened the flow first (no payload handed on)
    let (flow_id, to_server) = table.get_or_insert(&client, Duration { secs: 0, micros: 0 });
    assert!(to_server);
    // the server banner travels in the reverse direction
    let (id2, to_server2) = table.get_or_insert(&client.get_reverse(), Duration { secs: 0, micros: 1 });
    assert_eq!(flow_id, id2);
    assert!(!to_server2);
    let mut r = engine();
    let mut banner = b"SSH-2.0-OpenSSH_8.4\r\n".to_vec();
    banner.resize(64, 0);
    r.handle_layer_transport(&pinfo(flow_id, client.get_reverse(), to_server2, banner));
    let parser = r.get_parser(flow_id).expect("ssh must bind despite the port");
    assert_eq!(parser.proto, SSH);
    assert_eq!(parser.directions, vec![Direction::ToClient]);
}

#[test]
fn unsure_probe_leaves_a_candidate_list_then_binds() {
    let mut r = engine();
    let t = {
        let mut t = udp_tuple();
        t.src_port = 68;
        t.dst_port = 67;
        t
    };
    // short ambiguous payload: dhcp is unsure, ntp and dns are not for us
    let short = vec![2u8, 1, 6, 0];
    r.handle_layer_transport(&pinfo(9, t, true, short));
    let candidates = r.flow_probes.get(&9).expect("unsure probes become the candidate list");
    assert_eq!(candidates.iter().map(|d| d.proto).collect::<Vec<_>>(), vec![DHCP]);
    assert!(r.get_parser(9).is_none());
    assert!(!r.flow_bypass.contains(&9));
    // a richer payload promotes the flow to bound
    let full = vec![2u8; 300];
    r.handle_layer_transport(&pinfo(9, t, true, full));
    assert_eq!(r.get_parser(9).expect("bound after the retry").proto, DHCP);
    assert!(!r.flow_probes.contains_key(&9));
}

#[test]
fn no_match_bypasses_for_good() {
    let mut r = engine();
    let t = udp_tuple();
    let noise = vec![0xffu8; 32];
    r.handle_layer_transport(&pinfo(4, t, true, noise.clone()));
    assert!(r.flow_bypass.contains(&4));
    assert!(!r.flow_probes.contains_key(&4));
    assert!(r.get_parser(4).is_none());
    // even a payload every probe would accept is ignored once bypassed
    r.handle_layer_transport(&pinfo(4, t, true, dns_query_example_com()));
    assert!(r.flow_bypass.contains(&4));
    assert!(r.get_parser(4).is_none());
}

#[test]
fn flow_states_are_mutually_exclusive() {
    let mut r = engine();
    let t = udp_tuple();
    r.handle_layer_transport(&pinfo(1, t, true, dns_query_example_com())); // bound
    r.handle_layer_transport(&pinfo(2, t, true, vec![0xff; 8])); // bypassed
    r.handle_layer_transport(&pinfo(3, t, true, vec![2, 1, 6, 0])); // candidates
    for id in 1u64..=3 {
        let states = [
            r.flow_probes.contains_key(&id),
            r.flow_parsers.contains_key(&id),
            r.flow_bypass.contains(&id),
        ];
        assert_eq!(states.iter().filter(|s| **s).count(), 1, "flow {id}");
    }
}

#[test]
fn flow_destroyed_forgets_everything() {
    let mut r = engine();
    let t = udp_tuple();
    r.handle_layer_transport(&pinfo(1, t, true, dns_query_example_com()));
    r.handle_layer_transport(&pinfo(2, t, true, vec![0xff; 8]));
    let mut table = FlowTable::new();
    let (id, _) = table.get_or_insert(&t, Duration { secs: 0, micros: 0 });
    assert_eq!(id, 0);
    let flow1 = table.lookup_tuple(&t).unwrap();
    let mut flow1 = flow1;
    flow1.flow_id = 1;
    r.flow_destroyed(&flow1);
    assert!(r.get_parser(1).is_none());
    flow1.flow_id = 2;
    r.flow_destroyed(&flow1);
    assert!(!r.flow_bypass.contains(&2));
}

/// The full chain of the classic-pcap DNS scenario: decode one record,
/// build the five-tuple from the frame, create the flow, probe, bind, and
/// read the extracted query back.
struct DnsChain {
    flows: FlowTable,
    rusticata: Rusticata<StubBuilder, StubParser>,
    seen: Vec<u64>,
}

impl PcapAnalyzer for DnsChain {
    fn init(&mut self) -> Result<(), Error> {
        self.rusticata.pre_process();
        Ok(())
    }

    fn handle_packet(&mut self, packet: &Packet, _ctx: &ParseContext) -> Result<(), Error> {
        self.seen.push(packet.pcap_index);
        let tuple = five_tuple_of_payload(&packet.data).expect("well-formed IPv4");
        let (flow_id, to_server) = self.flows.get_or_insert(&tuple, packet.ts);
        let l4_payload = l4_payload_of_payload(&packet.data);
        assert!(l4_payload.is_some());
        self.rusticata.handle_layer_transport(&PacketInfo {
            five_tuple: tuple,
            flow_id: Some(flow_id),
            to_server,
            l4_type: tuple.proto,
            l4_payload,
            pcap_index: packet.pcap_index,
        });
        Ok(())
    }

    fn before_refill(&mut self) {}

    fn teardown(&mut self) {}
}

#[test]
fn classic_pcap_dns_end_to_end() {
    // ethernet + minimal IPv4 + UDP + DNS query for example.com A
    let dns = dns_query_example_com();
    let mut frame = vec![0u8; 14];
    frame[12] = 0x08; // ethertype IPv4
    let mut ip = vec![0u8; 20];
    ip[0] = 0x45;
    ip[9] = 17;
    ip[12..16].copy_from_slice(&0x0a000001u32.to_be_bytes());
    ip[16..20].copy_from_slice(&0x08080808u32.to_be_bytes());
    frame.extend_from_slice(&ip);
    let mut udp = vec![0u8; 8];
    udp[0..2].copy_from_slice(&53123u16.to_be_bytes());
    udp[2..4].copy_from_slice(&53u16.to_be_bytes());
    frame.extend_from_slice(&udp);
    frame.extend_from_slice(&dns);
    let n = frame.len() as u32;
    let blocks = vec![
        CaptureBlock::LegacyHeader { network: 1, snaplen: 65535 },
        CaptureBlock::LegacyPacket { ts_sec: 1, ts_usec: 0, caplen: n, origlen: n, data: frame },
    ];
    let chain = DnsChain { flows: FlowTable::new(), rusticata: engine(), seen: Vec::new() };
    let mut eng = PcapDataEngine::new(chain, &Config::new());
    assert!(eng.run_blocks(&blocks).is_ok());
    let chain = eng.data_analyzer();
    assert_eq!(chain.seen, vec![1]);
    assert_eq!(chain.flows.flow_count(), 1);
    let parser = chain.rusticata.get_parser(0).expect("the single flow has id 0 and is bound");
    assert_eq!(parser.get("query"), Some(String::from("example.com")));
    assert_eq!(parser.get("qtype"), Some(String::from("A")));
}

#[test]
fn destroyed_flow_leaves_the_table() {
    let mut table = FlowTable::new();
    let t = udp_tuple();
    let mut other = t;
    other.dst_port = 99;
    let (id1, _) = table.get_or_insert(&t, Duration { secs: 0, micros: 0 });
    let (id2, _) = table.get_or_insert(&other, Duration { secs: 0, micros: 0 });
    assert_eq!(table.flow_count(), 2);
    table.destroy(id1);
    assert_eq!(table.flow_count(), 1);
    assert!(table.lookup_tuple(&t).is_none());
    assert_eq!(table.lookup_tuple(&other).unwrap().flow_id, id2);
    // the identifier is not reused
    let (id3, _) = table.get_or_insert(&t, Duration { secs: 1, micros: 0 });
    assert_ne!(id3, id1);
    assert_eq!(id3, 2);
}

#[test]
fn unknown_protocol_name_bypasses() {
    // a builder set whose probe answers for a protocol it cannot build
    struct Broken;
    impl RBuilder<StubParser> for Broken {
        fn l4_probes(&self) -> Vec<ProbeDef> {
            vec![ProbeDef { filter: PROBE_UDP | 1, proto: 99 }]
        }

        fn probe(&self, _proto: usize, _data: &[u8], _l4: &L4Info) -> ProbeResult {
            ProbeResult::Certain
        }

        fn build(&self, _proto: usize) -> Option<StubParser> {
            None
        }
    }
    let mut r: Rusticata<Broken, StubParser> = Rusticata::new(Broken);
    r.pre_process();
    r.handle_layer_transport(&pinfo(5, udp_tuple(), true, vec![1, 2, 3, 4]));
    assert!(r.flow_bypass.contains(&5));
    assert!(r.get_parser(5).is_none());
}

#[test]
fn fatal_probe_is_skipped_but_stays_in_rotation() {
    struct FatalFirst;
    impl RBuilder<StubParser> for FatalFirst {
        fn l4_probes(&self) -> Vec<ProbeDef> {
            vec![
                ProbeDef { filter: PROBE_UDP | 0, proto: NTP },
                ProbeDef { filter: PROBE_UDP | 1, proto: DNS_UDP },
            ]
        }

        fn probe(&self, proto: usize, _data: &[u8], _l4: &L4Info) -> ProbeResult {
            if proto == NTP {
                ProbeResult::Fatal
            } else {
                ProbeResult::Certain
            }
        }

        fn build(&self, proto: usize) -> Option<StubParser> {
            Some(StubParser { proto, query: None, qtype: None, sni: None, directions: Vec::new() })
        }
    }
    let mut r: Rusticata<FatalFirst, StubParser> = Rusticata::new(FatalFirst);
    r.pre_process();
    // the fatal probe is skipped this round; the next probe still binds
    r.handle_layer_transport(&pinfo(11, udp_tuple(), true, vec![1, 2, 3]));
    assert_eq!(r.get_parser(11).unwrap().proto, DNS_UDP);
    // the fatal probe was not disabled: it is still in the table
    assert!(r.probes_l4.iter().any(|d| d.proto == NTP));
    // and a later flow walks it again without harm
    r.handle_layer_transport(&pinfo(12, udp_tuple(), true, vec![1, 2, 3]));
    assert_eq!(r.get_parser(12).unwrap().proto, DNS_UDP);
}

#[test]
fn failing_parser_is_detached_but_not_bypassed() {
    struct FailingParser;
    impl RParser for FailingParser {
        fn parse(&mut self, _data: &[u8], _direction: Direction) -> ParseStatus {
            ParseStatus::Fail
        }

        fn keys(&self) -> Vec<String> {
            Vec::new()
        }

        fn get(&self, _key: &str) -> Option<String> {
            None
        }
    }
    struct FailingBuilder;
    impl RBuilder<FailingParser> for FailingBuilder {
        fn l4_probes(&self) -> Vec<ProbeDef> {
            vec![ProbeDef { filter: PROBE_UDP | 1, proto: 0 }]
        }

        fn probe(&self, _proto: usize, _data: &[u8], _l4: &L4Info) -> ProbeResult {
            ProbeResult::Certain
        }

        fn build(&self, _proto: usize) -> Option<FailingParser> {
            Some(FailingParser)
        }
    }
    let mut r: Rusticata<FailingBuilder, FailingParser> = Rusticata::new(FailingBuilder);
    r.pre_process();
    r.handle_layer_transport(&pinfo(6, udp_tuple(), true, vec![1, 2, 3]));
    // the parser failed at once: detached, and the flow is deliberately
    // not bypassed, so the next payload is probed afresh
    assert!(r.get_parser(6).is_none());
    assert!(!r.flow_bypass.contains(&6));
}

#[test]
fn transport_is_matched_by_high_byte_equality() {
    // a TCP probe (high byte 0x06) is not consulted for protocol 0x07,
    // even though the two share bits: the transport match is equality on
    // the filter's high byte
    let mut r = engine();
    let mut t = udp_tuple();
    t.proto = 0x07;
    let mut info = pinfo(21, t, true, vec![0x16, 0x03, 0x01, 0x00]);
    info.l4_type = 0x07;
    r.handle_layer_transport(&info);
    // no probe matched the transport: the flow is bypassed at once
    assert!(r.flow_bypass.contains(&21));
    assert!(r.get_parser(21).is_none());
}

#[test]
fn reprobe_is_restricted_to_the_candidate_list() {
    let mut r = engine();
    let t = {
        let mut t = udp_tuple();
        t.src_port = 68;
        t.dst_port = 67;
        t
    };
    // packet 1: dhcp unsure, everything else not-for-us
    r.handle_layer_transport(&pinfo(9, t, true, vec![2u8, 1, 6, 0]));
    assert_eq!(
        r.flow_probes.get(&9).unwrap().iter().map(|d| d.proto).collect::<Vec<_>>(),
        vec![DHCP]
    );
    // packet 2 carries a perfect DNS query, but dns is not in the
    // candidate list: only dhcp is retried, answers not-for-us, and the
    // flow is bypassed instead of binding dns
    r.handle_layer_transport(&pinfo(9, t, true, dns_query_example_com()));
    assert!(r.get_parser(9).is_none());
    assert!(r.flow_bypass.contains(&9));
}
