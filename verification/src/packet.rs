use vstd::prelude::*;
use crate::duration::Duration;

verus! {

/// One interface of a capture section. Created by an interface-description
/// block, or synthesised from a legacy file header; read-only afterwards.
#[derive(Clone, Copy, PartialEq, Eq, Structural, Debug)]
pub struct InterfaceInfo {
    pub link_type: u16,
    pub if_tsoffset: u64,
    pub if_tsresol: u8,
    pub snaplen: u32,
}

/// Packet bytes together with the layer at which parsing must start.
#[derive(Clone, Debug)]
pub enum TaggedPayload {
    /// Link-layer frame.
    L2(Vec<u8>),
    /// Network-layer bytes, with the ethertype in front.
    L3(u16, Vec<u8>),
    /// Transport payload, with the transport protocol number in front.
    L4(u8, Vec<u8>),
    /// Bytes of a link type nothing here understands.
    Unsupported(Vec<u8>),
}

/// Mathematical image of a [`TaggedPayload`]: the same tags over byte
/// sequences.
pub enum PayloadModel {
    L2(Seq<u8>),
    L3(u16, Seq<u8>),
    L4(u8, Seq<u8>),
    Unsupported(Seq<u8>),
}

impl View for TaggedPayload {
    type V = PayloadModel;

    open spec fn view(&self) -> PayloadModel {
        match self {
            TaggedPayload::L2(d) => PayloadModel::L2(d@),
            TaggedPayload::L3(e, d) => PayloadModel::L3(*e, d@),
            TaggedPayload::L4(p, d) => PayloadModel::L4(*p, d@),
            TaggedPayload::Unsupported(d) => PayloadModel::Unsupported(d@),
        }
    }
}

/// One decoded packet, as handed to the analyzers.
#[derive(Clone, Debug)]
pub struct Packet {
    /// Index of the interface the packet was captured on, within its section.
    pub interface: u32,
    /// Capture timestamp, normalised to microseconds.
    pub ts: Duration,
    pub data: TaggedPayload,
    /// Length of the packet on the wire.
    pub origlen: u32,
    /// Length of the bytes that were captured; never above `origlen`.
    pub caplen: u32,
    /// One-based ordinal of this packet record across the whole stream.
    pub pcap_index: u64,
}

/// Mathematical image of a [`Packet`].
pub struct PacketModel {
    pub interface: u32,
    pub ts: Duration,
    pub data: PayloadModel,
    pub origlen: u32,
    pub caplen: u32,
    pub pcap_index: u64,
}

impl View for Packet {
    type V = PacketModel;

    open spec fn view(&self) -> PacketModel {
        PacketModel {
            interface: self.interface,
            ts: self.ts,
            data: self.data@,
            origlen: self.origlen,
            caplen: self.caplen,
            pcap_index: self.pcap_index,
        }
    }
}

/// Per-run decoding state: the current section's interface table and
/// endianness, the packet-record counter, and the latched first timestamp.
#[derive(Clone, Debug)]
pub struct ParseContext {
    /// Count of packet records seen so far; the last packet emitted carried
    /// this ordinal.
    pub pcap_index: u64,
    /// Interfaces of the current section, in order of declaration.
    pub interfaces: Vec<InterfaceInfo>,
    /// Endianness recorded from the current section header.
    pub bigendian: bool,
    /// Timestamp of the first packet of the run, zero until latched.
    pub first_packet_ts: Duration,
    /// Timestamp of the last packet, relative to the first one.
    pub rel_ts: Duration,
}

/// Mathematical image of a [`ParseContext`].
pub struct ContextModel {
    pub pcap_index: u64,
    pub interfaces: Seq<InterfaceInfo>,
    pub bigendian: bool,
    pub first_packet_ts: Duration,
    pub rel_ts: Duration,
}

impl View for ParseContext {
    type V = ContextModel;

    open spec fn view(&self) -> ContextModel {
        ContextModel {
            pcap_index: self.pcap_index,
            interfaces: self.interfaces@,
            bigendian: self.bigendian,
            first_packet_ts: self.first_packet_ts,
            rel_ts: self.rel_ts,
        }
    }
}

impl ParseContext {
    /// A fresh context: no interfaces, little-endian, nothing latched.
    pub fn new() -> (r: ParseContext)
        ensures
            r@ == initial_context(),
    {
        ParseContext {
            pcap_index: 0,
            interfaces: Vec::new(),
            bigendian: false,
            first_packet_ts: Duration::default(),
            rel_ts: Duration::default(),
        }
    }
}

/// The context a run starts from.
pub open spec fn initial_context() -> ContextModel {
    ContextModel {
        pcap_index: 0,
        interfaces: Seq::empty(),
        bigendian: false,
        first_packet_ts: Duration { secs: 0, micros: 0 },
        rel_ts: Duration { secs: 0, micros: 0 },
    }
}

/// One framed record of the capture stream, reduced to the fields the
/// decoder reads. The block reader (outside this crate) frames the bytes
/// and fills these in.
#[derive(Clone, Debug)]
pub enum CaptureBlock {
    /// Start of a new section; resets the interface table.
    SectionHeader { bigendian: bool },
    /// Declares the next interface of the current section.
    InterfaceDescription { link_type: u16, if_tsoffset: u64, if_tsresol: u8, snaplen: u32 },
    /// A packet with an interface id and a 64-bit tick timestamp.
    EnhancedPacket {
        if_id: u32,
        ts_high: u32,
        ts_low: u32,
        caplen: u32,
        origlen: u32,
        data: Vec<u8>,
    },
    /// A packet without interface id or timestamp; implicitly interface 0.
    SimplePacket { block_len1: u32, origlen: u32, data: Vec<u8> },
    /// Classic pcap file header; synthesises interface 0.
    LegacyHeader { network: u16, snaplen: u32 },
    /// Classic pcap packet record.
    LegacyPacket { ts_sec: u32, ts_usec: u32, caplen: u32, origlen: u32, data: Vec<u8> },
    /// Counters for an interface; carries nothing the decoder needs.
    InterfaceStatistics,
    /// Name resolution data; skipped.
    NameResolution,
    /// A block code nothing here understands; skipped.
    Unknown,
}

/// Mathematical image of a [`CaptureBlock`].
pub enum BlockModel {
    SectionHeader { bigendian: bool },
    InterfaceDescription { link_type: u16, if_tsoffset: u64, if_tsresol: u8, snaplen: u32 },
    EnhancedPacket {
        if_id: u32,
        ts_high: u32,
        ts_low: u32,
        caplen: u32,
        origlen: u32,
        data: Seq<u8>,
    },
    SimplePacket { block_len1: u32, origlen: u32, data: Seq<u8> },
    LegacyHeader { network: u16, snaplen: u32 },
    LegacyPacket { ts_sec: u32, ts_usec: u32, caplen: u32, origlen: u32, data: Seq<u8> },
    InterfaceStatistics,
    NameResolution,
    Unknown,
}

impl View for CaptureBlock {
    type V = BlockModel;

    open spec fn view(&self) -> BlockModel {
        match self {
            CaptureBlock::SectionHeader { bigendian } => BlockModel::SectionHeader {
                bigendian: *bigendian,
            },
            CaptureBlock::InterfaceDescription { link_type, if_tsoffset, if_tsresol, snaplen } => {
                BlockModel::InterfaceDescription {
                    link_type: *link_type,
                    if_tsoffset: *if_tsoffset,
                    if_tsresol: *if_tsresol,
                    snaplen: *snaplen,
                }
            },
            CaptureBlock::EnhancedPacket { if_id, ts_high, ts_low, caplen, origlen, data } => {
                BlockModel::EnhancedPacket {
                    if_id: *if_id,
                    ts_high: *ts_high,
                    ts_low: *ts_low,
                    caplen: *caplen,
                    origlen: *origlen,
                    data: data@,
                }
            },
            CaptureBlock::SimplePacket { block_len1, origlen, data } => BlockModel::SimplePacket {
                block_len1: *block_len1,
                origlen: *origlen,
                data: data@,
            },
            CaptureBlock::LegacyHeader { network, snaplen } => BlockModel::LegacyHeader {
                network: *network,
                snaplen: *snaplen,
            },
            CaptureBlock::LegacyPacket { ts_sec, ts_usec, caplen, origlen, data } => {
                BlockModel::LegacyPacket {
                    ts_sec: *ts_sec,
                    ts_usec: *ts_usec,
                    caplen: *caplen,
                    origlen: *origlen,
                    data: data@,
                }
            },
            CaptureBlock::InterfaceStatistics => BlockModel::InterfaceStatistics,
            CaptureBlock::NameResolution => BlockModel::NameResolution,
            CaptureBlock::Unknown => BlockModel::Unknown,
        }
    }
}

} // verus!
