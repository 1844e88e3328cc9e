use vstd::prelude::*;
use crate::duration::{Duration, spec_saturating_sub, MICROS_PER_SEC};
use crate::error::Error;
use crate::packet::{
    BlockModel, CaptureBlock, ContextModel, InterfaceInfo, Packet, PacketModel, ParseContext,
    PayloadModel, TaggedPayload, initial_context,
};

verus! {

// ---------------------------------------------------------------------------
// Timestamp helpers of the parsing crate, and their exact specifications.
// ---------------------------------------------------------------------------

/// `10^n`.
pub open spec fn pow10(n: nat) -> nat
    decreases n,
{
    if n == 0 {
        1
    } else {
        10 * pow10((n - 1) as nat)
    }
}

pub proof fn lemma_pow10_positive(n: nat)
    ensures
        pow10(n) >= 1,
    decreases n,
{
    if n > 0 {
        lemma_pow10_positive((n - 1) as nat);
    }
}

pub proof fn lemma_pow10_mono(a: nat, b: nat)
    requires
        a <= b,
    ensures
        pow10(a) <= pow10(b),
    decreases b,
{
    if a < b {
        lemma_pow10_mono(a, (b - 1) as nat);
        lemma_pow10_positive((b - 1) as nat);
    }
}

/// A valid resolution byte encodes at least one and at most `10^19` units
/// per second, so the unit fits 64 bits and is never zero.
pub proof fn lemma_units_positive(ts_resol: u8)
    ensures
        match spec_ts_units(ts_resol) {
            Some(unit) => 1 <= unit <= 10_000_000_000_000_000_000u64,
            None => true,
        },
{
    if ts_resol & 0x80 == 0 && ts_resol <= 19 {
        lemma_pow10_positive(ts_resol as nat);
        lemma_pow10_mono(ts_resol as nat, 19);
        assert(pow10(19) == 10_000_000_000_000_000_000) by {
            reveal_with_fuel(pow10, 20);
        }
    }
}

/// Timestamp resolution in units per second encoded by a resolution byte:
/// a base-10 exponent when the high bit is clear, rejected when the result
/// would not fit 64 bits. Resolution bytes with the high bit set (base-2
/// exponents) are rejected by the helper this models, whose range check
/// runs on the whole byte; a packet on an interface declaring one is
/// therefore refused as a malformed capture.
pub open spec fn spec_ts_units(ts_resol: u8) -> Option<u64> {
    if ts_resol & 0x80 == 0 && ts_resol <= 19 {
        Some(pow10(ts_resol as nat) as u64)
    } else {
        None
    }
}

/// Relies on `pcap_parser::build_ts_resolution`: units per second for a
/// resolution byte, `None` when invalid.
pub assume_specification [ pcap_parser::build_ts_resolution ](ts_resol: u8) -> (r: Option<u64>)
    ensures
        r == spec_ts_units(ts_resol),
;

/// Seconds and fractional ticks computed from a 64-bit tick count, an offset
/// and a resolution; both halves are truncating 32-bit casts, exactly as the
/// helper this models computes them.
pub open spec fn spec_build_ts(ts_high: u32, ts_low: u32, ts_offset: u64, resolution: u64) -> (
    u32,
    u32,
) {
    let ts = (ts_high as int) * 0x1_0000_0000 + ts_low;
    let sec = (ts_offset + ts / (resolution as int)) % 0x1_0000_0000;
    let frac = (ts % (resolution as int)) % 0x1_0000_0000;
    ((sec as u32), (frac as u32))
}

/// Relies on `pcap_parser::build_ts`: seconds and fractional part of an
/// interface-relative tick count. The inputs are bounded so that the
/// helper's internal additions cannot overflow.
pub assume_specification [ pcap_parser::build_ts ](
    ts_high: u32,
    ts_low: u32,
    ts_offset: u64,
    resolution: u64,
) -> (r: (u32, u32))
    requires
        resolution > 0,
        ts_offset + ((ts_high as int) * 0x1_0000_0000 + ts_low) / (resolution as int) <= u64::MAX,
    ensures
        r == spec_build_ts(ts_high, ts_low, ts_offset, resolution),
;

// ---------------------------------------------------------------------------
// Link-type-aware payload extraction.
// ---------------------------------------------------------------------------

/// What the link-type-aware packet-data decoder returns: a function of the
/// block bytes, the link type and the captured length alone.
pub uninterp spec fn payload_of(data: Seq<u8>, link_type: u16, caplen: int) -> Option<PayloadModel>;

pub open spec fn payload_view_opt(r: Option<TaggedPayload>) -> Option<PayloadModel> {
    match r {
        Some(p) => Some(p@),
        None => None,
    }
}

/// The ethertype guessed from the version nibble of a raw IP packet.
pub open spec fn ether_of_ip_version(b: u8) -> u16 {
    if b >> 4 == 4 {
        0x0800
    } else if b >> 4 == 6 {
        0x86dd
    } else {
        0
    }
}

/// The ethertype encoded by the four-byte host-order header of a BSD
/// loopback frame, read little-endian.
pub open spec fn ether_of_null_header(d: Seq<u8>) -> u16 {
    let w = d[0] + d[1] * 0x100 + d[2] * 0x1_0000 + d[3] * 0x100_0000;
    if w == 2 {
        0x0800
    } else if w == 24 || w == 28 || w == 30 {
        0x86dd
    } else {
        0
    }
}

/// Relies on `pcap_parser::data::get_packetdata`: the payload bytes tagged
/// with the layer at which parsing must start, chosen by link type; `None`
/// when the bytes cannot hold `caplen` octets of that link type. The clauses
/// below restate its published per-link-type behaviour for BSD loopback (0),
/// Ethernet (1), raw IP (101), IPv4 (228), IPv6 (229) and for every link
/// type it has no decoder for. Link type 252 (Wireshark upper-PDU) is kept
/// out of the domain: that decoder converts a length-checked TLV value
/// with an exact-size conversion and panics when the TLV is longer than
/// four bytes, so the decoder refuses such interfaces up front.
#[verifier::external_body]
fn get_packet_data(data: &Vec<u8>, link_type: u16, caplen: usize) -> (r: Option<TaggedPayload>)
    requires
        link_type != 252,
    ensures
        payload_view_opt(r) == payload_of(data@, link_type, caplen as int),
        link_type == 0 ==> payload_view_opt(r) == (if data@.len()
            >= caplen && caplen >= 4 {
            Some(PayloadModel::L3(ether_of_null_header(data@), data@.subrange(4, caplen as int)))
        } else {
            None::<PayloadModel>
        }),
        link_type == 1 ==> payload_view_opt(r) == (if data@.len()
            >= caplen && caplen > 0 {
            Some(PayloadModel::L2(data@.subrange(0, caplen as int)))
        } else {
            None::<PayloadModel>
        }),
        link_type == 101 ==> payload_view_opt(r) == (if data@.len()
            >= caplen && caplen > 0 {
            Some(PayloadModel::L3(ether_of_ip_version(data@[0]), data@.subrange(0, caplen as int)))
        } else {
            None::<PayloadModel>
        }),
        link_type == 228 ==> payload_view_opt(r) == Some(
            PayloadModel::L3(0x0800, data@),
        ),
        link_type == 229 ==> payload_view_opt(r) == Some(
            PayloadModel::L3(0x86dd, data@),
        ),
        !(link_type == 0 || link_type == 1 || link_type == 101 || link_type == 113 || link_type
            == 228 || link_type == 229 || link_type == 239 || link_type == 252 || link_type
            == 276) ==> payload_view_opt(r) == Some(
            PayloadModel::Unsupported(data@),
        ),
{
    let ltype = pcap_parser::Linktype(link_type as i32);
    match pcap_parser::data::get_packetdata(data.as_slice(), ltype, caplen) {
        Some(pcap_parser::data::PacketData::L2(d)) => Some(TaggedPayload::L2(d.to_vec())),
        Some(pcap_parser::data::PacketData::L3(e, d)) => Some(TaggedPayload::L3(e, d.to_vec())),
        Some(pcap_parser::data::PacketData::L4(p, d)) => Some(TaggedPayload::L4(p, d.to_vec())),
        Some(pcap_parser::data::PacketData::Unsupported(d)) => Some(
            TaggedPayload::Unsupported(d.to_vec()),
        ),
        None => None,
    }
}

// ---------------------------------------------------------------------------
// The decoder's mathematical model: one step per block.
// ---------------------------------------------------------------------------

/// What one block does: nothing visible, one packet, or a fatal error.
pub enum StepOutcome {
    Silent,
    Emitted(PacketModel),
    Failed(Error),
}

/// Latch the first timestamp if not yet latched, recompute the relative
/// timestamp, and emit the packet.
pub open spec fn latch_and_emit(ctx: ContextModel, p: PacketModel) -> (ContextModel, StepOutcome) {
    let first = if ctx.first_packet_ts.spec_is_null() {
        p.ts
    } else {
        ctx.first_packet_ts
    };
    let ctx2 = ContextModel {
        pcap_index: ctx.pcap_index,
        interfaces: ctx.interfaces,
        bigendian: ctx.bigendian,
        first_packet_ts: first,
        rel_ts: spec_saturating_sub(p.ts, first),
    };
    (ctx2, StepOutcome::Emitted(p))
}

/// The timestamp of an enhanced packet, normalised to microseconds. The
/// normalisation divides the fractional part by `resolution / 10^6` when the
/// resolution is finer than microseconds, after a lossy 32-bit cast of the
/// resolution; sub-microsecond precision is discarded.
pub open spec fn spec_epb_ts(ts_high: u32, ts_low: u32, ifi: InterfaceInfo, unit: u64) -> Duration {
    let (sec, frac) = spec_build_ts(ts_high, ts_low, ifi.if_tsoffset, unit);
    let unit32 = ((unit as int) % 0x1_0000_0000) as u32;
    let usec = if unit32 == MICROS_PER_SEC {
        frac
    } else {
        ((frac as int) / ((unit32 as int) / (MICROS_PER_SEC as int))) as u32
    };
    Duration { secs: sec as u64, micros: usec }
}

/// What the decoder does with one block: the new context, and what was
/// emitted. This is the decoder's whole visible behaviour; the executable
/// code is proved equal to it.
pub open spec fn spec_handle_block(ctx: ContextModel, b: BlockModel) -> (ContextModel, StepOutcome) {
    match b {
        BlockModel::SectionHeader { bigendian } => (
            ContextModel {
                pcap_index: ctx.pcap_index,
                interfaces: Seq::empty(),
                bigendian,
                first_packet_ts: ctx.first_packet_ts,
                rel_ts: ctx.rel_ts,
            },
            StepOutcome::Silent,
        ),
        BlockModel::InterfaceDescription { link_type, if_tsoffset, if_tsresol, snaplen } => (
            ContextModel {
                pcap_index: ctx.pcap_index,
                interfaces: ctx.interfaces.push(
                    InterfaceInfo { link_type, if_tsoffset, if_tsresol, snaplen },
                ),
                bigendian: ctx.bigendian,
                first_packet_ts: ctx.first_packet_ts,
                rel_ts: ctx.rel_ts,
            },
            StepOutcome::Silent,
        ),
        BlockModel::LegacyHeader { network, snaplen } => (
            ContextModel {
                pcap_index: ctx.pcap_index,
                interfaces: ctx.interfaces.push(
                    InterfaceInfo { link_type: network, if_tsoffset: 0, if_tsresol: 6, snaplen },
                ),
                bigendian: ctx.bigendian,
                first_packet_ts: ctx.first_packet_ts,
                rel_ts: ctx.rel_ts,
            },
            StepOutcome::Silent,
        ),
        BlockModel::EnhancedPacket { if_id, ts_high, ts_low, caplen, origlen, data } => {
            let idx = (ctx.pcap_index + 1) as u64;
            let ctx1 = ContextModel {
                pcap_index: idx,
                interfaces: ctx.interfaces,
                bigendian: ctx.bigendian,
                first_packet_ts: ctx.first_packet_ts,
                rel_ts: ctx.rel_ts,
            };
            let ifi = ctx.interfaces[if_id as int];
            match spec_ts_units(ifi.if_tsresol) {
                Option::None => (ctx1, StepOutcome::Failed(Error::MalformedCapture(idx))),
                Option::Some(unit) => {
                    let ts = spec_epb_ts(ts_high, ts_low, ifi, unit);
                    if caplen > origlen {
                        (ctx1, StepOutcome::Failed(Error::MalformedCapture(idx)))
                    } else {
                        match payload_of(data, ifi.link_type, caplen as int) {
                            Option::None => (
                                ctx1,
                                StepOutcome::Failed(Error::MalformedCapture(idx)),
                            ),
                            Option::Some(pd) => latch_and_emit(
                                ctx1,
                                PacketModel {
                                    interface: if_id,
                                    ts,
                                    data: pd,
                                    origlen,
                                    caplen,
                                    pcap_index: idx,
                                },
                            ),
                        }
                    }
                },
            }
        },
        BlockModel::SimplePacket { block_len1, origlen, data } => {
            let idx = (ctx.pcap_index + 1) as u64;
            let ctx1 = ContextModel {
                pcap_index: idx,
                interfaces: ctx.interfaces,
                bigendian: ctx.bigendian,
                first_packet_ts: ctx.first_packet_ts,
                rel_ts: ctx.rel_ts,
            };
            let ifi = ctx.interfaces[0];
            let blen = (block_len1 - 16) as u32;
            let cap = if ifi.snaplen <= origlen {
                ifi.snaplen
            } else {
                origlen
            };
            match payload_of(data, ifi.link_type, blen as int) {
                Option::None => (ctx1, StepOutcome::Failed(Error::MalformedCapture(idx))),
                Option::Some(pd) => latch_and_emit(
                    ctx1,
                    PacketModel {
                        interface: 0,
                        ts: Duration { secs: 0, micros: 0 },
                        data: pd,
                        origlen,
                        caplen: cap,
                        pcap_index: idx,
                    },
                ),
            }
        },
        BlockModel::LegacyPacket { ts_sec, ts_usec, caplen, origlen, data } => {
            let idx = (ctx.pcap_index + 1) as u64;
            let ctx1 = ContextModel {
                pcap_index: idx,
                interfaces: ctx.interfaces,
                bigendian: ctx.bigendian,
                first_packet_ts: ctx.first_packet_ts,
                rel_ts: ctx.rel_ts,
            };
            let ifi = ctx.interfaces[0];
            if caplen > origlen {
                (ctx1, StepOutcome::Failed(Error::MalformedCapture(idx)))
            } else {
                match payload_of(data, ifi.link_type, caplen as int) {
                    Option::None => (ctx1, StepOutcome::Failed(Error::MalformedCapture(idx))),
                    Option::Some(pd) => latch_and_emit(
                        ctx1,
                        PacketModel {
                            interface: 0,
                            ts: Duration { secs: ts_sec as u64, micros: ts_usec },
                            data: pd,
                            origlen,
                            caplen,
                            pcap_index: idx,
                        },
                    ),
                }
            }
        },
        BlockModel::InterfaceStatistics => (ctx, StepOutcome::Silent),
        BlockModel::NameResolution => (ctx, StepOutcome::Silent),
        BlockModel::Unknown => (ctx, StepOutcome::Silent),
    }
}

/// Decide [`block_admissible`] at run time, so that a caller need not know
/// it beforehand.
pub fn block_admissible_check(ctx: &ParseContext, block: &CaptureBlock) -> (r: bool)
    ensures
        r == block_admissible(ctx@, block@),
{
    match block {
        CaptureBlock::EnhancedPacket { if_id, ts_high, ts_low, .. } => {
            if ctx.pcap_index == u64::MAX {
                return false;
            }
            if *if_id as usize >= ctx.interfaces.len() {
                return false;
            }
            let ifi = ctx.interfaces[*if_id as usize];
            if ifi.link_type == 252 {
                return false;
            }
            match pcap_parser::build_ts_resolution(ifi.if_tsresol) {
                None => true,
                Some(unit) => {
                    proof {
                        lemma_units_positive(ifi.if_tsresol);
                    }
                    let ts: u64 = (*ts_high as u64) * 0x1_0000_0000 + (*ts_low as u64);
                    let q: u64 = ts / unit;
                    if ifi.if_tsoffset > u64::MAX - q {
                        return false;
                    }
                    let unit32: u32 = (unit % 0x1_0000_0000) as u32;
                    unit32 >= MICROS_PER_SEC
                },
            }
        },
        CaptureBlock::SimplePacket { block_len1, .. } => {
            ctx.pcap_index < u64::MAX && ctx.interfaces.len() > 0 && ctx.interfaces[0].link_type
                != 252 && *block_len1 >= 16
        },
        CaptureBlock::LegacyPacket { .. } => {
            ctx.pcap_index < u64::MAX && ctx.interfaces.len() > 0 && ctx.interfaces[0].link_type
                != 252
        },
        _ => true,
    }
}

/// The blocks a well-formed capture may hand the decoder in a given context:
/// packet records stay within the machine's counters, reference an interface
/// that exists, use a timestamp resolution the normalisation can divide by,
/// and do not name the upper-PDU link type, whose decoder can panic. A block
/// outside this set cannot be decoded without a panic, so the runner refuses
/// it up front instead.
pub open spec fn block_admissible(ctx: ContextModel, b: BlockModel) -> bool {
    match b {
        BlockModel::EnhancedPacket { if_id, ts_high, ts_low, .. } => {
            &&& ctx.pcap_index < u64::MAX
            &&& (if_id as int) < ctx.interfaces.len()
            &&& ctx.interfaces[if_id as int].link_type != 252
            &&& match spec_ts_units(ctx.interfaces[if_id as int].if_tsresol) {
                Option::Some(unit) => {
                    let ts = (ts_high as int) * 0x1_0000_0000 + ts_low;
                    &&& ctx.interfaces[if_id as int].if_tsoffset + ts / (unit as int) <= u64::MAX
                    &&& (unit as int) % 0x1_0000_0000 >= MICROS_PER_SEC
                },
                Option::None => true,
            }
        },
        BlockModel::SimplePacket { block_len1, .. } => {
            &&& ctx.pcap_index < u64::MAX
            &&& ctx.interfaces.len() > 0
            &&& ctx.interfaces[0].link_type != 252
            &&& block_len1 >= 16
        },
        BlockModel::LegacyPacket { .. } => {
            &&& ctx.pcap_index < u64::MAX
            &&& ctx.interfaces.len() > 0
            &&& ctx.interfaces[0].link_type != 252
        },
        _ => true,
    }
}

// ---------------------------------------------------------------------------
// The analyzer plug-in contract and the engine.
// ---------------------------------------------------------------------------

/// What an analyzer plugged into the engine implements. `init` runs once
/// before the first block, `handle_packet` once per decoded packet in
/// capture order, `before_refill` whenever the block reader is about to
/// refill its buffer, and `teardown` once after the last block.
pub trait PcapAnalyzer {
    fn init(&mut self) -> Result<(), Error>;

    fn handle_packet(&mut self, packet: &Packet, ctx: &ParseContext) -> Result<(), Error>;

    fn before_refill(&mut self);

    fn teardown(&mut self);
}

/// Engine configuration. The decoding core reads none of it; the enclosing
/// binaries use it to size buffers.
pub struct Config {}

impl Config {
    pub fn new() -> (r: Config)
        ensures
            r == (Config {  }),
    {
        Config {  }
    }
}

impl Default for Config {
    fn default() -> (r: Config)
        ensures
            r == (Config {  }),
    {
        Config {  }
    }
}

/// Wraps an analyzer to receive decoded packets; owns the decoding context.
pub struct PcapDataAnalyzer<A: PcapAnalyzer> {
    pub data_analyzer: A,
    pub ctx: ParseContext,
    /// The packets emitted so far, in order; the decoder's visible history.
    pub emitted: Ghost<Seq<PacketModel>>,
}

impl<A: PcapAnalyzer> PcapDataAnalyzer<A> {
    pub fn new(data_analyzer: A) -> (r: PcapDataAnalyzer<A>)
        ensures
            r.ctx@ == initial_context(),
            r.emitted@ == Seq::<PacketModel>::empty(),
            r.data_analyzer == data_analyzer,
    {
        PcapDataAnalyzer { data_analyzer, ctx: ParseContext::new(), emitted: Ghost(Seq::empty()) }
    }

    /// Forward initialisation to the wrapped analyzer.
    pub fn init(&mut self) -> (r: Result<(), Error>)
        ensures
            final(self).ctx == old(self).ctx,
            final(self).emitted == old(self).emitted,
    {
        self.data_analyzer.init()
    }

    /// Forward teardown to the wrapped analyzer.
    pub fn teardown(&mut self)
        ensures
            final(self).ctx == old(self).ctx,
            final(self).emitted == old(self).emitted,
    {
        self.data_analyzer.teardown()
    }

    /// Forward the pre-refill hook to the wrapped analyzer.
    pub fn before_refill(&mut self)
        ensures
            final(self).ctx == old(self).ctx,
            final(self).emitted == old(self).emitted,
    {
        self.data_analyzer.before_refill()
    }

    /// Hand one emitted packet to the analyzer, after latching the first
    /// timestamp and recomputing the relative one.
    fn emit(&mut self, packet: Packet) -> (r: Result<(), Error>)
        ensures
            ({
                let (ctx2, out) = latch_and_emit(old(self).ctx@, packet@);
                &&& final(self).ctx@ == ctx2
                &&& final(self).emitted@ == old(self).emitted@.push(packet@)
                &&& (r == Ok::<(), Error>(()) || r == Err::<(), Error>(
                    Error::AnalyzerError(packet.pcap_index),
                ))
            }),
    {
        if self.ctx.first_packet_ts.is_null() {
            self.ctx.first_packet_ts = packet.ts;
        }
        self.ctx.rel_ts = packet.ts.saturating_sub(&self.ctx.first_packet_ts);
        self.emitted = Ghost(self.emitted@.push(packet@));
        let idx = packet.pcap_index;
        match self.data_analyzer.handle_packet(&packet, &self.ctx) {
            Ok(()) => Ok(()),
            Err(_) => Err(Error::AnalyzerError(idx)),
        }
    }

    /// Decode one block: maintain the section state, and emit at most one
    /// packet to the analyzer. The whole effect equals the model's step.
    pub fn handle_block(&mut self, block: &CaptureBlock) -> (r: Result<(), Error>)
        requires
            block_admissible(old(self).ctx@, block@),
        ensures
            ({
                let (ctx2, out) = spec_handle_block(old(self).ctx@, block@);
                &&& final(self).ctx@ == ctx2
                &&& match out {
                    StepOutcome::Silent => r == Ok::<(), Error>(()) && final(self).emitted@ == old(
                        self,
                    ).emitted@,
                    StepOutcome::Failed(e) => r == Err::<(), Error>(e) && final(self).emitted@
                        == old(self).emitted@,
                    StepOutcome::Emitted(p) => final(self).emitted@ == old(self).emitted@.push(p)
                        && (r == Ok::<(), Error>(()) || r == Err::<(), Error>(
                        Error::AnalyzerError(p.pcap_index),
                    )),
                }
            }),
    {
        match block {
            CaptureBlock::SectionHeader { bigendian } => {
                self.ctx.interfaces = Vec::new();
                self.ctx.bigendian = *bigendian;
                Ok(())
            },
            CaptureBlock::InterfaceDescription { link_type, if_tsoffset, if_tsresol, snaplen } => {
                let if_info = InterfaceInfo {
                    link_type: *link_type,
                    if_tsoffset: *if_tsoffset,
                    if_tsresol: *if_tsresol,
                    snaplen: *snaplen,
                };
                self.ctx.interfaces.push(if_info);
                Ok(())
            },
            CaptureBlock::LegacyHeader { network, snaplen } => {
                let if_info = InterfaceInfo {
                    link_type: *network,
                    if_tsoffset: 0,
                    if_tsresol: 6,
                    snaplen: *snaplen,
                };
                self.ctx.interfaces.push(if_info);
                Ok(())
            },
            CaptureBlock::EnhancedPacket { if_id, ts_high, ts_low, caplen, origlen, data } => {
                self.ctx.pcap_index = self.ctx.pcap_index + 1;
                let idx = self.ctx.pcap_index;
                let if_info = self.ctx.interfaces[*if_id as usize];
                let unit = match pcap_parser::build_ts_resolution(if_info.if_tsresol) {
                    Some(u) => u,
                    None => {
                        return Err(Error::MalformedCapture(idx));
                    },
                };
                proof {
                    lemma_units_positive(if_info.if_tsresol);
                }
                let (ts_sec, ts_frac) = pcap_parser::build_ts(
                    *ts_high,
                    *ts_low,
                    if_info.if_tsoffset,
                    unit,
                );
                let unit32: u32 = (unit % 0x1_0000_0000) as u32;
                let ts_usec = if unit32 != MICROS_PER_SEC {
                    ts_frac / (unit32 / MICROS_PER_SEC)
                } else {
                    ts_frac
                };
                let ts = Duration::new(ts_sec as u64, ts_usec);
                if *caplen > *origlen {
                    return Err(Error::MalformedCapture(idx));
                }
                let pd = match get_packet_data(data, if_info.link_type, *caplen as usize) {
                    Some(pd) => pd,
                    None => {
                        return Err(Error::MalformedCapture(idx));
                    },
                };
                let packet = Packet {
                    interface: *if_id,
                    ts,
                    data: pd,
                    origlen: *origlen,
                    caplen: *caplen,
                    pcap_index: idx,
                };
                self.emit(packet)
            },
            CaptureBlock::SimplePacket { block_len1, origlen, data } => {
                self.ctx.pcap_index = self.ctx.pcap_index + 1;
                let idx = self.ctx.pcap_index;
                let if_info = self.ctx.interfaces[0];
                let blen = *block_len1 - 16;
                let cap = if if_info.snaplen <= *origlen {
                    if_info.snaplen
                } else {
                    *origlen
                };
                let pd = match get_packet_data(data, if_info.link_type, blen as usize) {
                    Some(pd) => pd,
                    None => {
                        return Err(Error::MalformedCapture(idx));
                    },
                };
                let packet = Packet {
                    interface: 0,
                    ts: Duration::default(),
                    data: pd,
                    origlen: *origlen,
                    caplen: cap,
                    pcap_index: idx,
                };
                self.emit(packet)
            },
            CaptureBlock::LegacyPacket { ts_sec, ts_usec, caplen, origlen, data } => {
                self.ctx.pcap_index = self.ctx.pcap_index + 1;
                let idx = self.ctx.pcap_index;
                let if_info = self.ctx.interfaces[0];
                if *caplen > *origlen {
                    return Err(Error::MalformedCapture(idx));
                }
                let pd = match get_packet_data(data, if_info.link_type, *caplen as usize) {
                    Some(pd) => pd,
                    None => {
                        return Err(Error::MalformedCapture(idx));
                    },
                };
                let packet = Packet {
                    interface: 0,
                    ts: Duration::new(*ts_sec as u64, *ts_usec),
                    data: pd,
                    origlen: *origlen,
                    caplen: *caplen,
                    pcap_index: idx,
                };
                self.emit(packet)
            },
            CaptureBlock::InterfaceStatistics => Ok(()),
            CaptureBlock::NameResolution => Ok(()),
            CaptureBlock::Unknown => Ok(()),
        }
    }
}

// ---------------------------------------------------------------------------
// The model of a whole run, and the engine that executes it.
// ---------------------------------------------------------------------------

/// The decoder's image of a whole run: the final context, every packet in
/// emission order, and the first fatal decode error if one occurred.
pub struct RunResult {
    pub ctx: ContextModel,
    pub packets: Seq<PacketModel>,
    pub error: Option<Error>,
}

pub open spec fn block_views(s: Seq<CaptureBlock>) -> Seq<BlockModel> {
    s.map_values(|b: CaptureBlock| b@)
}

/// The ordinal the runner reports for a record it refuses: the one the
/// record would have carried.
pub open spec fn refusal_index(ctx: ContextModel) -> u64 {
    if ctx.pcap_index < u64::MAX {
        (ctx.pcap_index + 1) as u64
    } else {
        u64::MAX
    }
}

/// Fold of [`spec_handle_block`] over a block sequence, stopping at the
/// first fatal error. A block outside the admitted set (one the decoder
/// could only handle by panicking) stops the run as a malformed capture
/// carrying the refused record's ordinal.
pub open spec fn spec_run(ctx: ContextModel, blocks: Seq<BlockModel>) -> RunResult
    decreases blocks.len(),
{
    if blocks.len() == 0 {
        RunResult { ctx, packets: Seq::empty(), error: None }
    } else if !block_admissible(ctx, blocks[0]) {
        RunResult {
            ctx,
            packets: Seq::empty(),
            error: Some(Error::MalformedCapture(refusal_index(ctx))),
        }
    } else {
        let (c1, out) = spec_handle_block(ctx, blocks[0]);
        match out {
            StepOutcome::Silent => spec_run(c1, blocks.drop_first()),
            StepOutcome::Emitted(p) => {
                let r = spec_run(c1, blocks.drop_first());
                RunResult { ctx: r.ctx, packets: seq![p] + r.packets, error: r.error }
            },
            StepOutcome::Failed(e) => RunResult { ctx: c1, packets: Seq::empty(), error: Some(e) },
        }
    }
}

/// Every block of the sequence is admissible in the context it is decoded
/// in, up to the first fatal error.
pub open spec fn spec_run_admissible(ctx: ContextModel, blocks: Seq<BlockModel>) -> bool
    decreases blocks.len(),
{
    blocks.len() == 0 || {
        &&& block_admissible(ctx, blocks[0])
        &&& {
            let (c1, out) = spec_handle_block(ctx, blocks[0]);
            out matches StepOutcome::Failed(_) || spec_run_admissible(c1, blocks.drop_first())
        }
    }
}

/// A run that went through unharmed can admit one more admissible block.
proof fn lemma_admissible_snoc(ctx: ContextModel, s: Seq<BlockModel>, v: BlockModel)
    requires
        spec_run_admissible(ctx, s),
        spec_run(ctx, s).error is None,
        block_admissible(spec_run(ctx, s).ctx, v),
    ensures
        spec_run_admissible(ctx, s.push(v)),
    decreases s.len(),
{
    if s.len() == 0 {
        assert(s.push(v)[0] == v);
        assert(s.push(v).drop_first() =~= Seq::<BlockModel>::empty());
        assert(spec_run(ctx, s) == (RunResult {
            ctx,
            packets: Seq::<PacketModel>::empty(),
            error: None::<Error>,
        }));
        let (c1, out) = spec_handle_block(ctx, v);
        assert(spec_run_admissible(c1, Seq::<BlockModel>::empty()));
        assert(spec_run_admissible(ctx, s.push(v)));
    } else {
        let (c1, out) = spec_handle_block(ctx, s[0]);
        assert(s.push(v)[0] == s[0]);
        assert(s.push(v).drop_first() =~= s.drop_first().push(v));
        match out {
            StepOutcome::Silent => {
                lemma_admissible_snoc(c1, s.drop_first(), v);
                assert(spec_run_admissible(ctx, s.push(v)));
            },
            StepOutcome::Emitted(p) => {
                lemma_admissible_snoc(c1, s.drop_first(), v);
                assert(spec_run_admissible(ctx, s.push(v)));
            },
            StepOutcome::Failed(e) => {
                assert(false);
            },
        }
    }
}

/// Running a concatenation equals running the first part, then the second
/// from where the first ended, provided the first part does not fail.
pub proof fn lemma_run_append(ctx: ContextModel, s1: Seq<BlockModel>, s2: Seq<BlockModel>)
    requires
        spec_run(ctx, s1).error is None,
    ensures
        spec_run(ctx, s1 + s2).ctx == spec_run(spec_run(ctx, s1).ctx, s2).ctx,
        spec_run(ctx, s1 + s2).packets == spec_run(ctx, s1).packets + spec_run(
            spec_run(ctx, s1).ctx,
            s2,
        ).packets,
        spec_run(ctx, s1 + s2).error == spec_run(spec_run(ctx, s1).ctx, s2).error,
    decreases s1.len(),
{
    if s1.len() == 0 {
        assert(s1 + s2 =~= s2);
        assert(spec_run(ctx, s1).packets + spec_run(ctx, s2).packets =~= spec_run(
            ctx,
            s2,
        ).packets);
    } else {
        assert(block_admissible(ctx, s1[0]));
        let (c1, out) = spec_handle_block(ctx, s1[0]);
        assert((s1 + s2)[0] == s1[0]);
        assert((s1 + s2).drop_first() =~= s1.drop_first() + s2);
        match out {
            StepOutcome::Silent => {
                lemma_run_append(c1, s1.drop_first(), s2);
            },
            StepOutcome::Emitted(p) => {
                lemma_run_append(c1, s1.drop_first(), s2);
                let ra = spec_run(c1, s1.drop_first());
                let rb = spec_run(ra.ctx, s2);
                assert(seq![p] + (ra.packets + rb.packets) =~= (seq![p] + ra.packets)
                    + rb.packets);
            },
            StepOutcome::Failed(e) => {
                assert(false);
            },
        }
    }
}

/// Law: the packet records of a run carry consecutive ordinals, starting
/// right after the count the context already holds.
pub proof fn lemma_pcap_indices(ctx: ContextModel, blocks: Seq<BlockModel>)
    requires
        spec_run_admissible(ctx, blocks),
    ensures
        ({
            let rr = spec_run(ctx, blocks);
            forall|k: int|
                0 <= k < rr.packets.len() ==> (#[trigger] rr.packets[k]).pcap_index
                    == ctx.pcap_index + 1 + k
        }),
    decreases blocks.len(),
{
    if blocks.len() > 0 {
        let (c1, out) = spec_handle_block(ctx, blocks[0]);
        match out {
            StepOutcome::Silent => {
                lemma_pcap_indices(c1, blocks.drop_first());
            },
            StepOutcome::Emitted(p) => {
                lemma_pcap_indices(c1, blocks.drop_first());
                let rest = spec_run(c1, blocks.drop_first());
                assert forall|k: int|
                    0 <= k < spec_run(ctx, blocks).packets.len() implies (#[trigger] spec_run(
                    ctx,
                    blocks,
                ).packets[k]).pcap_index == ctx.pcap_index + 1 + k by {
                    if k > 0 {
                        assert(spec_run(ctx, blocks).packets[k] == rest.packets[k - 1]);
                    }
                }
            },
            StepOutcome::Failed(e) => {
            },
        }
    }
}

/// Law: over a whole well-formed capture, the emitted `pcap_index` values
/// are `1, 2, ..., N` with no gaps.
pub proof fn lemma_pcap_indices_dense(blocks: Seq<BlockModel>)
    requires
        spec_run_admissible(initial_context(), blocks),
    ensures
        ({
            let rr = spec_run(initial_context(), blocks);
            forall|k: int|
                0 <= k < rr.packets.len() ==> (#[trigger] rr.packets[k]).pcap_index == k + 1
        }),
{
    lemma_pcap_indices(initial_context(), blocks);
}

/// Law: every packet a run emits has a captured length no larger than its
/// original length.
pub proof fn lemma_caplen_within_origlen(ctx: ContextModel, blocks: Seq<BlockModel>)
    ensures
        ({
            let rr = spec_run(ctx, blocks);
            forall|k: int|
                0 <= k < rr.packets.len() ==> (#[trigger] rr.packets[k]).caplen
                    <= rr.packets[k].origlen
        }),
    decreases blocks.len(),
{
    if blocks.len() > 0 {
        let (c1, out) = spec_handle_block(ctx, blocks[0]);
        match out {
            StepOutcome::Silent => {
                lemma_caplen_within_origlen(c1, blocks.drop_first());
            },
            StepOutcome::Emitted(p) => {
                lemma_caplen_within_origlen(c1, blocks.drop_first());
                let rest = spec_run(c1, blocks.drop_first());
                assert forall|k: int|
                    0 <= k < spec_run(ctx, blocks).packets.len() implies (#[trigger] spec_run(
                    ctx,
                    blocks,
                ).packets[k]).caplen <= spec_run(ctx, blocks).packets[k].origlen by {
                    if k > 0 {
                        assert(spec_run(ctx, blocks).packets[k] == rest.packets[k - 1]);
                    }
                }
            },
            StepOutcome::Failed(e) => {
            },
        }
    }
}

/// Two runs over the same blocks from contexts that agree on the interface
/// table and endianness emit the same packets, up to the record ordinals,
/// and end with the same interface table.
pub proof fn lemma_section_equiv(c1: ContextModel, c2: ContextModel, s: Seq<BlockModel>)
    requires
        c1.interfaces == c2.interfaces,
        c1.bigendian == c2.bigendian,
        spec_run_admissible(c1, s),
        spec_run_admissible(c2, s),
    ensures
        ({
            let r1 = spec_run(c1, s);
            let r2 = spec_run(c2, s);
            &&& r1.packets.len() == r2.packets.len()
            &&& (r1.error is None) == (r2.error is None)
            &&& r1.ctx.interfaces == r2.ctx.interfaces
            &&& r1.ctx.bigendian == r2.ctx.bigendian
            &&& forall|k: int|
                0 <= k < r1.packets.len() ==> ((#[trigger] r1.packets[k]).interface
                    == r2.packets[k].interface && r1.packets[k].ts == r2.packets[k].ts
                    && r1.packets[k].data == r2.packets[k].data && r1.packets[k].origlen
                    == r2.packets[k].origlen && r1.packets[k].caplen == r2.packets[k].caplen
                    && r1.packets[k].pcap_index - c1.pcap_index == r2.packets[k].pcap_index
                    - c2.pcap_index)
        }),
    decreases s.len(),
{
    if s.len() > 0 {
        let (c1p, out1) = spec_handle_block(c1, s[0]);
        let (c2p, out2) = spec_handle_block(c2, s[0]);
        match out1 {
            StepOutcome::Silent => {
                lemma_section_equiv(c1p, c2p, s.drop_first());
            },
            StepOutcome::Emitted(p1) => {
                lemma_section_equiv(c1p, c2p, s.drop_first());
                let ra = spec_run(c1p, s.drop_first());
                let rb = spec_run(c2p, s.drop_first());
                let r1 = spec_run(c1, s);
                let r2 = spec_run(c2, s);
                assert forall|k: int|
                    0 <= k < r1.packets.len() implies ((#[trigger] r1.packets[k]).interface
                    == r2.packets[k].interface && r1.packets[k].ts == r2.packets[k].ts
                    && r1.packets[k].data == r2.packets[k].data && r1.packets[k].origlen
                    == r2.packets[k].origlen && r1.packets[k].caplen == r2.packets[k].caplen
                    && r1.packets[k].pcap_index - c1.pcap_index == r2.packets[k].pcap_index
                    - c2.pcap_index) by {
                    if k > 0 {
                        assert(r1.packets[k] == ra.packets[k - 1]);
                        assert(r2.packets[k] == rb.packets[k - 1]);
                    }
                }
            },
            StepOutcome::Failed(e) => {
            },
        }
    }
}

/// Law: concatenating two captures, the second opening with its own section
/// header, yields as many packets as the two produce on their own, one
/// sequence after the other, and ends with the second capture's interface
/// table.
pub proof fn lemma_section_concat(s1: Seq<BlockModel>, s2: Seq<BlockModel>)
    requires
        s2.len() > 0,
        s2[0] is SectionHeader,
        spec_run_admissible(initial_context(), s1),
        spec_run(initial_context(), s1).error is None,
        spec_run_admissible(spec_run(initial_context(), s1).ctx, s2),
        spec_run_admissible(initial_context(), s2),
    ensures
        spec_run(initial_context(), s1 + s2).packets.len() == spec_run(
            initial_context(),
            s1,
        ).packets.len() + spec_run(initial_context(), s2).packets.len(),
        spec_run(initial_context(), s1 + s2).ctx.interfaces == spec_run(
            initial_context(),
            s2,
        ).ctx.interfaces,
        (spec_run(initial_context(), s1 + s2).error is None) == (spec_run(
            initial_context(),
            s2,
        ).error is None),
{
    let mid = spec_run(initial_context(), s1).ctx;
    lemma_run_append(initial_context(), s1, s2);
    let (m1, o1) = spec_handle_block(mid, s2[0]);
    let (m2, o2) = spec_handle_block(initial_context(), s2[0]);
    lemma_section_equiv(m1, m2, s2.drop_first());
}

/// The engine: wraps an analyzer, abstracts the capture format away, and
/// feeds the analyzer one decoded packet at a time.
pub struct PcapDataEngine<A: PcapAnalyzer> {
    pub engine: PcapDataAnalyzer<A>,
}

impl<A: PcapAnalyzer> PcapDataEngine<A> {
    pub fn new(data_analyzer: A, config: &Config) -> (r: PcapDataEngine<A>)
        ensures
            r.engine.ctx@ == initial_context(),
            r.engine.emitted@ == Seq::<PacketModel>::empty(),
            r.engine.data_analyzer == data_analyzer,
    {
        let _ = config;
        PcapDataEngine { engine: PcapDataAnalyzer::new(data_analyzer) }
    }

    pub fn data_analyzer(&self) -> (r: &A)
        ensures
            r == &self.engine.data_analyzer,
    {
        &self.engine.data_analyzer
    }

    /// Decode a whole sequence of blocks: `init` first, one step per
    /// block, `teardown` on success. Each block is checked for
    /// admissibility before it is decoded: a record that cannot be decoded
    /// without a panic (an unknown interface id, a timestamp the
    /// normalisation cannot divide, an exhausted record counter) is
    /// refused as a malformed capture instead. Over a
    /// well-formed capture the decoded packets and the final context equal
    /// the model's run, a fatal decode error is returned exactly as the
    /// model gives it, and an analyzer failure as `AnalyzerError`: run
    /// twice over the same blocks, the engine emits the same packets.
    pub fn run_blocks(&mut self, blocks: &Vec<CaptureBlock>) -> (r: Result<(), Error>)
        ensures
            ({
                let rr = spec_run(old(self).engine.ctx@, block_views(blocks@));
                let ctx2 = final(self).engine.ctx@;
                let em2 = final(self).engine.emitted@;
                &&& (r is Ok ==> ctx2 == rr.ctx && em2 == old(self).engine.emitted@ + rr.packets
                    && rr.error is None)
                &&& match r {
                    Ok(()) => true,
                    Err(e) => match e {
                        Error::AnalyzerError(_) => exists|j: int|
                            0 <= j <= block_views(blocks@).len() && ({
                                let rp = #[trigger] spec_run(
                                    old(self).engine.ctx@,
                                    block_views(blocks@).take(j),
                                );
                                &&& rp.error is None
                                &&& ctx2 == rp.ctx
                                &&& em2 == old(self).engine.emitted@ + rp.packets
                            }),
                        _ => rr.error == Some(e) && ctx2 == rr.ctx && em2 == old(
                            self,
                        ).engine.emitted@ + rr.packets,
                    },
                }
            }),
    {
        let ghost ctx0 = self.engine.ctx@;
        let ghost views = block_views(blocks@);
        let ghost e0 = self.engine.emitted@;
        proof {
            assert(views.take(0) =~= Seq::<BlockModel>::empty());
            assert(views.skip(0) =~= views);
            assert(e0 + spec_run(ctx0, views.take(0)).packets =~= e0);
        }
        if let Err(_) = self.engine.data_analyzer.init() {
            proof {
                assert(spec_run(ctx0, views.take(0)) == (RunResult {
                    ctx: ctx0,
                    packets: Seq::<PacketModel>::empty(),
                    error: None::<Error>,
                }));
            }
            return Err(Error::AnalyzerError(0));
        }
        let mut i: usize = 0;
        while i < blocks.len()
            invariant
                0 <= i <= blocks.len(),
                views == block_views(blocks@),
                views.len() == blocks@.len(),
                ctx0 == old(self).engine.ctx@,
                e0 == old(self).engine.emitted@,
                spec_run(ctx0, views.take(i as int)).error is None,
                spec_run_admissible(ctx0, views.take(i as int)),
                self.engine.ctx@ == spec_run(ctx0, views.take(i as int)).ctx,
                self.engine.emitted@ == e0 + spec_run(ctx0, views.take(i as int)).packets,
                spec_run_admissible(ctx0, views) ==> spec_run_admissible(
                    self.engine.ctx@,
                    views.skip(i as int),
                ),
            decreases blocks.len() - i,
        {
            let ghost cur = self.engine.ctx@;
            let ghost taken = views.take(i as int);
            assert(views.skip(i as int)[0] == views[i as int]);
            assert(views[i as int] == blocks@[i as int]@);
            if !block_admissible_check(&self.engine.ctx, &blocks[i]) {
                proof {
                    lemma_run_append(ctx0, taken, views.skip(i as int));
                    assert(taken + views.skip(i as int) =~= views);
                    assert(views.skip(i as int).len() > 0);
                    assert(spec_run(cur, views.skip(i as int)) == (RunResult {
                        ctx: cur,
                        packets: Seq::<PacketModel>::empty(),
                        error: Some(Error::MalformedCapture(refusal_index(cur))),
                    }));
                    assert(spec_run(ctx0, views).packets =~= spec_run(ctx0, taken).packets);
                }
                let idx = if self.engine.ctx.pcap_index < u64::MAX {
                    self.engine.ctx.pcap_index + 1
                } else {
                    u64::MAX
                };
                return Err(Error::MalformedCapture(idx));
            }
            let res = self.engine.handle_block(&blocks[i]);
            proof {
                let v = views[i as int];
                let single = seq![v];
                lemma_run_append(ctx0, taken, single);
                lemma_admissible_snoc(ctx0, taken, v);
                assert(taken.push(v) =~= views.take(i as int + 1));
                assert(single.len() == 1);
                assert(single[0] == v);
                assert(single.drop_first() =~= Seq::<BlockModel>::empty());
                assert(taken + single =~= views.take(i as int + 1));
                assert(views.skip(i as int).drop_first() =~= views.skip(i as int + 1));
                let (c1, out) = spec_handle_block(cur, v);
                assert(spec_run(c1, Seq::<BlockModel>::empty()) == (RunResult {
                    ctx: c1,
                    packets: Seq::<PacketModel>::empty(),
                    error: None::<Error>,
                }));
            }
            match res {
                Ok(()) => {
                    proof {
                        let v = views[i as int];
                        let (c1, out) = spec_handle_block(cur, v);
                        match out {
                            StepOutcome::Silent => {
                                assert(spec_run(cur, seq![v]) == spec_run(
                                    c1,
                                    Seq::<BlockModel>::empty(),
                                ));
                                assert(spec_run(ctx0, views.take(i as int + 1)).packets
                                    =~= spec_run(ctx0, taken).packets);
                            },
                            StepOutcome::Emitted(p) => {
                                assert(spec_run(cur, seq![v]).packets =~= seq![p]);
                                assert(spec_run(ctx0, views.take(i as int + 1)).packets
                                    =~= spec_run(ctx0, taken).packets + seq![p]);
                                assert(self.engine.emitted@ =~= (e0 + spec_run(
                                    ctx0,
                                    taken,
                                ).packets).push(p));
                                assert(self.engine.emitted@ =~= e0 + spec_run(
                                    ctx0,
                                    views.take(i as int + 1),
                                ).packets);
                            },
                            StepOutcome::Failed(e) => {},
                        }
                    }
                    i = i + 1;
                },
                Err(e) => {
                    proof {
                        let v = views[i as int];
                        let (c1, out) = spec_handle_block(cur, v);
                        match out {
                            StepOutcome::Failed(e2) => {
                                lemma_run_append(ctx0, taken, views.skip(i as int));
                                assert(taken + views.skip(i as int) =~= views);
                                assert(views.skip(i as int).len() > 0);
                                assert(spec_run(cur, views.skip(i as int)) == (RunResult {
                                    ctx: c1,
                                    packets: Seq::<PacketModel>::empty(),
                                    error: Some(e2),
                                }));
                                assert(spec_run(ctx0, views).packets =~= spec_run(
                                    ctx0,
                                    taken,
                                ).packets);
                            },
                            StepOutcome::Emitted(p) => {
                                // the analyzer failed on this packet: the
                                // state equals the model run of the blocks
                                // up to and including it
                                assert(spec_run(cur, seq![v]).packets =~= seq![p]);
                                assert(spec_run(ctx0, views.take(i as int + 1)).packets
                                    =~= spec_run(ctx0, taken).packets + seq![p]);
                                assert(self.engine.emitted@ =~= (e0 + spec_run(
                                    ctx0,
                                    taken,
                                ).packets).push(p));
                                assert(self.engine.emitted@ =~= e0 + spec_run(
                                    ctx0,
                                    views.take(i as int + 1),
                                ).packets);
                            },
                            _ => {},
                        }
                    }
                    return Err(e);
                },
            }
        }
        proof {
            assert(views.take(blocks@.len() as int) =~= views);
        }
        self.engine.data_analyzer.teardown();
        Ok(())
    }
}

} // verus!
