use vstd::prelude::*;
use crate::flow::{FiveTuple, IpAddress};
use crate::packet::{PayloadModel, TaggedPayload};

verus! {

/// Big-endian value of the `n` bytes of `d` starting at `i`.
pub open spec fn spec_be(d: Seq<u8>, i: int, n: int) -> int
    decreases n,
{
    if n <= 0 {
        0
    } else {
        spec_be(d, i, n - 1) * 256 + d[i + n - 1]
    }
}

pub open spec fn pow256(n: int) -> int
    decreases n,
{
    if n <= 0 {
        1
    } else {
        256 * pow256(n - 1)
    }
}

proof fn lemma_pow256_le(a: int, b: int)
    requires
        0 <= a <= b,
    ensures
        1 <= pow256(a) <= pow256(b),
    decreases b,
{
    if a < b {
        lemma_pow256_le(a, b - 1);
    } else {
        if a > 0 {
            lemma_pow256_le(a - 1, a - 1);
        }
    }
}

/// `spec_be` of `n` bytes lies in `[0, 256^n)`.
proof fn lemma_be_pow_bound(d: Seq<u8>, i: int, n: int)
    requires
        0 <= n,
        0 <= i,
        i + n <= d.len(),
    ensures
        0 <= spec_be(d, i, n) < pow256(n),
    decreases n,
{
    if n > 0 {
        lemma_be_pow_bound(d, i, n - 1);
    }
}

/// Two big-endian bytes fit a `u16`.
proof fn lemma_u16_value(d: Seq<u8>, i: int)
    requires
        0 <= i,
        i + 2 <= d.len(),
    ensures
        0 <= spec_be(d, i, 2) < 0x1_0000,
{
    lemma_be_pow_bound(d, i, 2);
    assert(pow256(2) == 0x1_0000) by {
        reveal_with_fuel(pow256, 3);
    }
}

/// Four big-endian bytes fit a `u32`.
proof fn lemma_u32_value(d: Seq<u8>, i: int)
    requires
        0 <= i,
        i + 4 <= d.len(),
    ensures
        0 <= spec_be(d, i, 4) < 0x1_0000_0000,
{
    lemma_be_pow_bound(d, i, 4);
    assert(pow256(4) == 0x1_0000_0000) by {
        reveal_with_fuel(pow256, 5);
    }
}

/// Sixteen big-endian bytes fit a `u128`.
proof fn lemma_u128_value(d: Seq<u8>, i: int)
    requires
        0 <= i,
        i + 16 <= d.len(),
    ensures
        0 <= spec_be(d, i, 16) < 0x1_0000_0000_0000_0000_0000_0000_0000_0000,
{
    lemma_be_pow_bound(d, i, 16);
    assert(pow256(16) == 0x1_0000_0000_0000_0000_0000_0000_0000_0000) by {
        reveal_with_fuel(pow256, 17);
    }
}

fn u16_be(d: &[u8], i: usize) -> (r: u16)
    requires
        i + 2 <= d@.len(),
    ensures
        r == spec_be(d@, i as int, 2),
{
    proof {
        assert(spec_be(d@, i as int, 0) == 0);
        assert(spec_be(d@, i as int, 1) == d@[i as int]);
        assert(spec_be(d@, i as int, 2) == spec_be(d@, i as int, 1) * 256 + d@[i as int + 1]);
    }
    (d[i] as u16) * 256 + (d[i + 1] as u16)
}

fn u32_be(d: &[u8], i: usize) -> (r: u32)
    requires
        i + 4 <= d@.len(),
    ensures
        r == spec_be(d@, i as int, 4),
{
    proof {
        assert(spec_be(d@, i as int, 0) == 0);
        assert(spec_be(d@, i as int, 1) == d@[i as int]);
        assert(spec_be(d@, i as int, 2) == spec_be(d@, i as int, 1) * 256 + d@[i as int + 1]);
        assert(spec_be(d@, i as int, 3) == spec_be(d@, i as int, 2) * 256 + d@[i as int + 2]);
        assert(spec_be(d@, i as int, 4) == spec_be(d@, i as int, 3) * 256 + d@[i as int + 3]);
    }
    (d[i] as u32) * 0x100_0000 + (d[i + 1] as u32) * 0x1_0000 + (d[i + 2] as u32) * 0x100 + (d[i
        + 3] as u32)
}

fn u128_be(d: &[u8], i: usize) -> (r: u128)
    requires
        i + 16 <= d@.len(),
    ensures
        r == spec_be(d@, i as int, 16),
{
    let n = d.len();
    let mut acc: u128 = 0;
    let mut k: usize = 0;
    while k < 16
        invariant
            d@.len() == n,
            i + 16 <= d@.len(),
            0 <= k <= 16,
            acc == spec_be(d@, i as int, k as int),
            acc < pow256(k as int),
        decreases 16 - k,
    {
        proof {
            lemma_pow256_le(k as int + 1, 16);
            assert(pow256(16) == 0x1_0000_0000_0000_0000_0000_0000_0000_0000) by {
                reveal_with_fuel(pow256, 17);
            }
            assert(acc * 256 + d@[i as int + k as int] < pow256(k as int + 1));
        }
        acc = acc * 256 + (d[i + k] as u128);
        k = k + 1;
    }
    acc
}

/// The source address of the IPv4 header at `off`.
pub open spec fn spec_v4_src(d: Seq<u8>, off: int) -> IpAddress {
    IpAddress::V4(spec_be(d, off + 12, 4) as u32)
}

/// The destination address of the IPv4 header at `off`.
pub open spec fn spec_v4_dst(d: Seq<u8>, off: int) -> IpAddress {
    IpAddress::V4(spec_be(d, off + 16, 4) as u32)
}

/// The header length in bytes encoded by the IPv4 header's low nibble.
pub open spec fn spec_v4_ihl(d: Seq<u8>, off: int) -> int {
    (d[off] & 0x0f) * 4
}

/// The source address of the IPv6 header at `off`.
pub open spec fn spec_v6_src(d: Seq<u8>, off: int) -> IpAddress {
    IpAddress::V6(spec_be(d, off + 8, 16) as u128)
}

/// The destination address of the IPv6 header at `off`.
pub open spec fn spec_v6_dst(d: Seq<u8>, off: int) -> IpAddress {
    IpAddress::V6(spec_be(d, off + 24, 16) as u128)
}

/// The five-tuple of the IPv4 packet at `off`: addresses and protocol from
/// the header, ports right after it. Defined when the bytes reach.
pub open spec fn spec_v4_five_tuple(d: Seq<u8>, off: int) -> FiveTuple {
    FiveTuple {
        proto: d[off + 9],
        src: spec_v4_src(d, off),
        dst: spec_v4_dst(d, off),
        src_port: spec_be(d, off + spec_v4_ihl(d, off), 2) as u16,
        dst_port: spec_be(d, off + spec_v4_ihl(d, off) + 2, 2) as u16,
    }
}

/// Whether the bytes at `off` can hold an IPv4 header and its ports.
pub open spec fn spec_v4_tuple_readable(d: Seq<u8>, off: int) -> bool {
    &&& off + 20 <= d.len()
    &&& spec_v4_ihl(d, off) >= 20
    &&& off + spec_v4_ihl(d, off) + 4 <= d.len()
}

/// The five-tuple of the IPv6 packet at `off`: addresses and next header
/// from the fixed header, ports right after its 40 bytes.
pub open spec fn spec_v6_five_tuple(d: Seq<u8>, off: int) -> FiveTuple {
    FiveTuple {
        proto: d[off + 6],
        src: spec_v6_src(d, off),
        dst: spec_v6_dst(d, off),
        src_port: spec_be(d, off + 40, 2) as u16,
        dst_port: spec_be(d, off + 42, 2) as u16,
    }
}

/// Whether the bytes at `off` can hold an IPv6 fixed header and its ports.
pub open spec fn spec_v6_tuple_readable(d: Seq<u8>, off: int) -> bool {
    off + 44 <= d.len()
}

/// Source and destination of the IPv4 header at `off`; an error when the
/// bytes cannot hold a 20-byte header.
pub fn parse_ipv4_addrs(d: &[u8], off: usize) -> (r: Result<(IpAddress, IpAddress), String>)
    ensures
        r is Ok <==> off + 20 <= d@.len(),
        r is Ok ==> r->Ok_0 == (spec_v4_src(d@, off as int), spec_v4_dst(d@, off as int)),
{
    if d.len() < 20 || off > d.len() - 20 {
        return Err(String::from_str("L3 data too small for IPv4 header"));
    }
    proof {
        lemma_u32_value(d@, off as int + 12);
        lemma_u32_value(d@, off as int + 16);
    }
    let src = IpAddress::V4(u32_be(d, off + 12));
    let dst = IpAddress::V4(u32_be(d, off + 16));
    Ok((src, dst))
}


/// The five-tuple of the IPv4 packet at `off`; an error when header or
/// ports do not fit, or the header-length nibble is shorter than a header.
pub fn parse_ipv4_five_tuple(d: &[u8], off: usize) -> (r: Result<FiveTuple, String>)
    ensures
        r is Ok <==> spec_v4_tuple_readable(d@, off as int),
        r is Ok ==> r->Ok_0 == spec_v4_five_tuple(d@, off as int),
{
    if d.len() < 20 || off > d.len() - 20 {
        return Err(String::from_str("L3 data too small for IPv4 header"));
    }
    let ihl: usize = ((d[off] & 0x0f) as usize) * 4;
    if ihl < 20 {
        return Err(String::from_str("IPv4 header length field too small"));
    }
    if d.len() < ihl + 4 || off > d.len() - (ihl + 4) {
        return Err(String::from_str("L3 data too small for IPv4 ports"));
    }
    proof {
        lemma_u32_value(d@, off as int + 12);
        lemma_u32_value(d@, off as int + 16);
        lemma_u16_value(d@, off as int + ihl as int);
        lemma_u16_value(d@, off as int + ihl as int + 2);
    }
    Ok(
        FiveTuple {
            proto: d[off + 9],
            src: IpAddress::V4(u32_be(d, off + 12)),
            dst: IpAddress::V4(u32_be(d, off + 16)),
            src_port: u16_be(d, off + ihl),
            dst_port: u16_be(d, off + ihl + 2),
        },
    )
}

/// Source and destination of the IPv6 header at `off`; an error when the
/// bytes cannot hold the 40-byte fixed header.
pub fn parse_ipv6_addrs(d: &[u8], off: usize) -> (r: Result<(IpAddress, IpAddress), String>)
    ensures
        r is Ok <==> off + 40 <= d@.len(),
        r is Ok ==> r->Ok_0 == (spec_v6_src(d@, off as int), spec_v6_dst(d@, off as int)),
{
    if d.len() < 40 || off > d.len() - 40 {
        return Err(String::from_str("L3 data too small for IPv6 header"));
    }
    proof {
        lemma_u128_value(d@, off as int + 8);
        lemma_u128_value(d@, off as int + 24);
    }
    let src = IpAddress::V6(u128_be(d, off + 8));
    let dst = IpAddress::V6(u128_be(d, off + 24));
    Ok((src, dst))
}


/// The five-tuple of the IPv6 packet at `off`: the ports are read directly
/// after the fixed header; extension headers are not walked.
pub fn parse_ipv6_five_tuple(d: &[u8], off: usize) -> (r: Result<FiveTuple, String>)
    ensures
        r is Ok <==> spec_v6_tuple_readable(d@, off as int),
        r is Ok ==> r->Ok_0 == spec_v6_five_tuple(d@, off as int),
{
    if d.len() < 44 || off > d.len() - 44 {
        return Err(String::from_str("L3 data too small for IPv6 header and ports"));
    }
    proof {
        lemma_u128_value(d@, off as int + 8);
        lemma_u128_value(d@, off as int + 24);
        lemma_u16_value(d@, off as int + 40);
        lemma_u16_value(d@, off as int + 42);
    }
    Ok(
        FiveTuple {
            proto: d[off + 6],
            src: IpAddress::V6(u128_be(d, off + 8)),
            dst: IpAddress::V6(u128_be(d, off + 24)),
            src_port: u16_be(d, off + 40),
            dst_port: u16_be(d, off + 42),
        },
    )
}

/// The five-tuple of a tagged payload: a link-layer frame is read past
/// its 14-byte ethernet header, network-layer bytes directly; only IPv4
/// and IPv6 carry one.
pub open spec fn spec_five_tuple_of_payload(p: PayloadModel) -> Option<FiveTuple> {
    match p {
        PayloadModel::L2(d) => {
            if d.len() < 14 {
                None
            } else {
                spec_five_tuple_at((spec_be(d, 12, 2)) as u16, d, 14)
            }
        },
        PayloadModel::L3(e, d) => spec_five_tuple_at(e, d, 0),
        _ => None,
    }
}

pub open spec fn spec_five_tuple_at(ethertype: u16, d: Seq<u8>, off: int) -> Option<FiveTuple> {
    if ethertype == 0x0800 {
        if spec_v4_tuple_readable(d, off) {
            Some(spec_v4_five_tuple(d, off))
        } else {
            None
        }
    } else if ethertype == 0x86dd {
        if spec_v6_tuple_readable(d, off) {
            Some(spec_v6_five_tuple(d, off))
        } else {
            None
        }
    } else {
        None
    }
}

/// Where the transport payload of the packet at `off` starts: after the
/// IPv4 header and the UDP header or the TCP header with its offset field,
/// after the fixed IPv6 header likewise. `None` for other transports, for
/// a TCP offset field below the fixed header size, and for bytes too short.
pub open spec fn spec_l4_payload_offset(ethertype: u16, d: Seq<u8>, off: int) -> Option<int> {
    match spec_five_tuple_at(ethertype, d, off) {
        None => None,
        Some(t) => {
            let l4_off = if ethertype == 0x0800 {
                off + spec_v4_ihl(d, off)
            } else {
                off + 40
            };
            if t.proto == 17 {
                if l4_off + 8 <= d.len() {
                    Some(l4_off + 8)
                } else {
                    None
                }
            } else if t.proto == 6 {
                let data_off = (d[l4_off + 12] >> 4) * 4;
                if l4_off + 13 <= d.len() && data_off >= 20 && l4_off + data_off <= d.len() {
                    Some(l4_off + data_off)
                } else {
                    None
                }
            } else {
                None
            }
        },
    }
}

/// The transport payload bytes of a tagged payload, or `None` where
/// [`spec_l4_payload_offset`] finds none.
pub open spec fn spec_l4_payload_of(p: PayloadModel) -> Option<Seq<u8>> {
    let at = match p {
        PayloadModel::L2(d) => {
            if d.len() < 14 {
                None
            } else {
                Some(((spec_be(d, 12, 2)) as u16, d, 14int))
            }
        },
        PayloadModel::L3(e, d) => Some((e, d, 0int)),
        _ => None,
    };
    match at {
        None => None,
        Some((e, d, off)) => match spec_l4_payload_offset(e, d, off) {
            None => None,
            Some(poff) => Some(d.subrange(poff, d.len() as int)),
        },
    }
}

/// The five-tuple of a decoded packet's payload.
pub fn five_tuple_of_payload(data: &TaggedPayload) -> (r: Option<FiveTuple>)
    ensures
        r == spec_five_tuple_of_payload(data@),
{
    match data {
        TaggedPayload::L2(d) => {
            if d.len() < 14 {
                None
            } else {
                let ethertype = (d[12] as u16) * 256 + (d[13] as u16);
                proof {
                    assert(spec_be(d@, 12, 0) == 0);
                    assert(spec_be(d@, 12, 1) == d@[12]);
                    assert(spec_be(d@, 12, 2) == spec_be(d@, 12, 1) * 256 + d@[13]);
                }
                five_tuple_at(ethertype, d.as_slice(), 14)
            }
        },
        TaggedPayload::L3(e, d) => five_tuple_at(*e, d.as_slice(), 0),
        _ => None,
    }
}

fn five_tuple_at(ethertype: u16, d: &[u8], off: usize) -> (r: Option<FiveTuple>)
    ensures
        r == spec_five_tuple_at(ethertype, d@, off as int),
{
    if ethertype == 0x0800 {
        match parse_ipv4_five_tuple(d, off) {
            Ok(t) => Some(t),
            Err(_) => None,
        }
    } else if ethertype == 0x86dd {
        match parse_ipv6_five_tuple(d, off) {
            Ok(t) => Some(t),
            Err(_) => None,
        }
    } else {
        None
    }
}

/// The transport payload bytes of a decoded packet, handed to the probe
/// cascade and to the bound parser.
pub fn l4_payload_of_payload(data: &TaggedPayload) -> (r: Option<Vec<u8>>)
    ensures
        (r is Some) == (spec_l4_payload_of(data@) is Some),
        r is Some ==> r->0@ == spec_l4_payload_of(data@)->0,
{
    match data {
        TaggedPayload::L2(d) => {
            if d.len() < 14 {
                None
            } else {
                let ethertype = (d[12] as u16) * 256 + (d[13] as u16);
                proof {
                    assert(spec_be(d@, 12, 0) == 0);
                    assert(spec_be(d@, 12, 1) == d@[12]);
                    assert(spec_be(d@, 12, 2) == spec_be(d@, 12, 1) * 256 + d@[13]);
                }
                l4_payload_at(ethertype, d.as_slice(), 14)
            }
        },
        TaggedPayload::L3(e, d) => l4_payload_at(*e, d.as_slice(), 0),
        _ => None,
    }
}

fn l4_payload_at(ethertype: u16, d: &[u8], off: usize) -> (r: Option<Vec<u8>>)
    ensures
        (r is Some) == (spec_l4_payload_offset(ethertype, d@, off as int) is Some),
        r is Some ==> r->0@ == d@.subrange(
            spec_l4_payload_offset(ethertype, d@, off as int)->0,
            d@.len() as int,
        ),
{
    let t = match five_tuple_at(ethertype, d, off) {
        Some(t) => t,
        None => {
            return None;
        },
    };
    let l4_off: usize = if ethertype == 0x0800 {
        off + ((d[off] & 0x0f) as usize) * 4
    } else {
        off + 40
    };
    let poff: usize = if t.proto == 17 {
        if d.len() < 8 || l4_off > d.len() - 8 {
            return None;
        }
        l4_off + 8
    } else if t.proto == 6 {
        if d.len() < 13 || l4_off > d.len() - 13 {
            return None;
        }
        let data_off = ((d[l4_off + 12] >> 4) as usize) * 4;
        if data_off < 20 || d.len() < data_off || l4_off > d.len() - data_off {
            return None;
        }
        l4_off + data_off
    } else {
        return None;
    };
    Some(vstd::slice::slice_to_vec(vstd::slice::slice_subrange(d, poff, d.len())))
}

} // verus!
