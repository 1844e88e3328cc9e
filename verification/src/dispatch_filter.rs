use vstd::prelude::*;
use crate::flow::{FiveTuple, IpAddress};
use crate::key_parser::{
    parse_ipv4_addrs, parse_ipv4_five_tuple, parse_ipv6_addrs,
    parse_ipv6_five_tuple, spec_be, spec_v4_dst, spec_v4_five_tuple,
    spec_v4_src, spec_v4_tuple_readable, spec_v6_dst, spec_v6_five_tuple, spec_v6_src,
    spec_v6_tuple_readable,
};
use crate::packet::{PayloadModel, TaggedPayload};

verus! {

/// Which part of a packet selects it.
#[derive(Clone, Copy, PartialEq, Eq, Structural, Debug)]
pub enum FilteringKey {
    SrcIpaddr,
    DstIpaddr,
    SrcDstIpaddr,
    SrcIpaddrProtoDstPort,
    SrcDstIpaddrProtoSrcDstPort,
}

/// Whether a selected packet is kept or dropped.
#[derive(Clone, Copy, PartialEq, Eq, Structural, Debug)]
pub enum FilteringAction {
    Keep,
    Drop,
}

/// Outcome of a filter on one packet: pass it on, drop it silently, or
/// fail.
pub enum FResult<T, E> {
    Keep(T),
    Discard,
    Error(E),
}

/// `(address, protocol, destination port)` key.
#[derive(Clone, Copy, PartialEq, Eq, Structural, Debug)]
pub struct IpAddrProtoPort {
    pub ip: IpAddress,
    pub proto: u8,
    pub port: u16,
}

/// A set of addresses, scanned linearly.
pub struct IpAddrC {
    pub set: Vec<IpAddress>,
}

impl IpAddrC {
    pub fn new(set: Vec<IpAddress>) -> (r: IpAddrC)
        ensures
            r.set@ == set@,
    {
        IpAddrC { set }
    }

    pub fn contains(&self, ip: &IpAddress) -> (r: bool)
        ensures
            r == self.set@.contains(*ip),
    {
        contains_ip(&self.set, ip)
    }
}

/// A set of `(address, protocol, destination port)` keys.
pub struct IpAddrProtoPortC {
    pub set: Vec<IpAddrProtoPort>,
}

impl IpAddrProtoPortC {
    pub fn new(set: Vec<IpAddrProtoPort>) -> (r: IpAddrProtoPortC)
        ensures
            r.set@ == set@,
    {
        IpAddrProtoPortC { set }
    }

    pub fn contains(&self, k: &IpAddrProtoPort) -> (r: bool)
        ensures
            r == self.set@.contains(*k),
    {
        let mut i: usize = 0;
        while i < self.set.len()
            invariant
                0 <= i <= self.set@.len(),
                forall|j: int| 0 <= j < i ==> self.set@[j] != *k,
            decreases self.set@.len() - i,
        {
            if self.set[i] == *k {
                return true;
            }
            i = i + 1;
        }
        false
    }
}

/// A set of five-tuples.
pub struct FiveTupleC {
    pub set: Vec<FiveTuple>,
}

impl FiveTupleC {
    pub fn new(set: Vec<FiveTuple>) -> (r: FiveTupleC)
        ensures
            r.set@ == set@,
    {
        FiveTupleC { set }
    }

    pub fn contains(&self, k: &FiveTuple) -> (r: bool)
        ensures
            r == self.set@.contains(*k),
    {
        let mut i: usize = 0;
        while i < self.set.len()
            invariant
                0 <= i <= self.set@.len(),
                forall|j: int| 0 <= j < i ==> self.set@[j] != *k,
            decreases self.set@.len() - i,
        {
            if self.set[i] == *k {
                return true;
            }
            i = i + 1;
        }
        false
    }
}

fn contains_ip(set: &Vec<IpAddress>, ip: &IpAddress) -> (r: bool)
    ensures
        r == set@.contains(*ip),
{
    let mut i: usize = 0;
    while i < set.len()
        invariant
            0 <= i <= set@.len(),
            forall|j: int| 0 <= j < i ==> set@[j] != *ip,
        decreases set@.len() - i,
    {
        if set[i] == *ip {
            return true;
        }
        i = i + 1;
    }
    false
}

/// The key set a filter tests against; its shape must fit the filtering
/// key.
pub enum KeyContainer {
    IpSet(IpAddrC),
    IpProtoPortSet(IpAddrProtoPortC),
    FiveTupleSet(FiveTupleC),
}

/// Whether the container's shape fits the key choice: address keys take an
/// address set, the address-protocol-port key its own set, the five-tuple
/// key a tuple set.
pub open spec fn spec_container_fits(key: FilteringKey, c: KeyContainer) -> bool {
    match key {
        FilteringKey::SrcIpaddr => c is IpSet,
        FilteringKey::DstIpaddr => c is IpSet,
        FilteringKey::SrcDstIpaddr => c is IpSet,
        FilteringKey::SrcIpaddrProtoDstPort => c is IpProtoPortSet,
        FilteringKey::SrcDstIpaddrProtoSrcDstPort => c is FiveTupleSet,
    }
}

/// Keeps or drops packets according to a key extracted from their network
/// headers and a key set; the key choice, the action and the set are fixed
/// when the filter is built.
pub struct DispatchFilter {
    pub key_container: KeyContainer,
    pub filtering_key: FilteringKey,
    pub filtering_action: FilteringAction,
}

/// What the filter decides for one packet.
pub enum Verdict {
    Kept,
    Dropped,
    Failed,
}

impl DispatchFilter {
    pub open spec fn wf(&self) -> bool {
        spec_container_fits(self.filtering_key, self.key_container)
    }

    pub open spec fn ip_set(&self) -> Seq<IpAddress> {
        match self.key_container {
            KeyContainer::IpSet(c) => c.set@,
            _ => Seq::empty(),
        }
    }

    pub open spec fn ippp_set(&self) -> Seq<IpAddrProtoPort> {
        match self.key_container {
            KeyContainer::IpProtoPortSet(c) => c.set@,
            _ => Seq::empty(),
        }
    }

    pub open spec fn tuple_set(&self) -> Seq<FiveTuple> {
        match self.key_container {
            KeyContainer::FiveTupleSet(c) => c.set@,
            _ => Seq::empty(),
        }
    }

    /// Whether the bytes at `off` reach far enough to extract this filter's
    /// key from a packet of the given ethertype.
    pub open spec fn spec_readable(&self, ethertype: u16, d: Seq<u8>, off: int) -> bool {
        if ethertype == 0x0800 {
            match self.filtering_key {
                FilteringKey::SrcIpaddr => off + 20 <= d.len(),
                FilteringKey::DstIpaddr => off + 20 <= d.len(),
                FilteringKey::SrcDstIpaddr => off + 20 <= d.len(),
                FilteringKey::SrcIpaddrProtoDstPort => spec_v4_tuple_readable(d, off),
                FilteringKey::SrcDstIpaddrProtoSrcDstPort => spec_v4_tuple_readable(d, off),
            }
        } else if ethertype == 0x86dd {
            match self.filtering_key {
                FilteringKey::SrcIpaddr => off + 40 <= d.len(),
                FilteringKey::DstIpaddr => off + 40 <= d.len(),
                FilteringKey::SrcDstIpaddr => off + 40 <= d.len(),
                FilteringKey::SrcIpaddrProtoDstPort => spec_v6_tuple_readable(d, off),
                FilteringKey::SrcDstIpaddrProtoSrcDstPort => spec_v6_tuple_readable(d, off),
            }
        } else {
            false
        }
    }

    /// Whether the key extracted at `off` is in the key set.
    pub open spec fn spec_cond(&self, ethertype: u16, d: Seq<u8>, off: int) -> bool {
        if ethertype == 0x0800 {
            match self.filtering_key {
                FilteringKey::SrcIpaddr => self.ip_set().contains(spec_v4_src(d, off)),
                FilteringKey::DstIpaddr => self.ip_set().contains(spec_v4_dst(d, off)),
                FilteringKey::SrcDstIpaddr => self.ip_set().contains(spec_v4_src(d, off))
                    || self.ip_set().contains(spec_v4_dst(d, off)),
                FilteringKey::SrcIpaddrProtoDstPort => {
                    let t = spec_v4_five_tuple(d, off);
                    self.ippp_set().contains(
                        IpAddrProtoPort { ip: t.src, proto: t.proto, port: t.dst_port },
                    )
                },
                FilteringKey::SrcDstIpaddrProtoSrcDstPort => self.tuple_set().contains(
                    spec_v4_five_tuple(d, off),
                ),
            }
        } else {
            match self.filtering_key {
                FilteringKey::SrcIpaddr => self.ip_set().contains(spec_v6_src(d, off)),
                FilteringKey::DstIpaddr => self.ip_set().contains(spec_v6_dst(d, off)),
                FilteringKey::SrcDstIpaddr => self.ip_set().contains(spec_v6_src(d, off))
                    || self.ip_set().contains(spec_v6_dst(d, off)),
                FilteringKey::SrcIpaddrProtoDstPort => {
                    let t = spec_v6_five_tuple(d, off);
                    self.ippp_set().contains(
                        IpAddrProtoPort { ip: t.src, proto: t.proto, port: t.dst_port },
                    )
                },
                FilteringKey::SrcDstIpaddrProtoSrcDstPort => self.tuple_set().contains(
                    spec_v6_five_tuple(d, off),
                ),
            }
        }
    }

    /// Whether the packet is kept: a `Keep` filter keeps the packets whose
    /// key is in the set, a `Drop` filter keeps the others.
    pub open spec fn spec_keep_bool(&self, ethertype: u16, d: Seq<u8>, off: int) -> bool {
        match self.filtering_action {
            FilteringAction::Keep => self.spec_cond(ethertype, d, off),
            FilteringAction::Drop => !self.spec_cond(ethertype, d, off),
        }
    }

    /// The filter's whole decision for one payload: link-layer frames are
    /// judged past their 14-byte header by the ethertype they carry,
    /// network-layer payloads directly; an unknown ethertype or bytes too
    /// short for the key fail.
    pub open spec fn spec_verdict(&self, payload: PayloadModel) -> Verdict {
        match payload {
            PayloadModel::L2(d) => {
                if d.len() < 14 {
                    Verdict::Failed
                } else {
                    self.spec_l3_verdict((spec_be(d, 12, 2)) as u16, d, 14)
                }
            },
            PayloadModel::L3(e, d) => self.spec_l3_verdict(e, d, 0),
            _ => Verdict::Failed,
        }
    }

    pub open spec fn spec_l3_verdict(&self, ethertype: u16, d: Seq<u8>, off: int) -> Verdict {
        if ethertype == 0x0800 || ethertype == 0x86dd {
            if !self.spec_readable(ethertype, d, off) {
                Verdict::Failed
            } else if self.spec_keep_bool(ethertype, d, off) {
                Verdict::Kept
            } else {
                Verdict::Dropped
            }
        } else {
            Verdict::Failed
        }
    }

    pub fn new(
        key_container: KeyContainer,
        filtering_key: FilteringKey,
        filtering_action: FilteringAction,
    ) -> (r: DispatchFilter)
        ensures
            r.key_container == key_container,
            r.filtering_key == filtering_key,
            r.filtering_action == filtering_action,
    {
        DispatchFilter { key_container, filtering_key, filtering_action }
    }

    /// Decide whether the key at `off` is in the key set; an error names
    /// what could not be read.
    fn eval(&self, ethertype: u16, d: &[u8], off: usize) -> (r: Result<bool, String>)
        requires
            self.wf(),
            ethertype == 0x0800 || ethertype == 0x86dd,
        ensures
            r is Ok <==> self.spec_readable(ethertype, d@, off as int),
            r is Ok ==> r->Ok_0 == self.spec_cond(ethertype, d@, off as int),
    {
        if ethertype == 0x0800 {
            match (&self.filtering_key, &self.key_container) {
                (FilteringKey::SrcIpaddr, KeyContainer::IpSet(c)) => {
                    match parse_ipv4_addrs(d, off) {
                        Ok((src, _dst)) => Ok(c.contains(&src)),
                        Err(s) => Err(s),
                    }
                },
                (FilteringKey::DstIpaddr, KeyContainer::IpSet(c)) => {
                    match parse_ipv4_addrs(d, off) {
                        Ok((_src, dst)) => Ok(c.contains(&dst)),
                        Err(s) => Err(s),
                    }
                },
                (FilteringKey::SrcDstIpaddr, KeyContainer::IpSet(c)) => {
                    match parse_ipv4_addrs(d, off) {
                        Ok((src, dst)) => Ok(c.contains(&src) || c.contains(&dst)),
                        Err(s) => Err(s),
                    }
                },
                (FilteringKey::SrcIpaddrProtoDstPort, KeyContainer::IpProtoPortSet(c)) => {
                    match parse_ipv4_five_tuple(d, off) {
                        Ok(t) => Ok(
                            c.contains(
                                &IpAddrProtoPort { ip: t.src, proto: t.proto, port: t.dst_port },
                            ),
                        ),
                        Err(s) => Err(s),
                    }
                },
                (FilteringKey::SrcDstIpaddrProtoSrcDstPort, KeyContainer::FiveTupleSet(c)) => {
                    match parse_ipv4_five_tuple(d, off) {
                        Ok(t) => Ok(c.contains(&t)),
                        Err(s) => Err(s),
                    }
                },
                _ => Err(String::from_str("key set does not fit the filtering key")),
            }
        } else {
            match (&self.filtering_key, &self.key_container) {
                (FilteringKey::SrcIpaddr, KeyContainer::IpSet(c)) => {
                    match parse_ipv6_addrs(d, off) {
                        Ok((src, _dst)) => Ok(c.contains(&src)),
                        Err(s) => Err(s),
                    }
                },
                (FilteringKey::DstIpaddr, KeyContainer::IpSet(c)) => {
                    match parse_ipv6_addrs(d, off) {
                        Ok((_src, dst)) => Ok(c.contains(&dst)),
                        Err(s) => Err(s),
                    }
                },
                (FilteringKey::SrcDstIpaddr, KeyContainer::IpSet(c)) => {
                    match parse_ipv6_addrs(d, off) {
                        Ok((src, dst)) => Ok(c.contains(&src) || c.contains(&dst)),
                        Err(s) => Err(s),
                    }
                },
                (FilteringKey::SrcIpaddrProtoDstPort, KeyContainer::IpProtoPortSet(c)) => {
                    match parse_ipv6_five_tuple(d, off) {
                        Ok(t) => Ok(
                            c.contains(
                                &IpAddrProtoPort { ip: t.src, proto: t.proto, port: t.dst_port },
                            ),
                        ),
                        Err(s) => Err(s),
                    }
                },
                (FilteringKey::SrcDstIpaddrProtoSrcDstPort, KeyContainer::FiveTupleSet(c)) => {
                    match parse_ipv6_five_tuple(d, off) {
                        Ok(t) => Ok(c.contains(&t)),
                        Err(s) => Err(s),
                    }
                },
                _ => Err(String::from_str("key set does not fit the filtering key")),
            }
        }
    }

    /// Judge one packet. Link-layer frames must hold an ethernet header;
    /// the ethertype picks the network parser; the extracted key and the
    /// action decide. Bytes that cannot hold the key, and ethertypes other
    /// than IPv4 and IPv6, are errors, as is a payload that does not start
    /// at the link or network layer.
    pub fn keep(&self, packet_data: &TaggedPayload) -> (r: FResult<(), String>)
        requires
            self.wf(),
            packet_data@ is L2 || packet_data@ is L3,
        ensures
            match self.spec_verdict(packet_data@) {
                Verdict::Kept => r is Keep,
                Verdict::Dropped => r is Discard,
                Verdict::Failed => r is Error,
            },
    {
        match packet_data {
            TaggedPayload::L2(d) => {
                if d.len() < 14 {
                    return FResult::Error(String::from_str("L2 data too small for ethernet"));
                }
                let ethertype = u16_of_vec(d, 12);
                self.judge(ethertype, d.as_slice(), 14)
            },
            TaggedPayload::L3(ethertype, d) => self.judge(*ethertype, d.as_slice(), 0),
            TaggedPayload::L4(_, _) => FResult::Error(
                String::from_str("transport payload reaches no network header"),
            ),
            TaggedPayload::Unsupported(_) => FResult::Error(
                String::from_str("unsupported payload carries no network header"),
            ),
        }
    }

    fn judge(&self, ethertype: u16, d: &[u8], off: usize) -> (r: FResult<(), String>)
        requires
            self.wf(),
        ensures
            match self.spec_l3_verdict(ethertype, d@, off as int) {
                Verdict::Kept => r is Keep,
                Verdict::Dropped => r is Discard,
                Verdict::Failed => r is Error,
            },
    {
        if ethertype == 0x0800 || ethertype == 0x86dd {
            match self.eval(ethertype, d, off) {
                Ok(cond) => {
                    let keep = match self.filtering_action {
                        FilteringAction::Keep => cond,
                        FilteringAction::Drop => !cond,
                    };
                    if keep {
                        FResult::Keep(())
                    } else {
                        FResult::Discard
                    }
                },
                Err(s) => FResult::Error(s),
            }
        } else {
            FResult::Error(String::from_str("Unimplemented Ethertype in L3"))
        }
    }

    /// Same as [`DispatchFilter::keep`]: the single entry point a rewriting
    /// pipeline calls per packet.
    pub fn filter(&self, i: &TaggedPayload) -> (r: FResult<(), String>)
        requires
            self.wf(),
            i@ is L2 || i@ is L3,
        ensures
            match self.spec_verdict(i@) {
                Verdict::Kept => r is Keep,
                Verdict::Dropped => r is Discard,
                Verdict::Failed => r is Error,
            },
    {
        self.keep(i)
    }
}

fn u16_of_vec(d: &Vec<u8>, i: usize) -> (r: u16)
    requires
        i + 2 <= d@.len(),
    ensures
        r == spec_be(d@, i as int, 2),
{
    let n = d.len();
    proof {
        assert(i + 2 <= n);
        assert(spec_be(d@, i as int, 0) == 0);
        assert(spec_be(d@, i as int, 1) == d@[i as int]);
        assert(spec_be(d@, i as int, 2) == spec_be(d@, i as int, 1) * 256 + d@[i as int + 1]);
    }
    (d[i] as u16) * 256 + (d[i + 1] as u16)
}

/// Builds a [`DispatchFilter`] once the key set has been loaded.
pub struct DispatchFilterBuilder;

impl DispatchFilterBuilder {
    /// Pair a key choice and an action with a loaded key set. Succeeds
    /// exactly when the set's shape fits the key choice.
    pub fn from_args(
        filtering_key: FilteringKey,
        filtering_action: FilteringAction,
        key_container: KeyContainer,
    ) -> (r: Result<DispatchFilter, String>)
        ensures
            r is Ok <==> spec_container_fits(filtering_key, key_container),
            r is Ok ==> {
                &&& r->Ok_0.filtering_key == filtering_key
                &&& r->Ok_0.filtering_action == filtering_action
                &&& r->Ok_0.key_container == key_container
                &&& r->Ok_0.wf()
            },
    {
        let fits = match (&filtering_key, &key_container) {
            (FilteringKey::SrcIpaddr, KeyContainer::IpSet(_)) => true,
            (FilteringKey::DstIpaddr, KeyContainer::IpSet(_)) => true,
            (FilteringKey::SrcDstIpaddr, KeyContainer::IpSet(_)) => true,
            (FilteringKey::SrcIpaddrProtoDstPort, KeyContainer::IpProtoPortSet(_)) => true,
            (FilteringKey::SrcDstIpaddrProtoSrcDstPort, KeyContainer::FiveTupleSet(_)) => true,
            _ => false,
        };
        if fits {
            Ok(DispatchFilter::new(key_container, filtering_key, filtering_action))
        } else {
            Err(String::from_str("key set does not fit the filtering key"))
        }
    }
}

} // verus!
