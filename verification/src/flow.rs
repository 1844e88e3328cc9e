use vstd::prelude::*;
use crate::duration::Duration;

verus! {

/// A network address, as plain values: one variant per IP version.
#[derive(Clone, Copy, PartialEq, Eq, Structural, Debug, Hash)]
pub enum IpAddress {
    V4(u32),
    V6(u128),
}

impl IpAddress {
    /// Numeric rank used to order addresses; every 32-bit address ranks
    /// below every 128-bit one.
    pub open spec fn spec_rank(&self) -> int {
        match self {
            IpAddress::V4(a) => *a as int,
            IpAddress::V6(a) => 0x1_0000_0000 + *a as int,
        }
    }
}

/// `(src_ip, src_port, proto, dst_ip, dst_port)`: one direction of a
/// transport conversation.
#[derive(Clone, Copy, PartialEq, Eq, Structural, Debug, Hash)]
pub struct FiveTuple {
    pub proto: u8,
    pub src: IpAddress,
    pub dst: IpAddress,
    pub src_port: u16,
    pub dst_port: u16,
}

/// The same conversation seen from the other side.
pub open spec fn spec_reverse(t: FiveTuple) -> FiveTuple {
    FiveTuple {
        proto: t.proto,
        src: t.dst,
        dst: t.src,
        src_port: t.dst_port,
        dst_port: t.src_port,
    }
}

/// Order on `(address, port)` endpoints: by address rank, then by port.
pub open spec fn spec_endpoint_le(ip1: IpAddress, p1: u16, ip2: IpAddress, p2: u16) -> bool {
    ip1.spec_rank() < ip2.spec_rank() || (ip1.spec_rank() == ip2.spec_rank() && p1 <= p2)
}

/// The direction-independent lookup key of a conversation: the tuple with
/// its smaller endpoint first.
pub open spec fn spec_normalize(t: FiveTuple) -> FiveTuple {
    if spec_endpoint_le(t.src, t.src_port, t.dst, t.dst_port) {
        t
    } else {
        spec_reverse(t)
    }
}

/// Law: a five-tuple and its reverse normalise to the same key, so packets
/// of both directions of a conversation are mapped to the identical flow.
pub proof fn lemma_reverse_normalizes_same(t: FiveTuple)
    ensures
        spec_normalize(spec_reverse(t)) == spec_normalize(t),
{
}

impl FiveTuple {
    pub fn get_reverse(&self) -> (r: FiveTuple)
        ensures
            r == spec_reverse(*self),
    {
        FiveTuple {
            proto: self.proto,
            src: self.dst,
            dst: self.src,
            src_port: self.dst_port,
            dst_port: self.src_port,
        }
    }
}

fn endpoint_le(ip1: &IpAddress, p1: u16, ip2: &IpAddress, p2: u16) -> (r: bool)
    ensures
        r == spec_endpoint_le(*ip1, p1, *ip2, p2),
{
    match (ip1, ip2) {
        (IpAddress::V4(a), IpAddress::V4(b)) => {
            if a < b {
                true
            } else if a == b {
                p1 <= p2
            } else {
                false
            }
        },
        (IpAddress::V4(_), IpAddress::V6(_)) => true,
        (IpAddress::V6(_), IpAddress::V4(_)) => false,
        (IpAddress::V6(a), IpAddress::V6(b)) => {
            if a < b {
                true
            } else if a == b {
                p1 <= p2
            } else {
                false
            }
        },
    }
}

/// A stable 64-bit identifier for a bidirectional flow.
pub type FlowID = u64;

/// One bidirectional conversation: the tuple as first seen (its `src` is the
/// initiator), and when it was first and last seen.
#[derive(Clone, Copy, PartialEq, Eq, Structural, Debug)]
pub struct Flow {
    pub flow_id: FlowID,
    pub five_tuple: FiveTuple,
    pub first_seen: Duration,
    pub last_seen: Duration,
}

/// First entry whose tuple normalises to `key`.
pub open spec fn spec_find(entries: Seq<Flow>, key: FiveTuple) -> Option<int>
    decreases entries.len(),
{
    if entries.len() == 0 {
        None
    } else if spec_normalize(entries[0].five_tuple) == key {
        Some(0)
    } else {
        match spec_find(entries.drop_first(), key) {
            Some(i) => Some(i + 1),
            None => None,
        }
    }
}

/// Maps five-tuples, normalised so that both directions hash identically,
/// to flow records; assigns identifiers from a monotonically increasing
/// counter.
pub struct FlowTable {
    pub entries: Vec<Flow>,
    pub next_id: u64,
}

impl FlowTable {
    /// Keys are unique up to direction, and identifiers are unique and below
    /// the counter.
    pub open spec fn wf(&self) -> bool {
        &&& forall|i: int, j: int|
            0 <= i < j < self.entries@.len() ==> spec_normalize(
                (#[trigger] self.entries@[i]).five_tuple,
            ) != spec_normalize((#[trigger] self.entries@[j]).five_tuple)
        &&& forall|i: int|
            0 <= i < self.entries@.len() ==> (#[trigger] self.entries@[i]).flow_id < self.next_id
    }

    pub fn new() -> (r: FlowTable)
        ensures
            r.wf(),
            r.entries@ == Seq::<Flow>::empty(),
            r.next_id == 0,
    {
        FlowTable { entries: Vec::new(), next_id: 0 }
    }

    fn find_index(&self, t: &FiveTuple) -> (r: Option<usize>)
        ensures
            match r {
                Some(k) => spec_find(self.entries@, spec_normalize(*t)) == Some(k as int) && 0 <= k
                    < self.entries@.len(),
                None => spec_find(self.entries@, spec_normalize(*t)) is None,
            },
    {
        let knorm = normalize_tuple(t);
        let ghost key = spec_normalize(*t);
        proof {
            assert(self.entries@.skip(0) =~= self.entries@);
        }
        let mut i: usize = 0;
        while i < self.entries.len()
            invariant
                0 <= i <= self.entries@.len(),
                key == spec_normalize(*t),
                knorm == key,
                spec_find(self.entries@, key) == match spec_find(
                    self.entries@.skip(i as int),
                    key,
                ) {
                    Some(k) => Some(k + i),
                    None => None::<int>,
                },
            decreases self.entries@.len() - i,
        {
            let e = self.entries[i];
            let norm = normalize_tuple(&e.five_tuple);
            proof {
                assert(self.entries@.skip(i as int)[0] == self.entries@[i as int]);
                assert(self.entries@.skip(i as int).drop_first() =~= self.entries@.skip(
                    i as int + 1,
                ));
            }
            if norm == knorm {
                return Some(i);
            }
            i = i + 1;
        }
        proof {
            assert(self.entries@.skip(self.entries@.len() as int) =~= Seq::<Flow>::empty());
        }
        None
    }

    /// Look a packet's tuple up; create the flow if either direction of the
    /// tuple is new, with a fresh identifier. Returns the flow identifier
    /// and whether the packet travels in the initiator's direction.
    pub fn get_or_insert(&mut self, five_tuple: &FiveTuple, ts: Duration) -> (r: (FlowID, bool))
        requires
            old(self).wf(),
            old(self).next_id < u64::MAX,
        ensures
            final(self).wf(),
            match spec_find(old(self).entries@, spec_normalize(*five_tuple)) {
                Some(k) => {
                    &&& r.0 == old(self).entries@[k].flow_id
                    &&& r.1 == (old(self).entries@[k].five_tuple == *five_tuple)
                    &&& final(self).entries@ == old(self).entries@.update(
                        k,
                        Flow {
                            flow_id: old(self).entries@[k].flow_id,
                            five_tuple: old(self).entries@[k].five_tuple,
                            first_seen: old(self).entries@[k].first_seen,
                            last_seen: ts,
                        },
                    )
                    &&& final(self).next_id == old(self).next_id
                },
                None => {
                    &&& r.0 == old(self).next_id
                    &&& r.1 == true
                    &&& final(self).entries@ == old(self).entries@.push(
                        Flow {
                            flow_id: old(self).next_id,
                            five_tuple: *five_tuple,
                            first_seen: ts,
                            last_seen: ts,
                        },
                    )
                    &&& final(self).next_id == old(self).next_id + 1
                },
            },
    {
        let found = self.find_index(five_tuple);
        match found {
            Some(k) => {
                proof {
                    lemma_find_matches(self.entries@, spec_normalize(*five_tuple));
                }
                let e = self.entries[k];
                let to_server = e.five_tuple == *five_tuple;
                let updated = Flow {
                    flow_id: e.flow_id,
                    five_tuple: e.five_tuple,
                    first_seen: e.first_seen,
                    last_seen: ts,
                };
                self.entries[k] = updated;
                (e.flow_id, to_server)
            },
            None => {
                let id = self.next_id;
                let flow = Flow { flow_id: id, five_tuple: *five_tuple, first_seen: ts, last_seen: ts };
                self.entries.push(flow);
                self.next_id = self.next_id + 1;
                proof {
                    lemma_find_none_no_match(old(self).entries@, spec_normalize(*five_tuple));
                }
                (id, true)
            },
        }
    }

    /// The record of a flow identifier, if the flow is live.
    pub fn lookup_tuple(&self, five_tuple: &FiveTuple) -> (r: Option<Flow>)
        ensures
            match spec_find(self.entries@, spec_normalize(*five_tuple)) {
                Some(k) => r == Some(self.entries@[k]),
                None => r is None,
            },
    {
        match self.find_index(five_tuple) {
            Some(k) => Some(self.entries[k]),
            None => None,
        }
    }

    pub fn flow_count(&self) -> (r: usize)
        ensures
            r == self.entries@.len(),
    {
        self.entries.len()
    }

    /// Destroy a flow: drop its record, keeping every other record in
    /// order. The identifier counter never goes back, so the identifier is
    /// not reused.
    pub fn destroy(&mut self, flow_id: FlowID)
        requires
            old(self).wf(),
        ensures
            final(self).wf(),
            final(self).next_id == old(self).next_id,
            final(self).entries@ == old(self).entries@.filter(keeps_other(flow_id)),
    {
        let ghost pred = keeps_other(flow_id);
        let mut out: Vec<Flow> = Vec::new();
        proof {
            reveal(Seq::filter);
            assert(self.entries@.take(0) =~= Seq::<Flow>::empty());
            assert(out@ =~= self.entries@.take(0).filter(pred));
        }
        let mut i: usize = 0;
        while i < self.entries.len()
            invariant
                0 <= i <= self.entries@.len(),
                pred == keeps_other(flow_id),
                out@ == self.entries@.take(i as int).filter(pred),
            decreases self.entries@.len() - i,
        {
            let e = self.entries[i];
            proof {
                reveal(Seq::filter);
                let t1 = self.entries@.take(i as int + 1);
                assert(t1.drop_last() =~= self.entries@.take(i as int));
                assert(t1.last() == self.entries@[i as int]);
            }
            if e.flow_id != flow_id {
                out.push(e);
            }
            i = i + 1;
        }
        proof {
            assert(self.entries@.take(self.entries@.len() as int) =~= self.entries@);
            lemma_filter_keeps_wf(self.entries@, pred, self.next_id);
        }
        self.entries = out;
    }
}

/// Keeps the records of every flow but the named one.
pub open spec fn keeps_other(flow_id: FlowID) -> spec_fn(Flow) -> bool {
    |f: Flow| f.flow_id != flow_id
}

/// Filtering flow records keeps their keys pairwise distinct and their
/// identifiers bounded.
proof fn lemma_filter_keeps_wf(entries: Seq<Flow>, pred: spec_fn(Flow) -> bool, bound: u64)
    requires
        forall|i: int, j: int|
            0 <= i < j < entries.len() ==> spec_normalize((#[trigger] entries[i]).five_tuple)
                != spec_normalize((#[trigger] entries[j]).five_tuple),
        forall|i: int| 0 <= i < entries.len() ==> (#[trigger] entries[i]).flow_id < bound,
    ensures
        forall|i: int, j: int|
            0 <= i < j < entries.filter(pred).len() ==> spec_normalize(
                (#[trigger] entries.filter(pred)[i]).five_tuple,
            ) != spec_normalize((#[trigger] entries.filter(pred)[j]).five_tuple),
        forall|i: int|
            0 <= i < entries.filter(pred).len() ==> (#[trigger] entries.filter(
                pred,
            )[i]).flow_id < bound,
        forall|i: int|
            0 <= i < entries.filter(pred).len() ==> entries.contains(
                #[trigger] entries.filter(pred)[i],
            ),
    decreases entries.len(),
{
    reveal(Seq::filter);
    if entries.len() > 0 {
        let s = entries.drop_last();
        let e = entries.last();
        lemma_filter_keeps_wf(s, pred, bound);
        let sub = s.filter(pred);
        let out = entries.filter(pred);
        assert forall|i: int|
            0 <= i < out.len() implies entries.contains(#[trigger] out[i]) by {
            if pred(e) && i == out.len() - 1 {
                assert(entries[entries.len() - 1] == e);
            } else {
                assert(out[i] == sub[i]);
                assert(s.contains(sub[i]));
                let k = choose|k: int| 0 <= k < s.len() && s[k] == sub[i];
                assert(entries[k] == out[i]);
            }
        }
        assert forall|i: int, j: int|
            0 <= i < j < out.len() implies spec_normalize((#[trigger] out[i]).five_tuple)
            != spec_normalize((#[trigger] out[j]).five_tuple) by {
            if pred(e) && j == out.len() - 1 {
                assert(out[i] == sub[i]);
                assert(s.contains(sub[i]));
                let k = choose|k: int| 0 <= k < s.len() && s[k] == sub[i];
                assert(entries[k] == out[i]);
                assert(entries[entries.len() - 1] == e);
                assert(spec_normalize(entries[k].five_tuple) != spec_normalize(e.five_tuple));
            } else {
                assert(out[i] == sub[i]);
                assert(out[j] == sub[j]);
            }
        }
    }
}

/// The entry `spec_find` names carries the key it was looked up by.
pub proof fn lemma_find_matches(entries: Seq<Flow>, key: FiveTuple)
    ensures
        match spec_find(entries, key) {
            Some(k) => 0 <= k < entries.len() && spec_normalize(entries[k].five_tuple) == key,
            None => true,
        },
    decreases entries.len(),
{
    if entries.len() > 0 && spec_normalize(entries[0].five_tuple) != key {
        lemma_find_none_no_match(entries, key);
        lemma_find_matches(entries.drop_first(), key);
    }
}

/// When `spec_find` finds nothing, no entry normalises to the key.
pub proof fn lemma_find_none_no_match(entries: Seq<Flow>, key: FiveTuple)
    ensures
        spec_find(entries, key) is None ==> forall|i: int|
            0 <= i < entries.len() ==> spec_normalize((#[trigger] entries[i]).five_tuple) != key,
    decreases entries.len(),
{
    if entries.len() > 0 {
        lemma_find_none_no_match(entries.drop_first(), key);
        if spec_find(entries, key) is None {
            assert forall|i: int|
                0 <= i < entries.len() implies spec_normalize(
                (#[trigger] entries[i]).five_tuple,
            ) != key by {
                if i > 0 {
                    assert(entries[i] == entries.drop_first()[i - 1]);
                }
            }
        }
    }
}

/// The direction-independent key of a tuple.
pub fn normalize_tuple(t: &FiveTuple) -> (r: FiveTuple)
    ensures
        r == spec_normalize(*t),
{
    if endpoint_le(&t.src, t.src_port, &t.dst, t.dst_port) {
        *t
    } else {
        t.get_reverse()
    }
}

} // verus!

