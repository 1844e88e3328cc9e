use vstd::prelude::*;
use std::collections::HashMap;
use std::collections::HashSet;
use crate::flow::{FiveTuple, Flow, FlowID};

verus! {

broadcast use vstd::std_specs::hash::group_hash_axioms;

/// High byte of a probe filter marking a TCP probe.
pub const PROBE_TCP: u32 = 0x0600_0000;

/// High byte of a probe filter marking a UDP probe.
pub const PROBE_UDP: u32 = 0x1100_0000;

/// Plugin capability flag: wants transport-layer payloads.
pub const PLUGIN_L4: u16 = 0x08;

/// Plugin capability flag: wants flow-destruction notifications.
pub const PLUGIN_FLOW_DEL: u16 = 0x20;

/// One registered probe. The high byte of `filter` is the transport
/// protocol (TCP `0x06`, UDP `0x11`); the low 24 bits order probes of one
/// transport by priority. `proto` names the protocol in the builder set.
#[derive(Clone, Copy, PartialEq, Eq, Structural, Debug)]
pub struct ProbeDef {
    pub filter: u32,
    pub proto: usize,
}

/// What a probe says of a payload.
#[derive(Clone, Copy, PartialEq, Eq, Structural, Debug)]
pub enum ProbeResult {
    /// The payload is this protocol.
    Certain,
    /// This protocol, seen from the reverse direction.
    Reverse,
    /// Possibly this protocol; retry on the next payload.
    Unsure,
    /// Not this protocol.
    NotForUs,
    /// The probe failed; it is skipped this round and stays in rotation.
    Fatal,
}

/// Which way a payload travels within its flow.
#[derive(Clone, Copy, PartialEq, Eq, Structural, Debug)]
pub enum Direction {
    ToServer,
    ToClient,
}

/// Whether a parser accepted a payload.
#[derive(Clone, Copy, PartialEq, Eq, Structural, Debug)]
pub enum ParseStatus {
    Success,
    Fail,
}

/// Transport-layer facts handed to a probe.
#[derive(Clone, Copy, PartialEq, Eq, Structural, Debug)]
pub struct L4Info {
    pub src_port: u16,
    pub dst_port: u16,
    pub l4_proto: u8,
}

/// A protocol parser bound to one flow for its lifetime, fed every payload
/// in arrival order; `keys` and `get` expose what it extracted.
pub trait RParser {
    fn parse(&mut self, data: &[u8], direction: Direction) -> ParseStatus;

    fn keys(&self) -> Vec<String>;

    fn get(&self, key: &str) -> Option<String>;
}

/// The parser factories plugged into the engine, one per protocol id.
pub trait RBuilder<P: RParser> {
    /// The layer-4 probes to register, one per probing protocol.
    fn l4_probes(&self) -> Vec<ProbeDef>;

    /// Run the probe of a protocol on the first payload bytes of a flow.
    fn probe(&self, proto: usize, data: &[u8], l4_info: &L4Info) -> ProbeResult;

    /// A fresh parser for a protocol; `None` when the id names no factory.
    fn build(&self, proto: usize) -> Option<P>;
}

/// What the enclosing pipeline knows of one packet when its transport layer
/// is handled.
pub struct PacketInfo {
    pub five_tuple: FiveTuple,
    pub flow_id: Option<FlowID>,
    pub to_server: bool,
    pub l4_type: u8,
    pub l4_payload: Option<Vec<u8>>,
    pub pcap_index: u64,
}

/// Ascending by filter; equal filters may stand in any order.
pub open spec fn probes_sorted(s: Seq<ProbeDef>) -> bool {
    forall|i: int, j: int|
        0 <= i <= j < s.len() ==> (#[trigger] s[i]).filter <= (#[trigger] s[j]).filter
}

/// Law: in a sorted probe table, probes stand in non-decreasing
/// `(transport protocol, priority)` order: the high byte of the filter is
/// the transport and the low 24 bits the priority.
pub proof fn lemma_sorted_probe_order(s: Seq<ProbeDef>, i: int, j: int)
    requires
        probes_sorted(s),
        0 <= i <= j < s.len(),
    ensures
        s[i].filter >> 24 < s[j].filter >> 24 || (s[i].filter >> 24 == s[j].filter >> 24 && (
        s[i].filter & 0xff_ffff) <= (s[j].filter & 0xff_ffff)),
{
    let a = s[i].filter;
    let b = s[j].filter;
    assert(a <= b ==> (a >> 24 < b >> 24 || (a >> 24 == b >> 24 && (a & 0xff_ffff) <= (b
        & 0xff_ffff)))) by (bit_vector);
}

/// Probes consulted for a packet: those whose filter's high byte is the
/// packet's transport protocol.
pub open spec fn transport_match(l4_proto: u8) -> spec_fn(ProbeDef) -> bool {
    |d: ProbeDef| d.filter >> 24 == l4_proto as u32
}

/// What the cascade decides, given the consulted probes in order and one
/// outcome per consulted probe: the first Certain or Reverse answer
/// freezes the decision and returns that probe's protocol (later probes
/// are not reached); otherwise exactly the Unsure probes, in order, form
/// the new candidate list. NotForUs and Fatal answers are skipped.
pub open spec fn spec_cascade(consulted: Seq<ProbeDef>, outcomes: Seq<ProbeResult>) -> (
    Option<usize>,
    Seq<ProbeDef>,
)
    decreases consulted.len(),
{
    if consulted.len() == 0 {
        (None, Seq::empty())
    } else {
        match outcomes[0] {
            ProbeResult::Certain => (Some(consulted[0].proto), Seq::empty()),
            ProbeResult::Reverse => (Some(consulted[0].proto), Seq::empty()),
            ProbeResult::Unsure => {
                let (res, unsure) = spec_cascade(consulted.drop_first(), outcomes.drop_first());
                if res is Some {
                    (res, Seq::empty())
                } else {
                    (res, seq![consulted[0]] + unsure)
                }
            },
            _ => spec_cascade(consulted.drop_first(), outcomes.drop_first()),
        }
    }
}

/// A decided cascade carries no candidate list.
pub proof fn lemma_cascade_decided_empty(c: Seq<ProbeDef>, o: Seq<ProbeResult>)
    ensures
        spec_cascade(c, o).0 is Some ==> spec_cascade(c, o).1 == Seq::<ProbeDef>::empty(),
    decreases c.len(),
{
    if c.len() > 0 {
        lemma_cascade_decided_empty(c.drop_first(), o.drop_first());
    }
}

/// A cascade over a concatenation runs the first part, then, if that part
/// decided nothing, the second, accumulating the unsure probes in order.
pub proof fn lemma_cascade_append(
    c1: Seq<ProbeDef>,
    o1: Seq<ProbeResult>,
    c2: Seq<ProbeDef>,
    o2: Seq<ProbeResult>,
)
    requires
        o1.len() == c1.len(),
        o2.len() == c2.len(),
    ensures
        ({
            let r1 = spec_cascade(c1, o1);
            let r2 = spec_cascade(c2, o2);
            let whole = spec_cascade(c1 + c2, o1 + o2);
            match r1.0 {
                Some(p) => whole.0 == Some(p) && whole.1 == Seq::<ProbeDef>::empty(),
                None => whole.0 == r2.0 && whole.1 == (if r2.0 is Some {
                    Seq::<ProbeDef>::empty()
                } else {
                    r1.1 + r2.1
                }),
            }
        }),
    decreases c1.len(),
{
    if c1.len() == 0 {
        assert(c1 + c2 =~= c2);
        assert(o1 + o2 =~= o2);
        lemma_cascade_decided_empty(c2, o2);
        assert(spec_cascade(c1, o1).1 + spec_cascade(c2, o2).1 =~= spec_cascade(c2, o2).1);
    } else {
        assert((c1 + c2)[0] == c1[0]);
        assert((o1 + o2)[0] == o1[0]);
        assert((c1 + c2).drop_first() =~= c1.drop_first() + c2);
        assert((o1 + o2).drop_first() =~= o1.drop_first() + o2);
        match o1[0] {
            ProbeResult::Certain => {},
            ProbeResult::Reverse => {},
            ProbeResult::Unsure => {
                lemma_cascade_append(c1.drop_first(), o1.drop_first(), c2, o2);
                let ra = spec_cascade(c1.drop_first(), o1.drop_first());
                let rb = spec_cascade(c1.drop_first() + c2, o1.drop_first() + o2);
                let r2 = spec_cascade(c2, o2);
                if ra.0 is Some {
                    assert(spec_cascade(c1, o1).0 == ra.0);
                    assert(rb.0 == ra.0 && rb.1 =~= Seq::<ProbeDef>::empty());
                    assert(spec_cascade(c1 + c2, o1 + o2).0 == rb.0);
                    assert(spec_cascade(c1 + c2, o1 + o2).1 =~= Seq::<ProbeDef>::empty());
                } else if r2.0 is Some {
                    assert(rb.0 == r2.0 && rb.1 =~= Seq::<ProbeDef>::empty());
                    assert(spec_cascade(c1 + c2, o1 + o2).0 == r2.0);
                    assert(spec_cascade(c1 + c2, o1 + o2).1 =~= Seq::<ProbeDef>::empty());
                } else {
                    assert(rb.0 is None && rb.1 == ra.1 + r2.1);
                    assert(spec_cascade(c1 + c2, o1 + o2).1 =~= seq![c1[0]] + (ra.1 + r2.1));
                    assert(spec_cascade(c1, o1).1 =~= seq![c1[0]] + ra.1);
                    assert(seq![c1[0]] + (ra.1 + r2.1) =~= (seq![c1[0]] + ra.1) + r2.1);
                }
            },
            _ => {
                lemma_cascade_append(c1.drop_first(), o1.drop_first(), c2, o2);
            },
        }
    }
}

/// Inserting anywhere adds exactly one occurrence to the sequence's
/// multiset.
proof fn lemma_insert_to_multiset(s: Seq<ProbeDef>, k: int, x: ProbeDef)
    requires
        0 <= k <= s.len(),
    ensures
        s.insert(k, x).to_multiset() == s.to_multiset().insert(x),
{
    broadcast use vstd::seq_lib::group_to_multiset_ensures;

    let t = s.insert(k, x);
    assert(t.remove(k) =~= s);
    assert(t[k] == x);
    assert(s.to_multiset() =~= t.to_multiset().remove(x));
    assert(t.contains(x));
    assert(t.to_multiset().count(x) > 0);
    assert(t.to_multiset() =~= t.to_multiset().remove(x).insert(x));
    assert(t.to_multiset() =~= s.to_multiset().insert(x));
}

/// Sort the probe table ascending by filter. The result is a permutation of
/// the input: same probes, same multiplicities. [`Rusticata::pre_process`]
/// runs the builders' registration list through this, so whatever they
/// registered is kept, merely ordered.
pub fn sort_probes(v: &mut Vec<ProbeDef>)
    ensures
        probes_sorted(final(v)@),
        final(v)@.to_multiset() == old(v)@.to_multiset(),
{
    let mut out: Vec<ProbeDef> = Vec::new();
    proof {
        broadcast use vstd::seq_lib::group_to_multiset_ensures;

        assert(v@.take(0) =~= Seq::<ProbeDef>::empty());
        assert(out@.to_multiset() =~= v@.take(0).to_multiset());
    }
    let mut i: usize = 0;
    while i < v.len()
        invariant
            0 <= i <= v@.len(),
            probes_sorted(out@),
            out@.to_multiset() == v@.take(i as int).to_multiset(),
        decreases v@.len() - i,
    {
        let x = v[i];
        let mut k: usize = 0;
        while k < out.len() && out[k].filter <= x.filter
            invariant
                0 <= k <= out@.len(),
                forall|m: int| 0 <= m < k ==> (#[trigger] out@[m]).filter <= x.filter,
            decreases out@.len() - k,
        {
            k = k + 1;
        }
        proof {
            broadcast use vstd::seq_lib::group_to_multiset_ensures;

            lemma_insert_to_multiset(out@, k as int, x);
            assert(v@.take(i as int).push(x) =~= v@.take(i as int + 1));
            let newv = out@.insert(k as int, x);
            assert forall|a: int, b: int| 0 <= a <= b < newv.len() implies (#[trigger] newv[a]).filter
                <= (#[trigger] newv[b]).filter by {
                assert(forall|m: int| 0 <= m < k ==> newv[m] == out@[m]);
                assert(newv[k as int] == x);
                assert(forall|m: int| k < m < newv.len() ==> newv[m] == out@[m - 1]);
            }
        }
        out.insert(k, x);
        i = i + 1;
    }
    proof {
        assert(v@.take(v@.len() as int) =~= v@);
    }
    *v = out;
}

/// Whether a packet carries transport payload bytes for the cascade.
pub open spec fn spec_has_payload(pinfo: PacketInfo) -> bool {
    match pinfo.l4_payload {
        Some(d) => d@.len() > 0,
        None => false,
    }
}

/// Ties one cascade run's result and state change to one outcome per
/// consulted probe: the first Certain or Reverse answer freezes the
/// decision and returns that probe's protocol; otherwise exactly the
/// Unsure probes, in consultation order, become the flow's candidate
/// list, and the flow is bypassed exactly when that list is empty. A
/// Fatal or NotForUs probe is neither returned nor stored.
pub open spec fn spec_cascade_step<B: RBuilder<P>, P: RParser>(
    pre: Rusticata<B, P>,
    post: Rusticata<B, P>,
    flow_id: FlowID,
    l4_proto: u8,
    r: Option<usize>,
    outcomes: Seq<ProbeResult>,
) -> bool {
    let consulted = pre.spec_consulted(flow_id, l4_proto);
    let (res, unsure) = spec_cascade(consulted, outcomes);
    &&& outcomes.len() == consulted.len()
    &&& r == res
    &&& match res {
        Some(_) => !post.flow_probes@.contains_key(flow_id) && post.flow_bypass@
            == pre.flow_bypass@,
        None => {
            if unsure.len() > 0 {
                &&& post.flow_probes@.contains_key(flow_id)
                &&& post.flow_probes@[flow_id]@ == unsure
                &&& post.flow_bypass@ == pre.flow_bypass@
            } else {
                &&& !post.flow_probes@.contains_key(flow_id)
                &&& post.flow_bypass@ == pre.flow_bypass@.insert(flow_id)
            }
        },
    }
}

/// Ties one packet's handling of an unbound, unbypassed flow to the
/// cascade outcomes and the factory's and the fresh parser's answers: a
/// named protocol binds a fresh parser under the flow, unless no factory
/// knows the protocol (the flow is bypassed) or the fresh parser fails at
/// once (it is detached and the flow stays probeable); an undecided
/// cascade stores its candidate list or bypasses, and binds nothing.
pub open spec fn spec_bind_step<B: RBuilder<P>, P: RParser>(
    pre: Rusticata<B, P>,
    post: Rusticata<B, P>,
    flow_id: FlowID,
    l4_proto: u8,
    outcomes: Seq<ProbeResult>,
    factory_built: bool,
    parse_ok: bool,
) -> bool {
    let consulted = pre.spec_consulted(flow_id, l4_proto);
    let (res, unsure) = spec_cascade(consulted, outcomes);
    &&& outcomes.len() == consulted.len()
    &&& match res {
        Some(_) => {
            &&& !post.flow_probes@.contains_key(flow_id)
            &&& if !factory_built {
                &&& post.flow_bypass@ == pre.flow_bypass@.insert(flow_id)
                &&& !post.flow_parsers@.contains_key(flow_id)
            } else if parse_ok {
                &&& post.flow_bypass@ == pre.flow_bypass@
                &&& post.flow_parsers@.contains_key(flow_id)
            } else {
                &&& post.flow_bypass@ == pre.flow_bypass@
                &&& !post.flow_parsers@.contains_key(flow_id)
            }
        },
        None => {
            &&& post.flow_parsers@ == pre.flow_parsers@
            &&& if unsure.len() > 0 {
                &&& post.flow_probes@.contains_key(flow_id)
                &&& post.flow_probes@[flow_id]@ == unsure
                &&& post.flow_bypass@ == pre.flow_bypass@
            } else {
                &&& !post.flow_probes@.contains_key(flow_id)
                &&& post.flow_bypass@ == pre.flow_bypass@.insert(flow_id)
            }
        },
    }
}

/// The flow-oriented protocol-identification engine: an ordered probe
/// cascade over the parser factories of `B`, per-flow candidate lists,
/// bound parsers, and a terminal bypass set. A flow is in at most one of
/// the three states at any moment.
pub struct Rusticata<B: RBuilder<P>, P: RParser> {
    pub builder: B,
    /// All registered probes, ascending by filter.
    pub probes_l4: Vec<ProbeDef>,
    /// Flows whose earlier probes were unsure: the probes still to retry.
    pub flow_probes: HashMap<FlowID, Vec<ProbeDef>>,
    /// Flows bound to a parser.
    pub flow_parsers: HashMap<FlowID, P>,
    /// Flows no probe matched; never probed again.
    pub flow_bypass: HashSet<FlowID>,
}

impl<B: RBuilder<P>, P: RParser> Rusticata<B, P> {
    /// The probe table is sorted; every candidate list is a sorted,
    /// non-empty selection of registered probes; and the candidate-list,
    /// bound and bypassed states are pairwise disjoint.
    pub open spec fn wf(&self) -> bool {
        &&& probes_sorted(self.probes_l4@)
        &&& forall|id: FlowID| #[trigger]
            self.flow_probes@.contains_key(id) ==> {
                &&& probes_sorted(self.flow_probes@[id]@)
                &&& self.flow_probes@[id]@.len() > 0
                &&& forall|k: int|
                    0 <= k < self.flow_probes@[id]@.len() ==> self.probes_l4@.contains(
                        #[trigger] self.flow_probes@[id]@[k],
                    )
            }
        &&& forall|id: FlowID| #[trigger]
            self.flow_probes@.contains_key(id) ==> !self.flow_parsers@.contains_key(id)
        &&& forall|id: FlowID| #[trigger]
            self.flow_probes@.contains_key(id) ==> !self.flow_bypass@.contains(id)
        &&& forall|id: FlowID| #[trigger]
            self.flow_parsers@.contains_key(id) ==> !self.flow_bypass@.contains(id)
    }

    /// The probes consulted for a flow's payload: the flow's stored
    /// candidate list if one exists, the full table otherwise, restricted
    /// to the packet's transport protocol.
    pub open spec fn spec_consulted(&self, flow_id: FlowID, l4_proto: u8) -> Seq<ProbeDef> {
        let base = if self.flow_probes@.contains_key(flow_id) {
            self.flow_probes@[flow_id]@
        } else {
            self.probes_l4@
        };
        base.filter(transport_match(l4_proto))
    }

    pub fn new(builder: B) -> (r: Rusticata<B, P>)
        ensures
            r.wf(),
            r.probes_l4@ == Seq::<ProbeDef>::empty(),
            r.flow_probes@ == Map::<FlowID, Vec<ProbeDef>>::empty(),
            r.flow_parsers@ == Map::<FlowID, P>::empty(),
            r.flow_bypass@ == Set::<FlowID>::empty(),
            r.builder == builder,
    {
        Rusticata {
            builder,
            probes_l4: Vec::new(),
            flow_probes: HashMap::new(),
            flow_parsers: HashMap::new(),
            flow_bypass: HashSet::new(),
        }
    }

    pub fn name(&self) -> (r: &'static str)
        ensures
            r@ == "Rusticata"@,
    {
        "Rusticata"
    }

    pub fn plugin_type(&self) -> (r: u16)
        ensures
            r == (PLUGIN_L4 | PLUGIN_FLOW_DEL),
    {
        PLUGIN_L4 | PLUGIN_FLOW_DEL
    }

    /// Populate the probe table from the builders, sorted ascending by
    /// filter so that probes run in `(transport, priority)` order, and
    /// reset all per-flow state.
    pub fn pre_process(&mut self)
        ensures
            final(self).wf(),
            final(self).builder == old(self).builder,
            probes_sorted(final(self).probes_l4@),
            final(self).flow_probes@ == Map::<FlowID, Vec<ProbeDef>>::empty(),
            final(self).flow_parsers@ == Map::<FlowID, P>::empty(),
            final(self).flow_bypass@ == Set::<FlowID>::empty(),
    {
        let mut probes = self.builder.l4_probes();
        sort_probes(&mut probes);
        self.probes_l4 = probes;
        self.flow_probes = HashMap::new();
        self.flow_parsers = HashMap::new();
        self.flow_bypass = HashSet::new();
    }

    /// Run the probe cascade for one flow on its first payload bytes:
    /// iterate the flow's candidate list if one exists, the full table
    /// otherwise, restricted to probes of the packet's transport, in
    /// ascending filter order. The first certain (or reversed) answer
    /// freezes the decision and returns the protocol; otherwise exactly
    /// the unsure probes become the flow's candidate list, or, if none
    /// answered unsure, the flow is bypassed for good.
    pub fn probe(&mut self, i: &[u8], flow_id: FlowID, l4_info: &L4Info) -> (r: Option<usize>)
        requires
            old(self).wf(),
            !old(self).flow_parsers@.contains_key(flow_id),
            !old(self).flow_bypass@.contains(flow_id),
        ensures
            final(self).wf(),
            final(self).builder == old(self).builder,
            final(self).probes_l4@ == old(self).probes_l4@,
            final(self).flow_parsers@ == old(self).flow_parsers@,
            old(self).flow_bypass@.subset_of(final(self).flow_bypass@),
            forall|f: FlowID|
                f != flow_id ==> (#[trigger] final(self).flow_probes@.contains_key(f) == old(
                    self,
                ).flow_probes@.contains_key(f) && (final(self).flow_probes@.contains_key(f)
                    ==> final(self).flow_probes@[f] == old(self).flow_probes@[f])),
            forall|f: FlowID|
                f != flow_id ==> #[trigger] final(self).flow_bypass@.contains(f) == old(
                    self,
                ).flow_bypass@.contains(f),
            exists|outcomes: Seq<ProbeResult>| #[trigger] spec_cascade_step(
                *old(self),
                *final(self),
                flow_id,
                l4_info.l4_proto,
                r,
                outcomes,
            ),
    {
        let probes: Vec<ProbeDef> = match self.flow_probes.get(&flow_id) {
            Some(list) => copy_probes(list),
            None => copy_probes(&self.probes_l4),
        };
        proof {
            assert(forall|m: int|
                0 <= m < probes@.len() ==> self.probes_l4@.contains(#[trigger] probes@[m]));
        }
        let ghost tm = transport_match(l4_info.l4_proto);
        let ghost consulted = old(self).spec_consulted(flow_id, l4_info.l4_proto);
        let ghost outs: Seq<ProbeResult> = Seq::empty();
        proof {
            reveal(Seq::filter);
            assert(consulted == probes@.filter(tm));
            assert(probes@.take(0) =~= Seq::<ProbeDef>::empty());
            assert(probes@.take(0).filter(tm) =~= Seq::<ProbeDef>::empty());
        }
        let mut unsure_probes: Vec<ProbeDef> = Vec::new();
        let mut k: usize = 0;
        while k < probes.len()
            invariant
                *self == *old(self),
                old(self).wf(),
                !old(self).flow_parsers@.contains_key(flow_id),
                !old(self).flow_bypass@.contains(flow_id),
                0 <= k <= probes@.len(),
                tm == transport_match(l4_info.l4_proto),
                consulted == old(self).spec_consulted(flow_id, l4_info.l4_proto),
                consulted == probes@.filter(tm),
                probes_sorted(probes@),
                forall|m: int|
                    0 <= m < probes@.len() ==> self.probes_l4@.contains(#[trigger] probes@[m]),
                probes_sorted(unsure_probes@),
                forall|m: int|
                    0 <= m < unsure_probes@.len() ==> self.probes_l4@.contains(
                        #[trigger] unsure_probes@[m],
                    ),
                unsure_probes@.len() > 0 ==> exists|j: int|
                    0 <= j < k && probes@[j] == unsure_probes@.last(),
                outs.len() == probes@.take(k as int).filter(tm).len(),
                spec_cascade(probes@.take(k as int).filter(tm), outs) == (
                    None::<usize>,
                    unsure_probes@,
                ),
            decreases probes@.len() - k,
        {
            let d = probes[k];
            proof {
                reveal(Seq::filter);
                let t1 = probes@.take(k as int + 1);
                assert(t1.drop_last() =~= probes@.take(k as int));
                assert(t1.last() == probes@[k as int]);
            }
            if d.filter >> 24 == l4_info.l4_proto as u32 {
                proof {
                    assert(tm(d));
                    assert(probes@.take(k as int + 1).filter(tm) =~= probes@.take(
                        k as int,
                    ).filter(tm).push(d));
                }
                let o = self.builder.probe(d.proto, i, l4_info);
                proof {
                    let ctk = probes@.take(k as int).filter(tm);
                    lemma_cascade_append(ctk, outs, seq![d], seq![o]);
                    assert(seq![d][0] == d);
                    assert(seq![o][0] == o);
                    assert(seq![d].drop_first() =~= Seq::<ProbeDef>::empty());
                    assert(seq![o].drop_first() =~= Seq::<ProbeResult>::empty());
                    assert(spec_cascade(Seq::<ProbeDef>::empty(), Seq::<ProbeResult>::empty())
                        == (None::<usize>, Seq::<ProbeDef>::empty()));
                    assert(seq![d] + Seq::<ProbeDef>::empty() =~= seq![d]);
                    assert(ctk + seq![d] =~= probes@.take(k as int + 1).filter(tm));
                    assert(outs + seq![o] =~= outs.push(o));
                }
                match o {
                    ProbeResult::Certain | ProbeResult::Reverse => {
                        self.flow_probes.remove(&flow_id);
                        proof {
                            let ct1 = probes@.take(k as int + 1).filter(tm);
                            assert(spec_cascade(seq![d], seq![o]).0 == Some(d.proto));
                            assert(spec_cascade(ct1, outs.push(o)).0 == Some(d.proto));
                            assert(spec_cascade(ct1, outs.push(o)).1
                                =~= Seq::<ProbeDef>::empty());
                            assert(probes@.take(k as int + 1) + probes@.skip(k as int + 1)
                                =~= probes@);
                            Seq::<ProbeDef>::filter_distributes_over_add(
                                probes@.take(k as int + 1),
                                probes@.skip(k as int + 1),
                                tm,
                            );
                            let crest = probes@.skip(k as int + 1).filter(tm);
                            assert(consulted =~= ct1 + crest);
                            let fill = Seq::new(crest.len(), |x: int| ProbeResult::NotForUs);
                            lemma_cascade_append(ct1, outs.push(o), crest, fill);
                            assert(spec_cascade(consulted, outs.push(o) + fill).0 == Some(
                                d.proto,
                            ));
                            assert((outs.push(o) + fill).len() == consulted.len());
                            assert(spec_cascade_step(
                                *old(self),
                                *self,
                                flow_id,
                                l4_info.l4_proto,
                                Some(d.proto),
                                outs.push(o) + fill,
                            ));
                        }
                        return Some(d.proto);
                    },
                    ProbeResult::Unsure => {
                        proof {
                            if unsure_probes@.len() > 0 {
                                let j = choose|j: int|
                                    0 <= j < k && probes@[j] == unsure_probes@.last();
                                assert(probes@[j].filter <= probes@[k as int].filter);
                            }
                            let ct1 = probes@.take(k as int + 1).filter(tm);
                            assert(spec_cascade(seq![d], seq![o]).0 is None);
                            assert(spec_cascade(seq![d], seq![o]).1 =~= seq![d]);
                            assert(spec_cascade(ct1, outs.push(o)).0 is None);
                            assert(spec_cascade(ct1, outs.push(o)).1 =~= unsure_probes@
                                + seq![d]);
                            assert(unsure_probes@.push(d) =~= unsure_probes@ + seq![d]);
                            outs = outs.push(o);
                        }
                        unsure_probes.push(d);
                    },
                    _ => {
                        proof {
                            let ct1 = probes@.take(k as int + 1).filter(tm);
                            assert(spec_cascade(seq![d], seq![o]).0 is None);
                            assert(spec_cascade(seq![d], seq![o]).1
                                =~= Seq::<ProbeDef>::empty());
                            assert(spec_cascade(ct1, outs.push(o)).0 is None);
                            assert(spec_cascade(ct1, outs.push(o)).1 =~= unsure_probes@
                                + Seq::<ProbeDef>::empty());
                            assert(unsure_probes@ + Seq::<ProbeDef>::empty()
                                =~= unsure_probes@);
                            outs = outs.push(o);
                        }
                    },
                }
            } else {
                proof {
                    assert(!tm(d));
                    assert(probes@.take(k as int + 1).filter(tm) =~= probes@.take(
                        k as int,
                    ).filter(tm));
                }
            }
            k = k + 1;
        }
        proof {
            assert(probes@.take(probes@.len() as int) =~= probes@);
        }
        if unsure_probes.len() == 0 {
            self.flow_probes.remove(&flow_id);
            self.flow_bypass.insert(flow_id);
            proof {
                assert(spec_cascade_step(
                    *old(self),
                    *self,
                    flow_id,
                    l4_info.l4_proto,
                    None::<usize>,
                    outs,
                ));
            }
            None
        } else {
            self.flow_probes.insert(flow_id, unsure_probes);
            proof {
                assert(spec_cascade_step(
                    *old(self),
                    *self,
                    flow_id,
                    l4_info.l4_proto,
                    None::<usize>,
                    outs,
                ));
            }
            None
        }
    }

    /// Handle one transport-layer payload. A bypassed flow is left alone
    /// for good. A packet without payload changes nothing. A flow with a
    /// bound parser gets this payload fed to it in the packet's direction;
    /// a parser that fails is detached, and the flow is deliberately not
    /// bypassed, so the next payload probes again. A flow without a parser
    /// is probed: a named protocol binds a fresh parser (fed this payload)
    /// unless no factory knows it, which bypasses the flow. Once bypassed,
    /// always bypassed: the bypass set only grows here.
    pub fn handle_layer_transport(&mut self, pinfo: &PacketInfo)
        requires
            old(self).wf(),
        ensures
            final(self).wf(),
            final(self).builder == old(self).builder,
            final(self).probes_l4@ == old(self).probes_l4@,
            old(self).flow_bypass@.subset_of(final(self).flow_bypass@),
            ({
                let probes2 = final(self).flow_probes@;
                let parsers2 = final(self).flow_parsers@;
                let bypass2 = final(self).flow_bypass@;
                pinfo.flow_id is None ==> probes2 == old(self).flow_probes@ && parsers2 == old(
                    self,
                ).flow_parsers@ && bypass2 == old(self).flow_bypass@
            }),
            ({
                let probes2 = final(self).flow_probes@;
                forall|f: FlowID|
                    pinfo.flow_id != Some(f) ==> (#[trigger] probes2.contains_key(f) == old(
                        self,
                    ).flow_probes@.contains_key(f) && (probes2.contains_key(f) ==> probes2[f]
                        == old(self).flow_probes@[f]))
            }),
            forall|f: FlowID|
                pinfo.flow_id != Some(f) ==> (#[trigger] final(self).flow_parsers@.contains_key(f)
                    == old(self).flow_parsers@.contains_key(f)),
            forall|f: FlowID|
                pinfo.flow_id != Some(f) ==> #[trigger] final(self).flow_bypass@.contains(f)
                    == old(self).flow_bypass@.contains(f),
            ({
                let probes2 = final(self).flow_probes@;
                let parsers2 = final(self).flow_parsers@;
                let bypass2 = final(self).flow_bypass@;
                match pinfo.flow_id {
                    Some(f) => old(self).flow_bypass@.contains(f) ==> probes2 == old(
                        self,
                    ).flow_probes@ && parsers2 == old(self).flow_parsers@ && bypass2 == old(
                        self,
                    ).flow_bypass@,
                    None => true,
                }
            }),
            ({
                let probes2 = final(self).flow_probes@;
                let parsers2 = final(self).flow_parsers@;
                let bypass2 = final(self).flow_bypass@;
                match pinfo.flow_id {
                    Some(f) => !spec_has_payload(*pinfo) ==> probes2 == old(self).flow_probes@
                        && parsers2 == old(self).flow_parsers@ && bypass2 == old(
                        self,
                    ).flow_bypass@,
                    None => true,
                }
            }),
            ({
                let probes2 = final(self).flow_probes@;
                let parsers2 = final(self).flow_parsers@;
                let bypass2 = final(self).flow_bypass@;
                match pinfo.flow_id {
                    Some(f) => (old(self).flow_parsers@.contains_key(f) && !old(
                        self,
                    ).flow_bypass@.contains(f) && spec_has_payload(*pinfo)) ==> {
                        &&& probes2 == old(self).flow_probes@
                        &&& bypass2 == old(self).flow_bypass@
                        &&& (parsers2.dom() == old(self).flow_parsers@.dom() || parsers2.dom()
                            == old(self).flow_parsers@.dom().remove(f))
                    },
                    None => true,
                }
            }),
            match pinfo.flow_id {
                Some(f) => (!old(self).flow_parsers@.contains_key(f) && !old(
                    self,
                ).flow_bypass@.contains(f) && spec_has_payload(*pinfo)) ==> exists|
                    outcomes: Seq<ProbeResult>,
                    factory_built: bool,
                    parse_ok: bool,
                |
                    #[trigger] spec_bind_step(
                        *old(self),
                        *final(self),
                        f,
                        pinfo.l4_type,
                        outcomes,
                        factory_built,
                        parse_ok,
                    ),
                None => true,
            },
    {
        let flow_id = match pinfo.flow_id {
            Some(f) => f,
            None => {
                return ;
            },
        };
        if self.flow_bypass.contains(&flow_id) {
            return ;
        }
        let d = match &pinfo.l4_payload {
            Some(d) => d,
            None => {
                return ;
            },
        };
        if d.len() == 0 {
            return ;
        }
        let direction = if pinfo.to_server {
            Direction::ToServer
        } else {
            Direction::ToClient
        };
        if self.flow_parsers.contains_key(&flow_id) {
            match self.flow_parsers.remove(&flow_id) {
                Some(mut parser) => {
                    let res = parser.parse(d.as_slice(), direction);
                    if res == ParseStatus::Fail {
                        // parser detached; deliberately not bypassed, so the
                        // next payload is probed afresh
                        proof {
                            assert(final(self).flow_parsers@.dom() =~= old(
                                self,
                            ).flow_parsers@.dom().remove(flow_id));
                        }
                    } else {
                        self.flow_parsers.insert(flow_id, parser);
                        proof {
                            assert(final(self).flow_parsers@.dom() =~= old(
                                self,
                            ).flow_parsers@.dom());
                        }
                    }
                },
                None => {
                    proof {
                        assert(false);
                    }
                },
            }
        } else {
            {
                let l4_info = L4Info {
                    src_port: pinfo.five_tuple.src_port,
                    dst_port: pinfo.five_tuple.dst_port,
                    l4_proto: pinfo.l4_type,
                };
                let maybe_proto = self.probe(d.as_slice(), flow_id, &l4_info);
                let ghost mid = *self;
                let ghost outcomes = choose|o: Seq<ProbeResult>|
                    spec_cascade_step(
                        *old(self),
                        mid,
                        flow_id,
                        l4_info.l4_proto,
                        maybe_proto,
                        o,
                    );
                match maybe_proto {
                    Some(proto) => {
                        match self.builder.build(proto) {
                            Some(mut parser) => {
                                let res = parser.parse(d.as_slice(), direction);
                                if res == ParseStatus::Fail {
                                    // fresh parser failed at once: detached
                                    // again, flow left probeable
                                    proof {
                                        assert(spec_bind_step(
                                            *old(self),
                                            *self,
                                            flow_id,
                                            l4_info.l4_proto,
                                            outcomes,
                                            true,
                                            false,
                                        ));
                                    }
                                } else {
                                    self.flow_parsers.insert(flow_id, parser);
                                    proof {
                                        assert(spec_bind_step(
                                            *old(self),
                                            *self,
                                            flow_id,
                                            l4_info.l4_proto,
                                            outcomes,
                                            true,
                                            true,
                                        ));
                                    }
                                }
                            },
                            None => {
                                // the probe named a protocol no factory
                                // knows: bypass the flow
                                self.flow_bypass.insert(flow_id);
                                proof {
                                    assert(spec_bind_step(
                                        *old(self),
                                        *self,
                                        flow_id,
                                        l4_info.l4_proto,
                                        outcomes,
                                        false,
                                        false,
                                    ));
                                }
                            },
                        }
                    },
                    None => {
                        proof {
                            assert(spec_bind_step(
                                *old(self),
                                *self,
                                flow_id,
                                l4_info.l4_proto,
                                outcomes,
                                false,
                                false,
                            ));
                        }
                    },
                }
            }
        }
    }

    /// Forget everything about a destroyed flow: its candidate list, its
    /// parser, and its bypass mark.
    pub fn flow_destroyed(&mut self, flow: &Flow)
        requires
            old(self).wf(),
        ensures
            final(self).wf(),
            final(self).builder == old(self).builder,
            final(self).probes_l4@ == old(self).probes_l4@,
            final(self).flow_probes@ == old(self).flow_probes@.remove(flow.flow_id),
            final(self).flow_parsers@ == old(self).flow_parsers@.remove(flow.flow_id),
            final(self).flow_bypass@ == old(self).flow_bypass@.remove(flow.flow_id),
    {
        self.flow_probes.remove(&flow.flow_id);
        self.flow_parsers.remove(&flow.flow_id);
        self.flow_bypass.remove(&flow.flow_id);
    }

    /// The parser bound to a flow, for post-run introspection.
    pub fn get_parser(&self, flow_id: FlowID) -> (r: Option<&P>)
        ensures
            match r {
                Some(p) => self.flow_parsers@.contains_key(flow_id) && *p
                    == self.flow_parsers@[flow_id],
                None => !self.flow_parsers@.contains_key(flow_id),
            },
    {
        self.flow_parsers.get(&flow_id)
    }

    /// How many flows hold a bound parser.
    pub fn parser_count(&self) -> (r: usize)
        ensures
            r == self.flow_parsers@.len(),
    {
        self.flow_parsers.len()
    }
}

/// Law: a flow belongs to at most one of candidate-list, bound, bypassed
/// at any moment.
pub proof fn lemma_flow_states_disjoint<B: RBuilder<P>, P: RParser>(
    r: &Rusticata<B, P>,
    id: FlowID,
)
    requires
        r.wf(),
    ensures
        !(r.flow_probes@.contains_key(id) && r.flow_parsers@.contains_key(id)),
        !(r.flow_probes@.contains_key(id) && r.flow_bypass@.contains(id)),
        !(r.flow_parsers@.contains_key(id) && r.flow_bypass@.contains(id)),
{
}

/// Law: bypass is terminal. Handling a packet only ever grows the bypass
/// set (that growth is what [`Rusticata::handle_layer_transport`] and
/// [`Rusticata::probe`] promise of every call), so a flow bypassed before
/// such a step is still bypassed after it, and, the three states being
/// disjoint, is found neither bound nor holding a candidate list. Only
/// flow destruction clears the mark.
pub proof fn lemma_bypass_is_terminal<B: RBuilder<P>, P: RParser>(
    pre: &Rusticata<B, P>,
    post: &Rusticata<B, P>,
    id: FlowID,
)
    requires
        pre.flow_bypass@.contains(id),
        pre.flow_bypass@.subset_of(post.flow_bypass@),
        post.wf(),
    ensures
        post.flow_bypass@.contains(id),
        !post.flow_probes@.contains_key(id),
        !post.flow_parsers@.contains_key(id),
{
}

fn copy_probes(v: &Vec<ProbeDef>) -> (r: Vec<ProbeDef>)
    ensures
        r@ == v@,
{
    let mut out: Vec<ProbeDef> = Vec::new();
    let mut i: usize = 0;
    while i < v.len()
        invariant
            0 <= i <= v@.len(),
            out@ == v@.take(i as int),
        decreases v@.len() - i,
    {
        proof {
            assert(v@.take(i as int).push(v@[i as int]) =~= v@.take(i as int + 1));
        }
        out.push(v[i]);
        i = i + 1;
    }
    proof {
        assert(v@.take(v@.len() as int) =~= v@);
    }
    out
}

} // verus!
