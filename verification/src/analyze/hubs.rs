//! Passthrough detection: the hubs (mixers, exchanges) of the flow graph.
//!
//! A transfer is a flow whose source and destination differ; flows from an
//! address to itself are ignored. An address is a hub when it received funds from
//! at least [`PASSTHROUGH_MIN_DEGREE`] distinct addresses AND sent funds to at
//! least as many: the double criterion separates a relay from a mere
//! consolidation wallet (high fan-in, low fan-out).

use vstd::prelude::*;
use vstd::hash_map::StringHashMap;
use vstd::hash_set::StringHashSet;
use crate::text::{copy_string, texts_equal};

verus! {

/// Distinct fan-in AND fan-out from which an address is a passthrough hub.
pub const PASSTHROUGH_MIN_DEGREE: usize = 6;

/// A flow row: `(src, dst, slot)`.
pub type FlowRow = (String, String, i64);

/// A flow between two different addresses.
pub open spec fn is_transfer(r: FlowRow) -> bool {
    r.0@ != r.1@
}

/// The distinct addresses that sent funds to `a`.
pub open spec fn in_neighbors(rows: Seq<FlowRow>, a: Seq<char>) -> Set<Seq<char>>
    decreases rows.len(),
{
    if rows.len() == 0 {
        Set::empty()
    } else {
        let r = rows.last();
        let before = in_neighbors(rows.drop_last(), a);
        if is_transfer(r) && r.1@ == a {
            before.insert(r.0@)
        } else {
            before
        }
    }
}

/// The distinct addresses that received funds from `a`.
pub open spec fn out_neighbors(rows: Seq<FlowRow>, a: Seq<char>) -> Set<Seq<char>>
    decreases rows.len(),
{
    if rows.len() == 0 {
        Set::empty()
    } else {
        let r = rows.last();
        let before = out_neighbors(rows.drop_last(), a);
        if is_transfer(r) && r.0@ == a {
            before.insert(r.1@)
        } else {
            before
        }
    }
}

/// The latest slot of a transfer touching `a`, or 0 when none is later than 0.
pub open spec fn last_slot(rows: Seq<FlowRow>, a: Seq<char>) -> i64
    decreases rows.len(),
{
    if rows.len() == 0 {
        0
    } else {
        let r = rows.last();
        let before = last_slot(rows.drop_last(), a);
        if is_transfer(r) && (r.0@ == a || r.1@ == a) && r.2 > before {
            r.2
        } else {
            before
        }
    }
}

/// The addresses touched by some transfer.
pub open spec fn addresses(rows: Seq<FlowRow>) -> Set<Seq<char>>
    decreases rows.len(),
{
    if rows.len() == 0 {
        Set::empty()
    } else {
        let r = rows.last();
        let before = addresses(rows.drop_last());
        if is_transfer(r) {
            before.insert(r.0@).insert(r.1@)
        } else {
            before
        }
    }
}

/// `a` is a passthrough hub.
pub open spec fn is_hub(rows: Seq<FlowRow>, a: Seq<char>) -> bool {
    in_neighbors(rows, a).len() >= PASSTHROUGH_MIN_DEGREE && out_neighbors(rows, a).len() >= PASSTHROUGH_MIN_DEGREE
}

/// The figures of a hub.
#[derive(Debug, PartialEq, Eq)]
pub struct HubStats {
    pub address: String,
    /// Distinct senders.
    pub fan_in: usize,
    /// Distinct receivers.
    pub fan_out: usize,
    /// Distinct counterparts, senders and receivers together.
    pub degree: usize,
    /// Latest slot of a transfer touching it (0 at least).
    pub max_slot: i64,
}

/// `h` gives the figures of its address in `rows`.
pub open spec fn describes(rows: Seq<FlowRow>, h: HubStats) -> bool {
    &&& h.fan_in == in_neighbors(rows, h.address@).len()
    &&& h.fan_out == out_neighbors(rows, h.address@).len()
    &&& h.degree == in_neighbors(rows, h.address@).union(out_neighbors(rows, h.address@)).len()
    &&& h.max_slot == last_slot(rows, h.address@)
}

/// An address no transfer touches has no neighbour and slot 0.
proof fn lemma_untouched(rows: Seq<FlowRow>, a: Seq<char>)
    requires
        !addresses(rows).contains(a),
    ensures
        in_neighbors(rows, a) == Set::<Seq<char>>::empty(),
        out_neighbors(rows, a) == Set::<Seq<char>>::empty(),
        last_slot(rows, a) == 0,
    decreases rows.len(),
{
    if rows.len() > 0 {
        lemma_untouched(rows.drop_last(), a);
    }
}

/// An address with a neighbour is touched by a transfer.
proof fn lemma_neighbor_touches(rows: Seq<FlowRow>, a: Seq<char>)
    ensures
        in_neighbors(rows, a).len() > 0 ==> addresses(rows).contains(a),
{
    if !addresses(rows).contains(a) {
        lemma_untouched(rows, a);
    }
}

/// What is known of one address during the scan.
struct NodeAgg {
    address: String,
    ins: StringHashSet,
    outs: StringHashSet,
    nbrs: StringHashSet,
    max_slot: i64,
}

/// `index` locates the entries of `aggs`, which hold the figures of their
/// addresses in `rows`.
spec fn aggregates_on(rows: Seq<FlowRow>, index: Map<Seq<char>, usize>, aggs: Seq<NodeAgg>) -> bool {
    &&& forall|a: Seq<char>| #[trigger] index.contains_key(a) ==> index[a] < aggs.len() && aggs[index[a] as int].address@ == a
    &&& forall|k: int| 0 <= k < aggs.len() ==> index.contains_key(#[trigger] aggs[k].address@) && index[aggs[k].address@] == k
    &&& forall|k: int| 0 <= k < aggs.len() ==> {
        let g = #[trigger] aggs[k];
        &&& g.ins@ == in_neighbors(rows, g.address@)
        &&& g.outs@ == out_neighbors(rows, g.address@)
        &&& g.nbrs@ == g.ins@.union(g.outs@)
        &&& g.max_slot == last_slot(rows, g.address@)
    }
}

/// The position of `addr` in `aggs`, adding it (with no neighbour and slot 0) if
/// it is new.
fn node_position(index: &mut StringHashMap<usize>, aggs: &mut Vec<NodeAgg>, addr: &String, Ghost(rows): Ghost<Seq<FlowRow>>) -> (k: usize)
    requires
        aggregates_on(rows, old(index)@, old(aggs)@),
        addresses(rows).subset_of(old(index)@.dom()),
    ensures
        aggregates_on(rows, final(index)@, final(aggs)@),
        k < final(aggs)@.len(),
        final(aggs)@[k as int].address@ == addr@,
        final(index)@ == old(index)@.insert(addr@, k),
        old(aggs)@.len() <= final(aggs)@.len(),
        forall|j: int| 0 <= j < old(aggs)@.len() ==> final(aggs)@[j] == old(aggs)@[j],
{
    match index.get(addr.as_str()) {
        Some(k) => {
            let k = *k;
            assert(index@.insert(addr@, k) =~= index@);
            k
        },
        None => {
            proof {
                lemma_untouched(rows, addr@);
            }
            let k = aggs.len();
            aggs.push(NodeAgg {
                address: copy_string(addr),
                ins: StringHashSet::new(),
                outs: StringHashSet::new(),
                nbrs: StringHashSet::new(),
                max_slot: 0,
            });
            index.insert(copy_string(addr), k);
            proof {
                assert(Set::<Seq<char>>::empty().union(Set::<Seq<char>>::empty()) =~= Set::<Seq<char>>::empty());
            }
            k
        },
    }
}

/// Scans the flows and gathers, for every address a transfer touches, its
/// senders, receivers, counterparts and latest slot.
fn aggregate_flows(rows: &Vec<FlowRow>) -> (r: (StringHashMap<usize>, Vec<NodeAgg>))
    ensures
        r.0@.dom() == addresses(rows@),
        aggregates_on(rows@, r.0@, r.1@),
{
    let mut index: StringHashMap<usize> = StringHashMap::new();
    let mut aggs: Vec<NodeAgg> = Vec::new();
    let mut i: usize = 0;
    while i < rows.len()
        invariant
            i <= rows@.len(),
            index@.dom() == addresses(rows@.take(i as int)),
            aggregates_on(rows@.take(i as int), index@, aggs@),
        decreases rows@.len() - i,
    {
        let ghost prefix = rows@.take(i as int);
        let ghost next = rows@.take(i + 1);
        assert(next.drop_last() =~= prefix);
        let (src, dst, slot) = (&rows[i].0, &rows[i].1, rows[i].2);
        assert(next.last() == rows@[i as int]);
        if texts_equal(src.as_str(), dst.as_str()) {
            assert forall|k: int| 0 <= k < aggs@.len() implies {
                let g = #[trigger] aggs@[k];
                &&& g.ins@ == in_neighbors(next, g.address@)
                &&& g.outs@ == out_neighbors(next, g.address@)
                &&& g.nbrs@ == g.ins@.union(g.outs@)
                &&& g.max_slot == last_slot(next, g.address@)
            } by {
            }
        } else {
            let ghost before = aggs@;
            let ks = node_position(&mut index, &mut aggs, src, Ghost(prefix));
            let kd = node_position(&mut index, &mut aggs, dst, Ghost(prefix));
            assert(ks != kd);
            let ghost mid = aggs@;
            aggs[ks].outs.insert(copy_string(dst));
            aggs[ks].nbrs.insert(copy_string(dst));
            if slot > aggs[ks].max_slot {
                aggs[ks].max_slot = slot;
            }
            aggs[kd].ins.insert(copy_string(src));
            aggs[kd].nbrs.insert(copy_string(src));
            if slot > aggs[kd].max_slot {
                aggs[kd].max_slot = slot;
            }
            assert forall|k: int| 0 <= k < aggs@.len() implies {
                let g = #[trigger] aggs@[k];
                &&& g.ins@ == in_neighbors(next, g.address@)
                &&& g.outs@ == out_neighbors(next, g.address@)
                &&& g.nbrs@ == g.ins@.union(g.outs@)
                &&& g.max_slot == last_slot(next, g.address@)
            } by {
                let g = aggs@[k];
                let m = mid[k];
                assert(m.address@ == g.address@);
                if k == ks {
                    assert(g.outs@ =~= m.outs@.insert(dst@));
                    assert(g.nbrs@ =~= g.ins@.union(g.outs@));
                } else if k == kd {
                    assert(g.ins@ =~= m.ins@.insert(src@));
                    assert(g.nbrs@ =~= g.ins@.union(g.outs@));
                } else {
                    assert(g == m);
                }
            }
            assert(index@.dom() =~= addresses(next));
        }
        i = i + 1;
    }
    assert(rows@.take(rows@.len() as int) =~= rows@);
    (index, aggs)
}


/// The passthrough hubs of the flows, each with its figures, each address once.
///
/// Every hub of `rows` is listed, and only hubs are.
pub fn passthrough_hubs(rows: &Vec<FlowRow>) -> (hubs: Vec<HubStats>)
    ensures
        forall|k: int| 0 <= k < hubs@.len() ==> is_hub(rows@, (#[trigger] hubs@[k]).address@) && describes(rows@, hubs@[k]),
        forall|k: int, l: int| 0 <= k < l < hubs@.len() ==> (#[trigger] hubs@[k]).address@ != (#[trigger] hubs@[l]).address@,
        forall|a: Seq<char>| #[trigger] is_hub(rows@, a) ==> exists|k: int| 0 <= k < hubs@.len() && (#[trigger] hubs@[k]).address@ == a,
{
    let (index, aggs) = aggregate_flows(rows);
    let mut hubs: Vec<HubStats> = Vec::new();
    let ghost mut origin: Seq<int> = Seq::empty();
    let mut k: usize = 0;
    while k < aggs.len()
        invariant
            k <= aggs@.len(),
            index@.dom() == addresses(rows@),
            aggregates_on(rows@, index@, aggs@),
            origin.len() == hubs@.len(),
            forall|m: int| 0 <= m < hubs@.len() ==> 0 <= #[trigger] origin[m] < k && hubs@[m].address@ == aggs@[origin[m]].address@,
            forall|m: int, n: int| 0 <= m < n < hubs@.len() ==> #[trigger] origin[m] < #[trigger] origin[n],
            forall|m: int| 0 <= m < hubs@.len() ==> is_hub(rows@, (#[trigger] hubs@[m]).address@) && describes(rows@, hubs@[m]),
            forall|j: int| 0 <= j < k && is_hub(rows@, (#[trigger] aggs@[j]).address@) ==> exists|m: int| 0 <= m < hubs@.len() && (#[trigger] hubs@[m]).address@ == aggs@[j].address@,
        decreases aggs@.len() - k,
    {
        let g = &aggs[k];
        let fan_in = g.ins.len();
        let fan_out = g.outs.len();
        if fan_in >= PASSTHROUGH_MIN_DEGREE && fan_out >= PASSTHROUGH_MIN_DEGREE {
            let ghost before = hubs@;
            hubs.push(HubStats {
                address: copy_string(&g.address),
                fan_in,
                fan_out,
                degree: g.nbrs.len(),
                max_slot: g.max_slot,
            });
            proof {
                origin = origin.push(k as int);
                assert forall|j: int| 0 <= j < k + 1 && is_hub(rows@, (#[trigger] aggs@[j]).address@) implies exists|m: int| 0 <= m < hubs@.len() && (#[trigger] hubs@[m]).address@ == aggs@[j].address@ by {
                    if j < k {
                        let m = choose|m: int| 0 <= m < before.len() && (#[trigger] before[m]).address@ == aggs@[j].address@;
                        assert(hubs@[m] == before[m]);
                    } else {
                        assert(hubs@[before.len() as int].address@ == aggs@[j].address@);
                    }
                }
            }
        }
        k = k + 1;
    }
    assert forall|m: int, n: int| 0 <= m < n < hubs@.len() implies (#[trigger] hubs@[m]).address@ != (#[trigger] hubs@[n]).address@ by {
        assert(origin[m] < origin[n]);
        let am = aggs@[origin[m]];
        let an = aggs@[origin[n]];
        assert(index@[am.address@] == origin[m]);
        assert(index@[an.address@] == origin[n]);
    }
    assert forall|a: Seq<char>| #[trigger] is_hub(rows@, a) implies exists|k: int| 0 <= k < hubs@.len() && (#[trigger] hubs@[k]).address@ == a by {
        lemma_neighbor_touches(rows@, a);
        assert(index@.contains_key(a));
        let j = index@[a] as int;
        assert(aggs@[j].address@ == a);
    }
    hubs
}

} // verus!
