//! Packed states: each entry of the state holds several independent field
//! elements, one per lane, and the permutation acts on every lane at once.
use vstd::prelude::*;
use crate::layers::{ints, all_canon};
use crate::permutation::{rc_view, Poseidon2};

verus! {

/// Lane `l` of a packed state: the scalar state made of the `l`-th element of each entry.
pub open spec fn lane_of(packed: Seq<Seq<int>>, l: int) -> Seq<int> {
    Seq::new(packed.len(), |i: int| packed[i][l])
}

/// The packed state of width `w` whose lane `l` is `states[l]`.
pub open spec fn pack_of(states: Seq<Seq<int>>, w: int) -> Seq<Seq<int>> {
    Seq::new(w as nat, |i: int| Seq::new(states.len(), |l: int| states[l][i]))
}

/// Every entry of a packed state holds `n` canonical lanes.
pub open spec fn packed_well_formed(packed: Seq<Seq<int>>, n: int) -> bool {
    forall|i: int| 0 <= i < packed.len() ==> (#[trigger] packed[i]).len() == n && all_canon(packed[i])
}

/// `after` is `before` with the permutation applied to each of its `n` lanes.
pub open spec fn permuted_lanes(p: Poseidon2, before: Seq<Seq<int>>, after: Seq<Seq<int>>, n: int) -> bool {
    &&& after.len() == before.len()
    &&& packed_well_formed(after, n)
    &&& forall|l: int| 0 <= l < n ==> #[trigger] lane_of(after, l) == p.apply(lane_of(before, l))
}

/// A packed element holding `x` in each of its `n` lanes.
pub fn from_scalar(x: u32, n: usize) -> (r: Vec<u32>)
    ensures
        r@ == Seq::new(n as nat, |l: int| x),
{
    let mut r: Vec<u32> = Vec::new();
    while r.len() < n
        invariant
            r.len() <= n,
            r@ == Seq::new(r.len() as nat, |l: int| x),
        decreases n - r.len(),
    {
        r.push(x);
        assert(r@ =~= Seq::new(r.len() as nat, |l: int| x));
    }
    r
}

/// Lane `l` of a packed state.
pub fn lane(packed: &Vec<Vec<u32>>, l: usize) -> (r: Vec<u32>)
    requires
        forall|i: int| 0 <= i < packed.len() ==> l < (#[trigger] packed@[i]).len(),
    ensures
        ints(r@) == lane_of(rc_view(packed@), l as int),
        r.len() == packed.len(),
{
    let mut r: Vec<u32> = Vec::new();
    let mut i: usize = 0;
    while i < packed.len()
        invariant
            i <= packed.len(),
            r.len() == i,
            forall|j: int| 0 <= j < packed.len() ==> l < (#[trigger] packed@[j]).len(),
            forall|j: int| 0 <= j < i ==> #[trigger] r@[j] == packed@[j]@[l as int],
        decreases packed.len() - i,
    {
        r.push(packed[i][l]);
        i = i + 1;
    }
    assert(ints(r@) =~= lane_of(rc_view(packed@), l as int));
    r
}

/// Packs `states.len()` scalar states of width `w`, one per lane.
pub fn pack(states: &Vec<Vec<u32>>, w: usize) -> (r: Vec<Vec<u32>>)
    requires
        forall|l: int| 0 <= l < states.len() ==> (#[trigger] states@[l]).len() == w,
    ensures
        rc_view(r@) == pack_of(rc_view(states@), w as int),
        r.len() == w,
        forall|i: int| 0 <= i < w ==> (#[trigger] r@[i]).len() == states.len(),
{
    let mut r: Vec<Vec<u32>> = Vec::new();
    let mut i: usize = 0;
    while i < w
        invariant
            i <= w,
            r.len() == i,
            forall|l: int| 0 <= l < states.len() ==> (#[trigger] states@[l]).len() == w,
            forall|j: int| 0 <= j < i ==> ints(#[trigger] r@[j]@) == pack_of(rc_view(states@), w as int)[j],
            forall|j: int| 0 <= j < i ==> (#[trigger] r@[j]).len() == states.len(),
        decreases w - i,
    {
        let mut e: Vec<u32> = Vec::new();
        let mut l: usize = 0;
        while l < states.len()
            invariant
                i < w,
                l <= states.len(),
                e.len() == l,
                forall|k: int| 0 <= k < states.len() ==> (#[trigger] states@[k]).len() == w,
                forall|k: int| 0 <= k < l ==> #[trigger] e@[k] == states@[k]@[i as int],
            decreases states.len() - l,
        {
            e.push(states[l][i]);
            l = l + 1;
        }
        assert(ints(e@) =~= pack_of(rc_view(states@), w as int)[i as int]);
        r.push(e);
        i = i + 1;
    }
    assert(rc_view(r@) =~= pack_of(rc_view(states@), w as int));
    r
}

/// Lane `l` of the packing of some states is the `l`-th of those states.
pub proof fn lemma_lane_of_pack(states: Seq<Seq<int>>, w: int, l: int)
    requires
        0 <= w,
        0 <= l < states.len(),
        states[l].len() == w,
    ensures
        lane_of(pack_of(states, w), l) == states[l],
{
    assert(lane_of(pack_of(states, w), l) =~= states[l]);
}

/// Permuting a packed state and reading lane `l` gives what permuting the
/// `l`-th scalar state directly gives, for every lane of every packing.
pub proof fn lemma_packed_matches_scalar(
    p: Poseidon2,
    states: Seq<Seq<int>>,
    after: Seq<Seq<int>>,
    l: int,
)
    requires
        0 <= l < states.len(),
        forall|k: int| 0 <= k < states.len() ==> (#[trigger] states[k]).len() == p.width(),
        p.width() >= 0,
        permuted_lanes(p, pack_of(states, p.width()), after, states.len() as int),
    ensures
        lane_of(after, l) == p.apply(states[l]),
{
    lemma_lane_of_pack(states, p.width(), l);
}

impl Poseidon2 {
    /// Permutes each of the `n` lanes of a packed state.
    pub fn permute_packed_mut(&self, packed: &mut Vec<Vec<u32>>, n: usize)
        requires
            self.wf(),
            old(packed).len() == self.width(),
            packed_well_formed(rc_view(old(packed)@), n as int),
        ensures
            permuted_lanes(*self, rc_view(old(packed)@), rc_view(final(packed)@), n as int),
    {
        let ghost before = rc_view(packed@);
        let mut outs: Vec<Vec<u32>> = Vec::new();
        let mut l: usize = 0;
        while l < n
            invariant
                self.wf(),
                l <= n,
                outs.len() == l,
                packed.len() == self.width(),
                rc_view(packed@) == before,
                packed_well_formed(before, n as int),
                forall|k: int| 0 <= k < l ==> (#[trigger] outs@[k]).len() == self.width(),
                forall|k: int| 0 <= k < l ==> all_canon(ints(#[trigger] outs@[k]@)),
                forall|k: int| 0 <= k < l ==> ints(#[trigger] outs@[k]@) == self.apply(lane_of(before, k)),
            decreases n - l,
        {
            proof {
                assert forall|i: int| 0 <= i < packed.len() implies l < (#[trigger] packed@[i]).len() by {
                    assert(before[i].len() == n);
                }
            }
            let mut s = lane(packed, l);
            proof {
                assert forall|i: int| 0 <= i < s.len() implies crate::field::canon(#[trigger] ints(s@)[i]) by {
                    assert(all_canon(before[i]));
                }
            }
            self.permute_mut(&mut s);
            outs.push(s);
            l = l + 1;
        }
        let r = pack(&outs, self.state_width());
        proof {
            let states = rc_view(outs@);
            let after = rc_view(r@);
            assert forall|l2: int| 0 <= l2 < n implies #[trigger] lane_of(after, l2) == self.apply(lane_of(before, l2)) by {
                lemma_lane_of_pack(states, self.width(), l2);
            }
            assert forall|i: int| 0 <= i < after.len() implies (#[trigger] after[i]).len() == n && all_canon(after[i]) by {
                assert forall|k: int| 0 <= k < after[i].len() implies crate::field::canon(#[trigger] after[i][k]) by {
                    assert(after[i][k] == states[k][i]);
                    assert(all_canon(states[k]));
                }
            }
        }
        *packed = r;
    }
}

} // verus!
