//! The linear layers of Poseidon2 and the rounds built from them.
//!
//! Each layer is first stated as a spec function over a state modelled as a
//! sequence of integers, then computed in place on a `Vec<u32>`.
use vstd::prelude::*;
use crate::field::{canon, fadd, sbox, sbox_exec, field_add, P};

verus! {

/// A state of `u32` words seen as a sequence of integers.
pub open spec fn ints(v: Seq<u32>) -> Seq<int> {
    v.map_values(|x: u32| x as int)
}

/// Every entry is a canonical field element.
pub open spec fn all_canon(s: Seq<int>) -> bool {
    forall|i: int| 0 <= i < s.len() ==> canon(#[trigger] s[i])
}

/// The integer sum of a sequence.
pub open spec fn seq_sum(s: Seq<int>) -> int
    decreases s.len(),
{
    if s.len() == 0 {
        0
    } else {
        seq_sum(s.drop_last()) + s.last()
    }
}

/// The widths for which the external linear layer is defined.
pub open spec fn supported_width(w: int) -> bool {
    w == 2 || w == 3 || w == 4 || w == 8 || w == 12 || w == 16 || w == 20 || w == 24 || w == 32
}

/// Row `i % 4` of the 4x4 block matrix
/// `[5 7 1 3; 4 6 1 1; 1 3 5 7; 1 1 4 6]`, applied to the block of four that holds `i`.
pub open spec fn block_row(s: Seq<int>, i: int) -> int {
    let b = i - i % 4;
    let x0 = s[b];
    let x1 = s[b + 1];
    let x2 = s[b + 2];
    let x3 = s[b + 3];
    if i % 4 == 0 {
        5 * x0 + 7 * x1 + x2 + 3 * x3
    } else if i % 4 == 1 {
        4 * x0 + 6 * x1 + x2 + x3
    } else if i % 4 == 2 {
        x0 + 3 * x1 + 5 * x2 + 7 * x3
    } else {
        x0 + x1 + 4 * x2 + 6 * x3
    }
}

/// The block matrix applied to each consecutive block of four.
pub open spec fn blocks_mixed(s: Seq<int>) -> Seq<int> {
    Seq::new(s.len(), |i: int| block_row(s, i) % (P as int))
}

/// The entries at positions congruent to `k` modulo 4.
pub open spec fn column(y: Seq<int>, k: int) -> Seq<int> {
    Seq::new(y.len() / 4, |c: int| y[4 * c + k])
}

/// The external linear layer. For widths 2 and 3 it is `J + I` (`J` all ones);
/// for a multiple of 4 it is the circulant `circ(2M, M, ..., M)` of the block matrix `M`.
pub open spec fn external_mix(s: Seq<int>) -> Seq<int> {
    if s.len() < 4 {
        Seq::new(s.len(), |i: int| (s[i] + seq_sum(s)) % (P as int))
    } else {
        let y = blocks_mixed(s);
        Seq::new(s.len(), |i: int| (y[i] + seq_sum(column(y, i % 4))) % (P as int))
    }
}

/// The internal linear layer `J + diag(d)`.
pub open spec fn internal_mix(s: Seq<int>, d: Seq<int>) -> Seq<int> {
    Seq::new(s.len(), |i: int| (seq_sum(s) + d[i] * s[i]) % (P as int))
}

/// The internal layer of width 3 with diagonal `[1, 1, 2]`, written out:
/// with `t = s0 + s1 + s2`, the result is `[s0 + t, s1 + t, 2 s2 + t]`.
pub open spec fn internal_mix3(s: Seq<int>) -> Seq<int> {
    let t = s[0] + s[1] + s[2];
    seq![(s[0] + t) % (P as int), (s[1] + t) % (P as int), (2 * s[2] + t) % (P as int)]
}

/// Adding a vector of round constants, then the S-box on every entry.
pub open spec fn add_rc_sbox(s: Seq<int>, rc: Seq<int>) -> Seq<int> {
    Seq::new(s.len(), |i: int| sbox(fadd(s[i], rc[i])))
}

/// External rounds, one per constant vector, in order.
pub open spec fn external_rounds(s: Seq<int>, rcs: Seq<Seq<int>>) -> Seq<int>
    decreases rcs.len(),
{
    if rcs.len() == 0 {
        s
    } else {
        external_mix(add_rc_sbox(external_rounds(s, rcs.drop_last()), rcs.last()))
    }
}

/// One internal round: the constant is added to entry 0, the S-box is applied
/// to entry 0 alone, then the internal linear layer.
pub open spec fn internal_round(s: Seq<int>, c: int, d: Seq<int>) -> Seq<int> {
    internal_mix(s.update(0, sbox(fadd(s[0], c))), d)
}

/// Internal rounds, one per constant, in order.
pub open spec fn internal_rounds(s: Seq<int>, cs: Seq<int>, d: Seq<int>) -> Seq<int>
    decreases cs.len(),
{
    if cs.len() == 0 {
        s
    } else {
        internal_round(internal_rounds(s, cs.drop_last(), d), cs.last(), d)
    }
}

/// The diagonal of the width-3 internal matrix with the specialised path.
pub open spec fn diag3() -> Seq<int> {
    seq![1, 1, 2]
}

/// The written-out width-3 layer is the general internal layer with diagonal `[1, 1, 2]`.
pub proof fn lemma_internal_mix3_is_general(s: Seq<int>)
    requires
        s.len() == 3,
    ensures
        internal_mix3(s) == internal_mix(s, diag3()),
{
    assert(s.drop_last().drop_last().drop_last() =~= Seq::<int>::empty());
    assert(seq_sum(s) == s[0] + s[1] + s[2]) by {
        reveal_with_fuel(seq_sum, 4);
    }
    let t = s[0] + s[1] + s[2];
    assert(internal_mix(s, diag3())[0] == (t + 1 * s[0]) % (P as int));
    assert(internal_mix(s, diag3())[1] == (t + 1 * s[1]) % (P as int));
    assert(internal_mix(s, diag3())[2] == (t + 2 * s[2]) % (P as int));
    assert(internal_mix3(s) =~= internal_mix(s, diag3()));
}

/// The integer sum of all entries, computed without reduction.
fn prefix_sum(v: &Vec<u32>) -> (r: u64)
    requires
        v.len() <= 32,
        all_canon(ints(v@)),
    ensures
        r as int == seq_sum(ints(v@)),
        r <= 32 * 2147483646,
{
    let mut total: u64 = 0;
    let mut i: usize = 0;
    while i < v.len()
        invariant
            i <= v.len(),
            v.len() <= 32,
            all_canon(ints(v@)),
            total as int == seq_sum(ints(v@).take(i as int)),
            total <= i * 2147483646,
        decreases v.len() - i,
    {
        assert(ints(v@).take(i as int + 1).drop_last() =~= ints(v@).take(i as int));
        assert(canon(ints(v@)[i as int]));
        total = total + v[i] as u64;
        i = i + 1;
    }
    assert(ints(v@).take(i as int) =~= ints(v@));
    total
}

/// The internal linear layer `J + diag(d)`, for any diagonal.
pub fn internal_mix_exec(state: &mut Vec<u32>, diag: &Vec<u32>)
    requires
        old(state).len() <= 32,
        diag.len() == old(state).len(),
        all_canon(ints(old(state)@)),
        all_canon(ints(diag@)),
    ensures
        ints(final(state)@) == internal_mix(ints(old(state)@), ints(diag@)),
        all_canon(ints(final(state)@)),
        final(state).len() == old(state).len(),
{
    let ghost s0 = ints(state@);
    let total = prefix_sum(state);
    let mut i: usize = 0;
    while i < state.len()
        invariant
            i <= state.len(),
            state.len() == s0.len(),
            diag.len() == s0.len(),
            all_canon(s0),
            all_canon(ints(diag@)),
            total as int == seq_sum(s0),
            total <= 32 * 2147483646,
            forall|j: int| i <= j < s0.len() ==> ints(state@)[j] == s0[j],
            forall|j: int| 0 <= j < i ==> ints(state@)[j] == #[trigger] internal_mix(s0, ints(diag@))[j],
        decreases state.len() - i,
    {
        let x = state[i];
        let d = diag[i];
        assert(canon(ints(diag@)[i as int]));
        assert(canon(s0[i as int]));
        assert(d as int * x as int <= 2147483646 * 2147483646) by (nonlinear_arith)
            requires
                0 <= d as int <= 2147483646,
                0 <= x as int <= 2147483646,
        ;
        let v = ((total + d as u64 * x as u64) % P) as u32;
        state.set(i, v);
        i = i + 1;
    }
    assert(ints(state@) =~= internal_mix(s0, ints(diag@)));
}

/// The width-3 internal layer with diagonal `[1, 1, 2]`: one sum, then each
/// entry added to it, the last one doubled first.
pub fn bn254_matmul_internal(state: &mut Vec<u32>)
    requires
        old(state).len() == 3,
        all_canon(ints(old(state)@)),
    ensures
        ints(final(state)@) == internal_mix3(ints(old(state)@)),
        all_canon(ints(final(state)@)),
        final(state).len() == old(state).len(),
{
    let ghost s0 = ints(state@);
    assert(canon(s0[0]) && canon(s0[1]) && canon(s0[2]));
    let x0 = state[0] as u64;
    let x1 = state[1] as u64;
    let x2 = state[2] as u64;
    let sum = x0 + (x1 + x2);
    state.set(0, ((x0 + sum) % P) as u32);
    state.set(1, ((x1 + sum) % P) as u32);
    state.set(2, ((2 * x2 + sum) % P) as u32);
    assert(ints(state@) =~= internal_mix3(s0));
}

/// The external linear layer, for a supported width.
pub fn external_mix_exec(state: &mut Vec<u32>)
    requires
        supported_width(old(state).len() as int),
        all_canon(ints(old(state)@)),
    ensures
        ints(final(state)@) == external_mix(ints(old(state)@)),
        all_canon(ints(final(state)@)),
        final(state).len() == old(state).len(),
{
    let ghost s0 = ints(state@);
    if state.len() < 4 {
        let total = prefix_sum(state);
        let mut i: usize = 0;
        while i < state.len()
            invariant
                i <= state.len(),
                state.len() == s0.len(),
                s0.len() < 4,
                all_canon(s0),
                total as int == seq_sum(s0),
                total <= 32 * 2147483646,
                forall|j: int| i <= j < s0.len() ==> ints(state@)[j] == s0[j],
                forall|j: int| 0 <= j < i ==> ints(state@)[j] == #[trigger] external_mix(s0)[j],
            decreases state.len() - i,
        {
            assert(canon(s0[i as int]));
            let v = ((state[i] as u64 + total) % P) as u32;
            state.set(i, v);
            i = i + 1;
        }
        assert(ints(state@) =~= external_mix(s0));
    } else {
        let ghost y = blocks_mixed(s0);
        let n = state.len();
        let mut c: usize = 0;
        while c < n / 4
            invariant
                n == state.len(),
                n == s0.len(),
                n % 4 == 0,
                4 <= n <= 32,
                c <= n / 4,
                y == blocks_mixed(s0),
                all_canon(s0),
                forall|j: int| 4 * c <= j < n ==> ints(state@)[j] == s0[j],
                forall|j: int| 0 <= j < 4 * c ==> ints(state@)[j] == #[trigger] y[j],
            decreases n / 4 - c,
        {
            let b = 4 * c;
            assert(canon(s0[b as int]) && canon(s0[b + 1]) && canon(s0[b + 2]) && canon(s0[b + 3]));
            let x0 = state[b] as u64;
            let x1 = state[b + 1] as u64;
            let x2 = state[b + 2] as u64;
            let x3 = state[b + 3] as u64;
            proof {
                assert(b as int % 4 == 0);
                assert((b + 1) as int % 4 == 1 && (b + 1) - (b + 1) as int % 4 == b);
                assert((b + 2) as int % 4 == 2 && (b + 2) - (b + 2) as int % 4 == b);
                assert((b + 3) as int % 4 == 3 && (b + 3) - (b + 3) as int % 4 == b);
            }
            state.set(b, ((5 * x0 + 7 * x1 + x2 + 3 * x3) % P) as u32);
            state.set(b + 1, ((4 * x0 + 6 * x1 + x2 + x3) % P) as u32);
            state.set(b + 2, ((x0 + 3 * x1 + 5 * x2 + 7 * x3) % P) as u32);
            state.set(b + 3, ((x0 + x1 + 4 * x2 + 6 * x3) % P) as u32);
            c = c + 1;
        }
        assert(ints(state@) =~= y);
        let mut sums: Vec<u64> = vec![0, 0, 0, 0];
        let mut c: usize = 0;
        while c < n / 4
            invariant
                n == state.len(),
                n == s0.len(),
                n % 4 == 0,
                4 <= n <= 32,
                c <= n / 4,
                ints(state@) == y,
                all_canon(y),
                sums.len() == 4,
                forall|k: int| 0 <= k < 4 ==> #[trigger] sums@[k] as int == seq_sum(column(y, k).take(c as int)),
                forall|k: int| 0 <= k < 4 ==> #[trigger] sums@[k] <= c * 2147483646,
            decreases n / 4 - c,
        {
            let mut k: usize = 0;
            while k < 4
                invariant
                    n == state.len(),
                    n == y.len(),
                    n % 4 == 0,
                    4 <= n <= 32,
                    c < n / 4,
                    k <= 4,
                    ints(state@) == y,
                    all_canon(y),
                    sums.len() == 4,
                    forall|k2: int| k <= k2 < 4 ==> #[trigger] sums@[k2] as int == seq_sum(column(y, k2).take(c as int)),
                    forall|k2: int| k <= k2 < 4 ==> #[trigger] sums@[k2] <= c * 2147483646,
                    forall|k2: int| 0 <= k2 < k ==> #[trigger] sums@[k2] as int == seq_sum(column(y, k2).take(c + 1)),
                    forall|k2: int| 0 <= k2 < k ==> #[trigger] sums@[k2] <= (c + 1) * 2147483646,
                decreases 4 - k,
            {
                assert(column(y, k as int).take(c + 1).drop_last() =~= column(y, k as int).take(c as int));
                assert(column(y, k as int)[c as int] == y[4 * c + k]);
                assert(canon(y[4 * c + k]));
                let v = sums[k] + state[4 * c + k] as u64;
                sums.set(k, v);
                k = k + 1;
            }
            c = c + 1;
        }
        proof {
            assert forall|k: int| 0 <= k < 4 implies #[trigger] sums@[k] as int == seq_sum(column(y, k)) by {
                assert(column(y, k).take((n / 4) as int) =~= column(y, k));
            }
        }
        let mut i: usize = 0;
        while i < n
            invariant
                n == state.len(),
                n == s0.len(),
                4 <= n <= 32,
                i <= n,
                y == blocks_mixed(s0),
                all_canon(y),
                sums.len() == 4,
                forall|k: int| 0 <= k < 4 ==> #[trigger] sums@[k] as int == seq_sum(column(y, k)),
                forall|k: int| 0 <= k < 4 ==> #[trigger] sums@[k] <= 8 * 2147483646,
                forall|j: int| i <= j < n ==> ints(state@)[j] == y[j],
                forall|j: int| 0 <= j < i ==> ints(state@)[j] == #[trigger] external_mix(s0)[j],
            decreases n - i,
        {
            assert(canon(y[i as int]));
            let k = i % 4;
            let v = ((state[i] as u64 + sums[k]) % P) as u32;
            state.set(i, v);
            i = i + 1;
        }
        assert(ints(state@) =~= external_mix(s0));
    }
}

/// Adds a vector of round constants, then applies the S-box to every entry.
pub fn add_rc_sbox_exec(state: &mut Vec<u32>, rc: &Vec<u32>)
    requires
        rc.len() == old(state).len(),
        all_canon(ints(old(state)@)),
        all_canon(ints(rc@)),
    ensures
        ints(final(state)@) == add_rc_sbox(ints(old(state)@), ints(rc@)),
        all_canon(ints(final(state)@)),
        final(state).len() == old(state).len(),
{
    let ghost s0 = ints(state@);
    let mut i: usize = 0;
    while i < state.len()
        invariant
            i <= state.len(),
            state.len() == s0.len(),
            rc.len() == s0.len(),
            all_canon(s0),
            all_canon(ints(rc@)),
            forall|j: int| i <= j < s0.len() ==> ints(state@)[j] == s0[j],
            forall|j: int| 0 <= j < i ==> ints(state@)[j] == #[trigger] add_rc_sbox(s0, ints(rc@))[j],
        decreases state.len() - i,
    {
        assert(canon(s0[i as int]) && canon(ints(rc@)[i as int]));
        let a = field_add(state[i], rc[i]);
        let v = sbox_exec(a);
        state.set(i, v);
        i = i + 1;
    }
    assert(ints(state@) =~= add_rc_sbox(s0, ints(rc@)));
}

} // verus!
