//! The Poseidon2 permutation: initial external rounds, internal rounds, terminal
//! external rounds, over constants fixed at construction.
use vstd::prelude::*;
use crate::field::{canon, fadd, sbox, sbox_exec, field_add};
use crate::layers::{
    ints, all_canon, supported_width, external_mix, external_rounds, internal_rounds,
    diag3, lemma_internal_mix3_is_general,
    external_mix_exec, add_rc_sbox_exec, internal_mix_exec, bn254_matmul_internal,
};

verus! {

/// A sequence of constant vectors seen as a sequence of integer sequences.
pub open spec fn rc_view(v: Seq<Vec<u32>>) -> Seq<Seq<int>> {
    v.map_values(|r: Vec<u32>| ints(r@))
}

/// Every vector has length `w` and holds canonical field elements.
pub open spec fn rcs_well_formed(rcs: Seq<Seq<int>>, w: int) -> bool {
    forall|i: int| 0 <= i < rcs.len() ==> (#[trigger] rcs[i]).len() == w && all_canon(rcs[i])
}

/// The whole permutation: the external linear layer, the initial external rounds,
/// the internal rounds, then the terminal external rounds.
pub open spec fn permutation(
    s: Seq<int>,
    initial: Seq<Seq<int>>,
    internal: Seq<int>,
    terminal: Seq<Seq<int>>,
    d: Seq<int>,
) -> Seq<int> {
    external_rounds(internal_rounds(external_rounds(external_mix(s), initial), internal, d), terminal)
}

proof fn lemma_rcs_step(rcs: Seq<Vec<u32>>, k: int)
    requires
        0 <= k < rcs.len(),
    ensures
        rc_view(rcs).take(k + 1).drop_last() == rc_view(rcs).take(k),
        rc_view(rcs).take(k + 1).last() == ints(rcs[k]@),
{
    assert(rc_view(rcs).take(k + 1).drop_last() =~= rc_view(rcs).take(k));
}

/// Runs one external round per constant vector, in order.
fn external_rounds_exec(state: &mut Vec<u32>, rcs: &Vec<Vec<u32>>)
    requires
        supported_width(old(state).len() as int),
        all_canon(ints(old(state)@)),
        rcs_well_formed(rc_view(rcs@), old(state).len() as int),
    ensures
        ints(final(state)@) == external_rounds(ints(old(state)@), rc_view(rcs@)),
        all_canon(ints(final(state)@)),
        final(state).len() == old(state).len(),
{
    let ghost s0 = ints(state@);
    let mut k: usize = 0;
    while k < rcs.len()
        invariant
            k <= rcs.len(),
            state.len() == s0.len(),
            supported_width(s0.len() as int),
            all_canon(ints(state@)),
            rcs_well_formed(rc_view(rcs@), s0.len() as int),
            ints(state@) == external_rounds(s0, rc_view(rcs@).take(k as int)),
        decreases rcs.len() - k,
    {
        proof {
            lemma_rcs_step(rcs@, k as int);
            assert(rc_view(rcs@)[k as int] == ints(rcs@[k as int]@));
        }
        add_rc_sbox_exec(state, &rcs[k]);
        external_mix_exec(state);
        k = k + 1;
    }
    assert(rc_view(rcs@).take(k as int) =~= rc_view(rcs@));
}

/// Runs one internal round per constant, in order. The width-3 layer with
/// diagonal `[1, 1, 2]` takes its specialised path; any other the general one.
fn internal_rounds_exec(state: &mut Vec<u32>, cs: &Vec<u32>, diag: &Vec<u32>)
    requires
        1 <= old(state).len() <= 32,
        diag.len() == old(state).len(),
        all_canon(ints(old(state)@)),
        all_canon(ints(cs@)),
        all_canon(ints(diag@)),
    ensures
        ints(final(state)@) == internal_rounds(ints(old(state)@), ints(cs@), ints(diag@)),
        all_canon(ints(final(state)@)),
        final(state).len() == old(state).len(),
{
    let ghost s0 = ints(state@);
    let fast = state.len() == 3 && diag[0] == 1 && diag[1] == 1 && diag[2] == 2;
    if fast {
        assert(ints(diag@) =~= diag3());
    }
    let mut k: usize = 0;
    while k < cs.len()
        invariant
            k <= cs.len(),
            state.len() == s0.len(),
            1 <= s0.len() <= 32,
            diag.len() == s0.len(),
            fast ==> s0.len() == 3 && ints(diag@) == diag3(),
            all_canon(ints(state@)),
            all_canon(ints(cs@)),
            all_canon(ints(diag@)),
            ints(state@) == internal_rounds(s0, ints(cs@).take(k as int), ints(diag@)),
        decreases cs.len() - k,
    {
        let ghost before = ints(state@);
        assert(ints(cs@).take(k + 1).drop_last() =~= ints(cs@).take(k as int));
        assert(canon(before[0]) && canon(ints(cs@)[k as int]));
        let a = field_add(state[0], cs[k]);
        let v = sbox_exec(a);
        state.set(0, v);
        assert(ints(state@) =~= before.update(0, sbox(fadd(before[0], ints(cs@)[k as int]))));
        if fast {
            bn254_matmul_internal(state);
            proof {
                lemma_internal_mix3_is_general(before.update(0, sbox(fadd(before[0], ints(cs@)[k as int]))));
            }
        } else {
            internal_mix_exec(state, diag);
        }
        k = k + 1;
    }
    assert(ints(cs@).take(k as int) =~= ints(cs@));
}

/// The internal layer of the width-3 instance, with diagonal `[1, 1, 2]`.
pub struct Poseidon2InternalLayerBn254 {
    internal_constants: Vec<u32>,
}

impl Poseidon2InternalLayerBn254 {
    /// The round constants, one per internal round.
    pub closed spec fn constants(&self) -> Seq<int> {
        ints(self.internal_constants@)
    }

    /// Builds the layer from its round constants.
    pub fn new_from_constants(internal_constants: Vec<u32>) -> (r: Self)
        requires
            all_canon(ints(internal_constants@)),
        ensures
            r.constants() == ints(internal_constants@),
            all_canon(r.constants()),
    {
        Poseidon2InternalLayerBn254 { internal_constants }
    }

    /// Runs all internal rounds on a state of width 3.
    pub fn permute_state(&self, state: &mut Vec<u32>)
        requires
            old(state).len() == 3,
            all_canon(ints(old(state)@)),
            all_canon(self.constants()),
        ensures
            ints(final(state)@) == internal_rounds(ints(old(state)@), self.constants(), diag3()),
            all_canon(ints(final(state)@)),
            final(state).len() == 3,
    {
        let diag: Vec<u32> = vec![1, 1, 2];
        assert(ints(diag@) =~= diag3());
        internal_rounds_exec(state, &self.internal_constants, &diag);
    }
}

/// Why a set of constants cannot make a permutation.
#[derive(Debug, Clone, Copy, PartialEq, Eq)]
pub enum ConstructionError {
    /// The width has no external linear layer.
    UnsupportedWidth,
    /// Either external half does not hold `rounds_f / 2` vectors, or `rounds_f` is odd.
    ExternalRoundCount,
    /// The internal constants are not `rounds_p` in number.
    InternalRoundCount,
    /// The internal diagonal is not as long as the state.
    DiagonalLength,
    /// An external constant vector is not as long as the state.
    ConstantLength,
    /// A constant is not a canonical field element.
    NonCanonical,
}

/// Every vector of a sequence has length `w`.
pub open spec fn all_of_len(rcs: Seq<Seq<int>>, w: int) -> bool {
    forall|i: int| 0 <= i < rcs.len() ==> (#[trigger] rcs[i]).len() == w
}

/// Every vector of a sequence holds canonical field elements.
pub open spec fn all_vectors_canon(rcs: Seq<Seq<int>>) -> bool {
    forall|i: int| 0 <= i < rcs.len() ==> all_canon(#[trigger] rcs[i])
}

/// The first check, in order, that a configuration fails, if any.
pub open spec fn construction_error(
    width: int,
    rounds_f: int,
    rounds_p: int,
    initial: Seq<Seq<int>>,
    terminal: Seq<Seq<int>>,
    internal: Seq<int>,
    diag: Seq<int>,
) -> Option<ConstructionError> {
    if !supported_width(width) {
        Some(ConstructionError::UnsupportedWidth)
    } else if rounds_f % 2 != 0 || initial.len() != rounds_f / 2 || terminal.len() != rounds_f / 2 {
        Some(ConstructionError::ExternalRoundCount)
    } else if internal.len() != rounds_p {
        Some(ConstructionError::InternalRoundCount)
    } else if diag.len() != width {
        Some(ConstructionError::DiagonalLength)
    } else if !all_of_len(initial, width) || !all_of_len(terminal, width) {
        Some(ConstructionError::ConstantLength)
    } else if !all_vectors_canon(initial) || !all_vectors_canon(terminal) || !all_canon(internal)
        || !all_canon(diag) {
        Some(ConstructionError::NonCanonical)
    } else {
        None
    }
}

fn vectors_of_len(rcs: &Vec<Vec<u32>>, w: usize) -> (r: bool)
    ensures
        r == all_of_len(rc_view(rcs@), w as int),
{
    let mut i: usize = 0;
    while i < rcs.len()
        invariant
            i <= rcs.len(),
            forall|j: int| 0 <= j < i ==> (#[trigger] rc_view(rcs@)[j]).len() == w,
        decreases rcs.len() - i,
    {
        if rcs[i].len() != w {
            assert(rc_view(rcs@)[i as int].len() != w);
            return false;
        }
        i = i + 1;
    }
    true
}

fn is_canon(v: &Vec<u32>) -> (r: bool)
    ensures
        r == all_canon(ints(v@)),
{
    let mut i: usize = 0;
    while i < v.len()
        invariant
            i <= v.len(),
            forall|j: int| 0 <= j < i ==> canon(#[trigger] ints(v@)[j]),
        decreases v.len() - i,
    {
        if v[i] as u64 >= crate::field::P {
            assert(!canon(ints(v@)[i as int]));
            return false;
        }
        i = i + 1;
    }
    true
}

fn vectors_canon(rcs: &Vec<Vec<u32>>) -> (r: bool)
    ensures
        r == all_vectors_canon(rc_view(rcs@)),
{
    let mut i: usize = 0;
    while i < rcs.len()
        invariant
            i <= rcs.len(),
            forall|j: int| 0 <= j < i ==> all_canon(#[trigger] rc_view(rcs@)[j]),
        decreases rcs.len() - i,
    {
        if !is_canon(&rcs[i]) {
            assert(!all_canon(rc_view(rcs@)[i as int]));
            return false;
        }
        i = i + 1;
    }
    true
}

/// A Poseidon2 permutation of a fixed width, with its round constants and its
/// internal diagonal. It holds no per-call state.
pub struct Poseidon2 {
    width: usize,
    initial: Vec<Vec<u32>>,
    terminal: Vec<Vec<u32>>,
    internal: Vec<u32>,
    diag: Vec<u32>,
}

impl Poseidon2 {
    /// The number of entries in a state.
    pub closed spec fn width(&self) -> int {
        self.width as int
    }

    /// The constants of the initial external rounds.
    pub closed spec fn initial(&self) -> Seq<Seq<int>> {
        rc_view(self.initial@)
    }

    /// The constants of the terminal external rounds.
    pub closed spec fn terminal(&self) -> Seq<Seq<int>> {
        rc_view(self.terminal@)
    }

    /// The constants of the internal rounds.
    pub closed spec fn internal(&self) -> Seq<int> {
        ints(self.internal@)
    }

    /// The diagonal `d` of the internal matrix `J + diag(d)`.
    pub closed spec fn diag(&self) -> Seq<int> {
        ints(self.diag@)
    }

    /// The configuration passes every check of construction.
    pub open spec fn wf(&self) -> bool {
        construction_error(
            self.width(),
            2 * self.initial().len() as int,
            self.internal().len() as int,
            self.initial(),
            self.terminal(),
            self.internal(),
            self.diag(),
        ) is None
    }

    /// What the permutation makes of a state.
    pub open spec fn apply(&self, s: Seq<int>) -> Seq<int> {
        permutation(s, self.initial(), self.internal(), self.terminal(), self.diag())
    }

    /// Builds a permutation of the given width from `rounds_f / 2` initial and
    /// `rounds_f / 2` terminal constant vectors, `rounds_p` internal constants and
    /// the internal diagonal. Any mismatch is refused, none is truncated or padded.
    pub fn new(
        width: usize,
        rounds_f: usize,
        rounds_p: usize,
        initial: Vec<Vec<u32>>,
        terminal: Vec<Vec<u32>>,
        internal: Vec<u32>,
        diag: Vec<u32>,
    ) -> (r: Result<Self, ConstructionError>)
        ensures
            r is Ok <==> construction_error(width as int, rounds_f as int, rounds_p as int,
                rc_view(initial@), rc_view(terminal@), ints(internal@), ints(diag@)) is None,
            r is Err ==> Some(r->Err_0) == construction_error(width as int, rounds_f as int,
                rounds_p as int, rc_view(initial@), rc_view(terminal@), ints(internal@), ints(diag@)),
            r is Ok ==> ({
                let p = r->Ok_0;
                &&& p.wf()
                &&& p.width() == width
                &&& p.initial() == rc_view(initial@)
                &&& p.terminal() == rc_view(terminal@)
                &&& p.internal() == ints(internal@)
                &&& p.diag() == ints(diag@)
            }),
    {
        let supported = width == 2 || width == 3 || width == 4 || width == 8 || width == 12
            || width == 16 || width == 20 || width == 24 || width == 32;
        if !supported {
            return Err(ConstructionError::UnsupportedWidth);
        }
        if rounds_f % 2 != 0 || initial.len() != rounds_f / 2 || terminal.len() != rounds_f / 2 {
            return Err(ConstructionError::ExternalRoundCount);
        }
        if internal.len() != rounds_p {
            return Err(ConstructionError::InternalRoundCount);
        }
        if diag.len() != width {
            return Err(ConstructionError::DiagonalLength);
        }
        if !vectors_of_len(&initial, width) || !vectors_of_len(&terminal, width) {
            return Err(ConstructionError::ConstantLength);
        }
        if !vectors_canon(&initial) || !vectors_canon(&terminal) || !is_canon(&internal)
            || !is_canon(&diag) {
            return Err(ConstructionError::NonCanonical);
        }
        Ok(Poseidon2 { width, initial, terminal, internal, diag })
    }

    /// The number of entries in a state.
    pub fn state_width(&self) -> (r: usize)
        ensures
            r == self.width(),
    {
        self.width
    }

    /// The initial external layers: the external linear layer once, then one
    /// external round per initial constant vector.
    pub fn permute_state_initial(&self, state: &mut Vec<u32>)
        requires
            self.wf(),
            old(state).len() == self.width(),
            all_canon(ints(old(state)@)),
        ensures
            ints(final(state)@) == external_rounds(external_mix(ints(old(state)@)), self.initial()),
            all_canon(ints(final(state)@)),
            final(state).len() == old(state).len(),
    {
        external_mix_exec(state);
        external_rounds_exec(state, &self.initial);
    }

    /// The terminal external layers: one external round per terminal constant vector.
    pub fn permute_state_terminal(&self, state: &mut Vec<u32>)
        requires
            self.wf(),
            old(state).len() == self.width(),
            all_canon(ints(old(state)@)),
        ensures
            ints(final(state)@) == external_rounds(ints(old(state)@), self.terminal()),
            all_canon(ints(final(state)@)),
            final(state).len() == old(state).len(),
    {
        external_rounds_exec(state, &self.terminal);
    }

    /// Permutes a state in place.
    pub fn permute_mut(&self, state: &mut Vec<u32>)
        requires
            self.wf(),
            old(state).len() == self.width(),
            all_canon(ints(old(state)@)),
        ensures
            ints(final(state)@) == self.apply(ints(old(state)@)),
            all_canon(ints(final(state)@)),
            final(state).len() == old(state).len(),
    {
        self.permute_state_initial(state);
        internal_rounds_exec(state, &self.internal, &self.diag);
        self.permute_state_terminal(state);
    }

    /// Returns the permuted state, leaving the argument as it was.
    pub fn permute(&self, state: &Vec<u32>) -> (r: Vec<u32>)
        requires
            self.wf(),
            state.len() == self.width(),
            all_canon(ints(state@)),
        ensures
            ints(r@) == self.apply(ints(state@)),
            all_canon(ints(r@)),
            r.len() == state.len(),
    {
        let mut out = state.clone();
        assert(out@ == state@);
        self.permute_mut(&mut out);
        out
    }
}

/// Two permutations holding the same constants and diagonal map every state to
/// the same output: nothing else enters the result.
pub proof fn lemma_deterministic(a: Poseidon2, b: Poseidon2, s: Seq<int>)
    requires
        a.initial() == b.initial(),
        a.internal() == b.internal(),
        a.terminal() == b.terminal(),
        a.diag() == b.diag(),
    ensures
        a.apply(s) == b.apply(s),
{
}

} // verus!
