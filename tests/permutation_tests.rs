use poseidon2_engine::field::{field_add, field_double, field_mul, sbox_exec, P};
use poseidon2_engine::layers::{bn254_matmul_internal, external_mix_exec, internal_mix_exec};
use poseidon2_engine::packed::{from_scalar, lane, pack};
use poseidon2_engine::permutation::{ConstructionError, Poseidon2, Poseidon2InternalLayerBn254};

/// A small deterministic generator of canonical field elements.
struct Gen(u64);

impl Gen {
    fn next(&mut self) -> u32 {
        self.0 = self
            .0
            .wrapping_mul(6364136223846793005)
            .wrapping_add(1442695040888963407);
        ((self.0 >> 33) % P) as u32
    }

    fn vector(&mut self, n: usize) -> Vec<u32> {
        (0..n).map(|_| self.next()).collect()
    }
}

struct Config {
    initial: Vec<Vec<u32>>,
    terminal: Vec<Vec<u32>>,
    internal: Vec<u32>,
    input: Vec<u32>,
}

fn config(width: usize, rounds_f: usize, rounds_p: usize, seed: u64) -> Config {
    let mut g = Gen(seed);
    let initial = (0..rounds_f / 2).map(|_| g.vector(width)).collect();
    let terminal = (0..rounds_f / 2).map(|_| g.vector(width)).collect();
    let internal = g.vector(rounds_p);
    let input = g.vector(width);
    Config { initial, terminal, internal, input }
}

fn diag_counting(width: usize) -> Vec<u32> {
    (1..=width as u32).collect()
}

fn build(width: usize, rounds_f: usize, rounds_p: usize, seed: u64, diag: Vec<u32>) -> (Poseidon2, Vec<u32>) {
    let c = config(width, rounds_f, rounds_p, seed);
    let p = Poseidon2::new(width, rounds_f, rounds_p, c.initial, c.terminal, c.internal, diag).unwrap();
    (p, c.input)
}

#[test]
fn test_poseidon2_bn254() {
    const WIDTH: usize = 3;
    const ROUNDS_F: usize = 8;
    const ROUNDS_P: usize = 56;
    let (poseidon2, input) = build(WIDTH, ROUNDS_F, ROUNDS_P, 1, vec![1, 1, 2]);
    assert_eq!(input, vec![1020159361, 211819947, 942966199]);
    let expected = vec![1656095476, 690710085, 1110513368];
    let mut output = input.clone();
    poseidon2.permute_mut(&mut output);
    assert_eq!(output, expected);
}

fn packed_matches_scalar(width: usize, rounds_p: usize, seed: u64) {
    let (poseidon2, _) = build(width, 8, rounds_p, seed, diag_counting(width));
    let mut g = Gen(seed + 100);
    let lanes = 4;
    let states: Vec<Vec<u32>> = (0..lanes).map(|_| g.vector(width)).collect();
    let mut packed = pack(&states, width);
    poseidon2.permute_packed_mut(&mut packed, lanes);
    for l in 0..lanes {
        let expected = poseidon2.permute(&states[l]);
        assert_eq!(lane(&packed, l), expected);
    }
}

#[test]
fn test_neon_poseidon2_width_16() {
    packed_matches_scalar(16, 14, 5);
}

#[test]
fn test_neon_poseidon2_width_24() {
    packed_matches_scalar(24, 21, 6);
}

#[test]
fn packed_width_3_matches_scalar() {
    packed_matches_scalar(3, 56, 7);
}

#[test]
fn broadcast_packing_permutes_like_scalar() {
    let (poseidon2, input) = build(16, 8, 14, 8, diag_counting(16));
    let mut packed: Vec<Vec<u32>> = input.iter().map(|&x| from_scalar(x, 4)).collect();
    poseidon2.permute_packed_mut(&mut packed, 4);
    let expected = poseidon2.permute(&input);
    for l in 0..4 {
        assert_eq!(lane(&packed, l), expected);
    }
}

#[test]
fn golden_vector_width_16() {
    let (p, input) = build(16, 8, 14, 2, diag_counting(16));
    assert_eq!(input[0], 2051100673);
    let expected = vec![
        700219631, 1106698241, 1686405735, 938775776, 1072826306, 252026015, 1868386842, 263856243,
        64338276, 165413382, 1415263167, 536497656, 23476337, 106826104, 1455274229, 49386306,
    ];
    assert_eq!(p.permute(&input), expected);
}

#[test]
fn golden_vector_width_24() {
    let (p, input) = build(24, 8, 21, 3, diag_counting(24));
    assert_eq!(input[0], 823076304);
    let expected = vec![
        1748388817, 1061080112, 959594483, 599890052, 503545546, 1173335904, 852755312, 1304401865,
        2080563545, 613913093, 1115650967, 337700374, 575415349, 1170286666, 115629638, 1729538901,
        1360675903, 132787076, 15971717, 473822046, 1859423772, 1338048897, 1708501428, 396408024,
    ];
    assert_eq!(p.permute(&input), expected);
}

#[test]
fn golden_vector_width_2() {
    let (p, input) = build(2, 8, 10, 4, vec![1, 2]);
    assert_eq!(input, vec![1781270846, 1966300733]);
    assert_eq!(p.permute(&input), vec![459972005, 1471680498]);
}

#[test]
fn general_diagonal_width_3() {
    let (p, input) = build(3, 8, 56, 1, vec![1, 2, 3]);
    assert_eq!(p.permute(&input), vec![696577510, 2097090445, 1405415493]);
}

#[test]
fn fast_path_equals_general_layer() {
    let mut g = Gen(11);
    for _ in 0..50 {
        let s = g.vector(3);
        let mut fast = s.clone();
        bn254_matmul_internal(&mut fast);
        let mut general = s.clone();
        internal_mix_exec(&mut general, &vec![1, 1, 2]);
        assert_eq!(fast, general);
    }
}

#[test]
fn fast_path_exact_values() {
    let mut s = vec![1, 2, 3];
    bn254_matmul_internal(&mut s);
    assert_eq!(s, vec![7, 8, 12]);
    let mut s = vec![(P - 1) as u32, (P - 1) as u32, (P - 1) as u32];
    bn254_matmul_internal(&mut s);
    assert_eq!(s, vec![(P - 4) as u32, (P - 4) as u32, (P - 5) as u32]);
}

#[test]
fn internal_layer_struct_runs_rounds() {
    let c = config(3, 8, 56, 1);
    let layer = Poseidon2InternalLayerBn254::new_from_constants(c.internal.clone());
    let mut a = c.input.clone();
    layer.permute_state(&mut a);
    assert_ne!(a, c.input);
    let mut b = c.input.clone();
    for &k in &c.internal {
        b[0] = sbox_exec(field_add(b[0], k));
        internal_mix_exec(&mut b, &vec![1, 1, 2]);
    }
    assert_eq!(a, b);
}

#[test]
fn external_layer_exact_values() {
    let mut s = vec![1, 2, 3, 4];
    external_mix_exec(&mut s);
    assert_eq!(s, vec![68, 46, 100, 78]);
    let mut s = vec![1, 2, 3, 4, 5, 6, 7, 8];
    external_mix_exec(&mut s);
    assert_eq!(s, vec![166, 117, 214, 165, 230, 165, 278, 213]);
    let mut s = vec![1, 2, 3];
    external_mix_exec(&mut s);
    assert_eq!(s, vec![7, 8, 9]);
}

#[test]
fn field_operations() {
    assert_eq!(field_add((P - 1) as u32, 2), 1);
    assert_eq!(field_double(1 << 30), 1);
    assert_eq!(field_mul((P - 1) as u32, (P - 1) as u32), 1);
    assert_eq!(sbox_exec(2), 32);
    assert_eq!(sbox_exec((P - 1) as u32), (P - 1) as u32);
    assert_eq!(sbox_exec(0), 0);
}

#[test]
fn deterministic_across_instances() {
    let (a, input) = build(16, 8, 14, 9, diag_counting(16));
    let (b, _) = build(16, 8, 14, 9, diag_counting(16));
    assert_eq!(a.permute(&input), b.permute(&input));
}

#[test]
fn output_differs_from_input() {
    for (w, rp) in [(3usize, 56usize), (16, 14), (24, 21)] {
        for seed in 20..30u64 {
            let (p, input) = build(w, 8, rp, seed, diag_counting(w));
            assert!(input.iter().any(|&x| x != 0));
            assert_ne!(p.permute(&input), input);
        }
    }
}

#[test]
fn permute_leaves_input_untouched() {
    let (p, input) = build(3, 8, 56, 1, vec![1, 1, 2]);
    let copy = input.clone();
    let out = p.permute(&input);
    assert_eq!(input, copy);
    let mut in_place = input.clone();
    p.permute_mut(&mut in_place);
    assert_eq!(in_place, out);
}

#[test]
fn construction_errors() {
    let c = config(3, 8, 56, 1);
    let ok = |w: usize, rf: usize, rp: usize, i: Vec<Vec<u32>>, t: Vec<Vec<u32>>, n: Vec<u32>, d: Vec<u32>| {
        Poseidon2::new(w, rf, rp, i, t, n, d).err()
    };
    assert_eq!(
        ok(5, 8, 56, c.initial.clone(), c.terminal.clone(), c.internal.clone(), vec![1; 5]),
        Some(ConstructionError::UnsupportedWidth)
    );
    let mut short = c.initial.clone();
    short.pop();
    assert_eq!(
        ok(3, 8, 56, short, c.terminal.clone(), c.internal.clone(), vec![1, 1, 2]),
        Some(ConstructionError::ExternalRoundCount)
    );
    assert_eq!(
        ok(3, 7, 56, c.initial.clone(), c.terminal.clone(), c.internal.clone(), vec![1, 1, 2]),
        Some(ConstructionError::ExternalRoundCount)
    );
    assert_eq!(
        ok(3, 8, 55, c.initial.clone(), c.terminal.clone(), c.internal.clone(), vec![1, 1, 2]),
        Some(ConstructionError::InternalRoundCount)
    );
    assert_eq!(
        ok(3, 8, 56, c.initial.clone(), c.terminal.clone(), c.internal.clone(), vec![1, 1]),
        Some(ConstructionError::DiagonalLength)
    );
    let mut wide = c.terminal.clone();
    wide[1].push(0);
    assert_eq!(
        ok(3, 8, 56, c.initial.clone(), wide, c.internal.clone(), vec![1, 1, 2]),
        Some(ConstructionError::ConstantLength)
    );
    let mut big = c.internal.clone();
    big[3] = P as u32;
    assert_eq!(
        ok(3, 8, 56, c.initial.clone(), c.terminal.clone(), big, vec![1, 1, 2]),
        Some(ConstructionError::NonCanonical)
    );
    let p = Poseidon2::new(3, 8, 56, c.initial, c.terminal, c.internal, vec![1, 1, 2]).unwrap();
    assert_eq!(p.state_width(), 3);
}

#[test]
fn phases_compose_to_permutation() {
    let c = config(3, 8, 56, 1);
    let layer = Poseidon2InternalLayerBn254::new_from_constants(c.internal.clone());
    let p = Poseidon2::new(3, 8, 56, c.initial, c.terminal, c.internal, vec![1, 1, 2]).unwrap();
    let mut s = c.input.clone();
    p.permute_state_initial(&mut s);
    layer.permute_state(&mut s);
    p.permute_state_terminal(&mut s);
    assert_eq!(s, vec![1656095476, 690710085, 1110513368]);
}

#[test]
fn initial_phase_starts_with_linear_layer() {
    let p = Poseidon2::new(3, 0, 0, vec![], vec![], vec![], vec![1, 1, 2]).unwrap();
    let mut s = vec![1, 2, 3];
    p.permute_state_initial(&mut s);
    assert_eq!(s, vec![7, 8, 9]);
    let mut t = vec![1, 2, 3];
    p.permute_state_terminal(&mut t);
    assert_eq!(t, vec![1, 2, 3]);
}

#[test]
fn scalar_broadcast_and_lanes() {
    assert_eq!(from_scalar(9, 3), vec![9, 9, 9]);
    assert_eq!(from_scalar(9, 0), Vec::<u32>::new());
    let states = vec![vec![1, 2, 3], vec![4, 5, 6]];
    let packed = pack(&states, 3);
    assert_eq!(packed, vec![vec![1, 4], vec![2, 5], vec![3, 6]]);
    assert_eq!(lane(&packed, 1), vec![4, 5, 6]);
}
