//! The fixed generators of the commitment scheme, and the windowed tables
//! that fixed-base multiplication reads.
use vstd::prelude::*;
use crate::field::{Scalar, bytes_value, limbs_value};
use crate::curve::{Point, edwards_mul, identity_point, on_curve, lemma_mul_one};

verus! {

/// The number of three-bit windows that cover a full embedded scalar.
pub const FIXED_BASE_CHUNKS_PER_GENERATOR: usize = 84;

/// The generator that a committed value is placed over.
pub open spec fn value_generator() -> (int, int) {
    (
        limbs_value(0x3618_3b2c_b4d7_ef51, 0x9472_c89a_c043_042d, 0xd861_8ed1_d15f_ef4e, 0x273f_910d_9ecc_1615),
        limbs_value(0xa77a_81f5_0667_c8d7, 0xbc33_32d0_fa1c_cd18, 0xd322_94fd_8977_4ad6, 0x466a_7e3a_82f6_7ab1),
    )
}

/// The generator that a commitment is randomized over.
pub open spec fn randomness_generator() -> (int, int) {
    (
        limbs_value(0x3bce_3b77_9366_4337, 0xd1d8_da41_af03_744e, 0x7ff6_826a_d580_04b4, 0x6800_f4fa_0f00_1cfc),
        limbs_value(0x3cae_fab9_380b_6a8b, 0xad46_f1b0_473b_803b, 0xe6fb_2a6e_1e22_ab50, 0x6d81_d3a9_cb45_dedb),
    )
}

/// The generator that a committed value is placed over.
pub fn value_commitment_value_generator() -> (r: Point)
    ensures
        r.wf(),
        r@ == value_generator(),
{
    let r = Point {
        u: Scalar { bytes: [
            0x51, 0xef, 0xd7, 0xb4, 0x2c, 0x3b, 0x18, 0x36, 0x2d, 0x04, 0x43, 0xc0, 0x9a, 0xc8, 0x72, 0x94,
            0x4e, 0xef, 0x5f, 0xd1, 0xd1, 0x8e, 0x61, 0xd8, 0x15, 0x16, 0xcc, 0x9e, 0x0d, 0x91, 0x3f, 0x27,
        ] },
        v: Scalar { bytes: [
            0xd7, 0xc8, 0x67, 0x06, 0xf5, 0x81, 0x7a, 0xa7, 0x18, 0xcd, 0x1c, 0xfa, 0xd0, 0x32, 0x33, 0xbc,
            0xd6, 0x4a, 0x77, 0x89, 0xfd, 0x94, 0x22, 0xd3, 0xb1, 0x7a, 0xf6, 0x82, 0x3a, 0x7e, 0x6a, 0x46,
        ] },
    };
    proof {
        lemma_value_generator_on_curve();
        assert(r@ == value_generator()) by {
            reveal(bytes_value);
        }
    }
    r
}

/// The generator that a commitment is randomized over.
pub fn value_commitment_randomness_generator() -> (r: Point)
    ensures
        r.wf(),
        r@ == randomness_generator(),
{
    let r = Point {
        u: Scalar { bytes: [
            0x37, 0x43, 0x66, 0x93, 0x77, 0x3b, 0xce, 0x3b, 0x4e, 0x74, 0x03, 0xaf, 0x41, 0xda, 0xd8, 0xd1,
            0xb4, 0x04, 0x80, 0xd5, 0x6a, 0x82, 0xf6, 0x7f, 0xfc, 0x1c, 0x00, 0x0f, 0xfa, 0xf4, 0x00, 0x68,
        ] },
        v: Scalar { bytes: [
            0x8b, 0x6a, 0x0b, 0x38, 0xb9, 0xfa, 0xae, 0x3c, 0x3b, 0x80, 0x3b, 0x47, 0xb0, 0xf1, 0x46, 0xad,
            0x50, 0xab, 0x22, 0x1e, 0x6e, 0x2a, 0xfb, 0xe6, 0xdb, 0xde, 0x45, 0xcb, 0xa9, 0xd3, 0x81, 0x6d,
        ] },
    };
    proof {
        lemma_randomness_generator_on_curve();
        assert(r@ == randomness_generator()) by {
            reveal(bytes_value);
        }
    }
    r
}

proof fn lemma_randomness_generator_on_curve()
    ensures
        on_curve(randomness_generator()),
{
    assert(on_curve(randomness_generator())) by (nonlinear_arith);
}

proof fn lemma_value_generator_on_curve()
    ensures
        on_curve(value_generator()),
{
    assert(on_curve(value_generator())) by (nonlinear_arith);
}

/// The base of window `i`: `8^i` copies of `g`, as repeated eightfold sums.
pub open spec fn window_base(g: (int, int), i: nat) -> (int, int)
    decreases i,
{
    if i == 0 {
        g
    } else {
        edwards_mul(window_base(g, (i - 1) as nat), 8)
    }
}

/// The affine coordinates of a table entry.
pub open spec fn entry_view(e: (Scalar, Scalar)) -> (int, int) {
    (e.0.val(), e.1.val())
}

/// `w` holds `k` copies of `base` at each position `k` below 8, in canonical
/// coordinates; position 0 is the neutral element.
pub open spec fn window_matches(w: Seq<(Scalar, Scalar)>, base: (int, int)) -> bool {
    &&& w.len() == 8
    &&& forall|k: int|
        0 <= k < 8 ==> entry_view(#[trigger] w[k]) == edwards_mul(base, k as nat) && w[k].0.wf()
            && w[k].1.wf()
}

/// `t` is the full table of `g`: each window `i` matches `8^i` copies of `g`.
pub open spec fn is_generator_table(t: Seq<Vec<(Scalar, Scalar)>>, g: (int, int)) -> bool {
    &&& t.len() == FIXED_BASE_CHUNKS_PER_GENERATOR
    &&& forall|i: int|
        0 <= i < FIXED_BASE_CHUNKS_PER_GENERATOR ==> window_matches(#[trigger] t[i]@, window_base(g, i as nat))
}

/// Builds the table of three-bit windows for fixed-base multiplication by `gen`:
/// window `i` holds `0, 1, ..., 7` times `8^i` copies of `gen`.
pub fn generate_circuit_generator(gen: Point) -> (r: Vec<Vec<(Scalar, Scalar)>>)
    requires
        gen.wf(),
    ensures
        is_generator_table(r@, gen@),
{
    let ghost g0 = gen@;
    let mut gen = gen;
    let mut windows: Vec<Vec<(Scalar, Scalar)>> = Vec::new();
    let mut w: usize = 0;
    while w < FIXED_BASE_CHUNKS_PER_GENERATOR
        invariant
            w <= FIXED_BASE_CHUNKS_PER_GENERATOR,
            windows@.len() == w,
            gen.wf(),
            gen@ == window_base(g0, w as nat),
            forall|i: int| 0 <= i < w ==> window_matches(#[trigger] windows@[i]@, window_base(g0, i as nat)),
        decreases FIXED_BASE_CHUNKS_PER_GENERATOR - w,
    {
        let mut coeffs: Vec<(Scalar, Scalar)> = Vec::new();
        coeffs.push((Scalar::zero(), Scalar::one()));
        let mut g = gen;
        proof {
            lemma_mul_one(gen@);
        }
        let mut k: usize = 0;
        while k < 7
            invariant
                k <= 7,
                coeffs@.len() == k + 1,
                gen.wf(),
                g.wf(),
                g@ == edwards_mul(gen@, (k + 1) as nat),
                forall|j: int|
                    0 <= j <= k ==> entry_view(#[trigger] coeffs@[j]) == edwards_mul(gen@, j as nat)
                        && coeffs@[j].0.wf() && coeffs@[j].1.wf(),
            decreases 7 - k,
        {
            coeffs.push((g.u, g.v));
            g = g.add(&gen);
            k = k + 1;
        }
        windows.push(coeffs);
        gen = g;
        w = w + 1;
        assert(windows@[w - 1]@ == coeffs@);
    }
    windows
}

/// A generator table has 84 windows of 8 entries, and entry 0 of every
/// window is the neutral element `(0, 1)`.
pub proof fn lemma_table_shape(t: Seq<Vec<(Scalar, Scalar)>>, g: (int, int))
    requires
        is_generator_table(t, g),
    ensures
        t.len() == FIXED_BASE_CHUNKS_PER_GENERATOR,
        forall|i: int|
            0 <= i < t.len() ==> (#[trigger] t[i])@.len() == 8 && entry_view(t[i]@[0]) == identity_point(),
{
    assert forall|i: int| 0 <= i < t.len() implies (#[trigger] t[i])@.len() == 8 && entry_view(t[i]@[0])
        == identity_point() by {
        assert(window_matches(t[i]@, window_base(g, i as nat)));
        assert(entry_view(t[i]@[0]) == edwards_mul(window_base(g, i as nat), 0));
    }
}

/// The tables of both commitment generators, built once by the caller and
/// then only read.
pub struct GeneratorTables {
    pub value: Vec<Vec<(Scalar, Scalar)>>,
    pub randomness: Vec<Vec<(Scalar, Scalar)>>,
}

impl GeneratorTables {
    pub open spec fn wf(&self) -> bool {
        is_generator_table(self.value@, value_generator()) && is_generator_table(
            self.randomness@,
            randomness_generator(),
        )
    }

    /// Builds the table of each commitment generator.
    pub fn new() -> (r: GeneratorTables)
        ensures
            r.wf(),
    {
        GeneratorTables {
            value: generate_circuit_generator(value_commitment_value_generator()),
            randomness: generate_circuit_generator(value_commitment_randomness_generator()),
        }
    }
}

} // verus!
