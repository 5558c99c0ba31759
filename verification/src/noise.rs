use vstd::arithmetic::power2::lemma2_to64;
use vstd::arithmetic::power2::lemma_pow2_strictly_increases;
use vstd::arithmetic::power2::lemma_pow2_unfold;
use vstd::arithmetic::power2::pow2;
use vstd::prelude::*;

use crate::codec::bytes_of_words;
use crate::grid::lemma_grid_index;
use crate::grid::TerrainChunk;

verus! {

/// Frequency and sampling scale are kept in thousandths, so this cap admits
/// factors up to 1000.0 while keeping the coordinate arithmetic inside u64.
pub const MAX_MILLIS: u32 = 1000000;

/// The default world-space sampling scale, 0.12 in thousandths: the factor
/// that ties grid resolution to noise feature size.
pub const DEFAULT_SCALE_MILLIS: u32 = 120;

/// Why a generator could not be built.
#[derive(Clone, Copy, Debug, PartialEq, Eq)]
pub enum NoiseError {
    /// A frequency of zero was requested.
    FrequencyZero,
    /// A frequency above `MAX_MILLIS` thousandths was requested.
    FrequencyTooLarge,
    /// A sampling scale of zero was requested.
    ScaleZero,
    /// A sampling scale above `MAX_MILLIS` thousandths was requested.
    ScaleTooLarge,
}

/// A seeded, frequency-configured cell-noise field over 2D grid coordinates.
///
/// Each grid coordinate is scaled into world space, floored onto an
/// orthogonal cell tiling, and the cell is hashed together with the seed into
/// one pseudo-random signed-normalized sample. Every step is exact integer
/// arithmetic, so a sample is a pure function of (seed, frequency, scale,
/// coordinate): the field is deterministic across runs and machines.
#[derive(Clone, Copy, Debug)]
pub struct NoiseFieldGenerator {
    seed: u32,
    frequency_millis: u32,
    scale_millis: u32,
}

/// The noise cell that a grid coordinate lands in: the coordinate scaled by
/// scale·frequency (both in thousandths), rounded towards negative infinity.
pub open spec fn cell_of(i: int, scale: u32, freq: u32) -> int {
    i * scale * freq / 1000000
}

/// The per-cell pseudo-random word: seed and cell coordinates folded into 32
/// bits by a multiply–shift–add mixing chain.
pub open spec fn hash_cell(seed: u32, cx: int, cy: int) -> int {
    let t1: int = ((cx % 0x100000000) * 0x9E3779B1) % 0x100000000;
    let a: int = (seed + t1) % 0x100000000;
    let t2: int = ((cy % 0x100000000) * 0x85EBCA77) % 0x100000000;
    let b: int = (a + t2) % 0x100000000;
    let c: int = (b * 0xC2B2AE3D) % 0x100000000;
    let d: int = (c / 0x10000 + c) % 0x100000000;
    let e: int = (d * 0x27D4EB2F) % 0x100000000;
    (e / 0x2000 + e) % 0x100000000
}

/// Normalization core of the float encoding: doubles the fraction v until it
/// reaches [2^22, 2^23) while stepping the exponent field e down, then lays
/// out exponent and mantissa. Defined for 1 <= v < 2^23.
pub open spec fn norm_bits(v: int, e: int) -> int
    decreases 0x800000 - v,
    when 1 <= v < 0x800000
{
    if v < 0x400000 {
        norm_bits(2 * v, e - 1)
    } else {
        e * 0x800000 + 2 * v - 0x800000
    }
}

/// The IEEE-754 bit pattern of the 32-bit float m / 2^23, for 0 <= m < 2^23:
/// a dyadic rational in [0, 1).
pub open spec fn frac_bits(m: int) -> int {
    if m <= 0 {
        0
    } else {
        norm_bits(m, 126)
    }
}

/// The signed-normalized sample encoded from a hash word: bit 23 of the hash
/// picks the sign, the low 23 bits become the magnitude m / 2^23 in [0, 1).
pub open spec fn snorm_bits(h: int) -> int {
    let m24: int = h % 0x1000000;
    let s: int = m24 / 0x800000;
    let mf: int = m24 % 0x800000;
    s * 0x80000000 + frac_bits(mf)
}

/// Bit patterns that encode a 32-bit float in [-1.0, 1.0]: the magnitude
/// bits are at most those of 1.0, which also rules out NaN and infinities.
pub open spec fn is_snorm_bits(b: int) -> bool {
    0 <= b < 0x100000000 && b % 0x80000000 <= 0x3F800000
}

impl NoiseFieldGenerator {
    /// The seed, as seen by specifications.
    pub closed spec fn seed_spec(&self) -> u32 {
        self.seed
    }

    /// The frequency in thousandths, as seen by specifications.
    pub closed spec fn frequency_spec(&self) -> u32 {
        self.frequency_millis
    }

    /// The sampling scale in thousandths, as seen by specifications.
    pub closed spec fn scale_spec(&self) -> u32 {
        self.scale_millis
    }

    /// A generator is well formed when frequency and scale are positive and
    /// within `MAX_MILLIS`.
    pub open spec fn wf(&self) -> bool {
        1 <= self.frequency_spec() <= MAX_MILLIS && 1 <= self.scale_spec() <= MAX_MILLIS
    }

    /// The sample generated at grid coordinate (x, y), as a 32-bit float bit
    /// pattern. A pure function of the generator's three parameters and the
    /// coordinate alone.
    pub open spec fn sample_bits(&self, x: int, y: int) -> int {
        snorm_bits(
            hash_cell(
                self.seed_spec(),
                cell_of(x, self.scale_spec(), self.frequency_spec()),
                cell_of(y, self.scale_spec(), self.frequency_spec()),
            ),
        )
    }

    /// Builds a generator with the default sampling scale, or reports exactly
    /// why the frequency is unacceptable.
    pub fn create(seed: u32, frequency_millis: u32) -> (r: Result<NoiseFieldGenerator, NoiseError>)
        ensures
            (1 <= frequency_millis <= MAX_MILLIS) <==> r is Ok,
            r matches Ok(g) ==> g.wf() && g.seed_spec() == seed && g.frequency_spec()
                == frequency_millis && g.scale_spec() == DEFAULT_SCALE_MILLIS,
            frequency_millis == 0 ==> r == Result::<NoiseFieldGenerator, NoiseError>::Err(
                NoiseError::FrequencyZero,
            ),
            frequency_millis > MAX_MILLIS ==> r == Result::<NoiseFieldGenerator, NoiseError>::Err(
                NoiseError::FrequencyTooLarge,
            ),
    {
        Self::with_scale(seed, frequency_millis, DEFAULT_SCALE_MILLIS)
    }

    /// Builds a generator with an explicit sampling scale, or reports exactly
    /// which parameter is unacceptable; the frequency is judged first.
    pub fn with_scale(seed: u32, frequency_millis: u32, scale_millis: u32) -> (r: Result<
        NoiseFieldGenerator,
        NoiseError,
    >)
        ensures
            (1 <= frequency_millis <= MAX_MILLIS && 1 <= scale_millis <= MAX_MILLIS) <==> r is Ok,
            r matches Ok(g) ==> g.wf() && g.seed_spec() == seed && g.frequency_spec()
                == frequency_millis && g.scale_spec() == scale_millis,
            frequency_millis == 0 ==> r == Result::<NoiseFieldGenerator, NoiseError>::Err(
                NoiseError::FrequencyZero,
            ),
            frequency_millis > MAX_MILLIS ==> r == Result::<NoiseFieldGenerator, NoiseError>::Err(
                NoiseError::FrequencyTooLarge,
            ),
            (1 <= frequency_millis <= MAX_MILLIS && scale_millis == 0) ==> r == Result::<
                NoiseFieldGenerator,
                NoiseError,
            >::Err(NoiseError::ScaleZero),
            (1 <= frequency_millis <= MAX_MILLIS && scale_millis > MAX_MILLIS) ==> r == Result::<
                NoiseFieldGenerator,
                NoiseError,
            >::Err(NoiseError::ScaleTooLarge),
    {
        if frequency_millis == 0 {
            Err(NoiseError::FrequencyZero)
        } else if frequency_millis > MAX_MILLIS {
            Err(NoiseError::FrequencyTooLarge)
        } else if scale_millis == 0 {
            Err(NoiseError::ScaleZero)
        } else if scale_millis > MAX_MILLIS {
            Err(NoiseError::ScaleTooLarge)
        } else {
            Ok(NoiseFieldGenerator { seed, frequency_millis, scale_millis })
        }
    }

    /// The seed.
    pub fn seed(&self) -> (r: u32)
        ensures
            r == self.seed_spec(),
    {
        self.seed
    }

    /// The frequency in thousandths.
    pub fn frequency_millis(&self) -> (r: u32)
        ensures
            r == self.frequency_spec(),
    {
        self.frequency_millis
    }

    /// The sampling scale in thousandths.
    pub fn scale_millis(&self) -> (r: u32)
        ensures
            r == self.scale_spec(),
    {
        self.scale_millis
    }

    /// Generates the sample at grid coordinate (x, y).
    pub fn sample(&self, x: usize, y: usize) -> (r: u32)
        requires
            self.wf(),
            x < 4096,
            y < 4096,
        ensures
            r as int == self.sample_bits(x as int, y as int),
    {
        let cx: u64 = cell_coord(x, self.scale_millis, self.frequency_millis);
        let cy: u64 = cell_coord(y, self.scale_millis, self.frequency_millis);
        let h: u32 = hash_cell_exec(self.seed, cx, cy);
        let m24: u32 = h % 0x1000000;
        let s: u32 = m24 / 0x800000;
        let mf: u32 = m24 % 0x800000;
        let f: u32 = frac_bits_exec(mf);
        s * 0x80000000 + f
    }

    /// Fills every cell of the grid with the sample generated at its own
    /// coordinates, leaving the grid's shape unchanged.
    pub fn fill(&self, grid: &mut TerrainChunk)
        requires
            self.wf(),
            old(grid).wf(),
        ensures
            final(grid).wf(),
            final(grid).side_spec() == old(grid).side_spec(),
            final(grid)@ == filled_grid(*self, old(grid).side_spec()),
            forall|x: int, y: int|
                0 <= x < old(grid).side_spec() && 0 <= y < old(grid).side_spec()
                    ==> #[trigger] final(grid).at(x, y) as int == self.sample_bits(x, y),
    {
        let side: usize = grid.side();
        let ghost fg = filled_grid(*self, side as nat);
        proof {
            lemma_grid_index(0, side - 1, side as int);
        }
        let mut y: usize = 0;
        while y < side
            invariant
                self.wf(),
                grid.wf(),
                y <= side,
                1 <= side <= 4096,
                side as nat == grid.side_spec(),
                grid@.len() == side * side,
                fg == filled_grid(*self, side as nat),
                fg.len() == side * side,
                forall|j: int| 0 <= j < y * side ==> grid@[j] == fg[j],
            decreases side - y,
        {
            let mut x: usize = 0;
            while x < side
                invariant
                    self.wf(),
                    grid.wf(),
                    x <= side,
                    y < side,
                    1 <= side <= 4096,
                    side as nat == grid.side_spec(),
                    grid@.len() == side * side,
                    fg == filled_grid(*self, side as nat),
                    fg.len() == side * side,
                    forall|j: int| 0 <= j < y * side + x ==> grid@[j] == fg[j],
                decreases side - x,
            {
                let bits: u32 = self.sample(x, y);
                let ghost idx = y as int * side as int + x as int;
                proof {
                    lemma_grid_index(x as int, y as int, side as int);
                    lemma_flat_coords(x as int, y as int, side as int);
                    assert(fg[idx] == self.sample_bits(x as int, y as int) as u32);
                    assert(bits == self.sample_bits(x as int, y as int) as u32);
                }
                grid.set(x, y, bits);
                proof {
                    assert(grid@[idx] == fg[idx]);
                }
                x = x + 1;
            }
            proof {
                assert(y as int * side as int + side as int == (y as int + 1) * side as int)
                    by (nonlinear_arith);
            }
            y = y + 1;
        }
        proof {
            assert(grid@ =~= fg);
            assert forall|px: int, py: int|
                0 <= px < side && 0 <= py < side implies #[trigger] grid.at(px, py) as int
                == self.sample_bits(px, py) by {
                lemma_grid_index(px, py, side as int);
                lemma_flat_coords(px, py, side as int);
                lemma_sample_in_range(*self, px, py);
            }
        }
    }
}

/// The grid that filling a well-formed side×side grid produces: cell (x, y)
/// holds the sample generated at (x, y), row-major.
pub open spec fn filled_grid(gen: NoiseFieldGenerator, side: nat) -> Seq<u32> {
    Seq::new(side * side, |i: int| gen.sample_bits(i % side as int, i / side as int) as u32)
}

/// Determinism: generators with equal parameters produce, for any side
/// length, the same cells and therefore the same byte buffers.
pub proof fn lemma_fill_deterministic(g1: NoiseFieldGenerator, g2: NoiseFieldGenerator, side: nat)
    requires
        g1.seed_spec() == g2.seed_spec(),
        g1.frequency_spec() == g2.frequency_spec(),
        g1.scale_spec() == g2.scale_spec(),
    ensures
        filled_grid(g1, side) == filled_grid(g2, side),
        bytes_of_words(filled_grid(g1, side)) == bytes_of_words(filled_grid(g2, side)),
{
    assert(filled_grid(g1, side) =~= filled_grid(g2, side));
}

/// Spatial coherence: coordinates that land in the same noise cell receive
/// the same sample; variation only happens across cell boundaries.
pub proof fn lemma_same_cell_same_sample(
    gen: NoiseFieldGenerator,
    x1: int,
    y1: int,
    x2: int,
    y2: int,
)
    requires
        cell_of(x1, gen.scale_spec(), gen.frequency_spec()) == cell_of(
            x2,
            gen.scale_spec(),
            gen.frequency_spec(),
        ),
        cell_of(y1, gen.scale_spec(), gen.frequency_spec()) == cell_of(
            y2,
            gen.scale_spec(),
            gen.frequency_spec(),
        ),
    ensures
        gen.sample_bits(x1, y1) == gen.sample_bits(x2, y2),
{
}

/// Range: every sample the generator can produce encodes a float in
/// [-1.0, 1.0], whatever the parameters and the coordinate.
pub proof fn lemma_sample_in_range(gen: NoiseFieldGenerator, x: int, y: int)
    ensures
        is_snorm_bits(gen.sample_bits(x, y)),
{
    let h: int = hash_cell(
        gen.seed_spec(),
        cell_of(x, gen.scale_spec(), gen.frequency_spec()),
        cell_of(y, gen.scale_spec(), gen.frequency_spec()),
    );
    let m24: int = h % 0x1000000;
    let s: int = m24 / 0x800000;
    let mf: int = m24 % 0x800000;
    lemma_frac_bits_bounds(mf);
    let fb: int = frac_bits(mf);
    assert(s == 0 || s == 1);
    assert((0x80000000 + fb) % 0x80000000 == fb) by {
        vstd::arithmetic::div_mod::lemma_mod_multiples_vanish(1, fb, 0x80000000);
        vstd::arithmetic::div_mod::lemma_small_mod(fb as nat, 0x80000000);
    }
    assert(fb % 0x80000000 == fb) by {
        vstd::arithmetic::div_mod::lemma_small_mod(fb as nat, 0x80000000);
    }
}

/// Range, lifted to a whole filled grid: every cell of `filled_grid` encodes
/// a float in [-1.0, 1.0].
pub proof fn lemma_fill_in_range(gen: NoiseFieldGenerator, side: nat)
    ensures
        forall|i: int|
            0 <= i < filled_grid(gen, side).len() ==> is_snorm_bits(
                #[trigger] filled_grid(gen, side)[i] as int,
            ),
{
    assert forall|i: int| 0 <= i < filled_grid(gen, side).len() implies is_snorm_bits(
        filled_grid(gen, side)[i] as int,
    ) by {
        lemma_sample_in_range(gen, i % side as int, i / side as int);
    }
}

/// `norm_bits` stays a non-negative pattern whose magnitude is strictly below
/// the bits of 1.0, as long as the fraction dominates the pending doublings.
proof fn lemma_norm_bits_bounds(v: int, e: int)
    requires
        1 <= v < 0x800000,
        e <= 126,
        pow2((126 - e) as nat) <= v,
    ensures
        0 <= norm_bits(v, e) < 0x3F800000,
    decreases 0x800000 - v,
{
    lemma2_to64();
    if v < 0x400000 {
        if 126 - e >= 22 {
            if 126 - e > 22 {
                lemma_pow2_strictly_increases(22, (126 - e) as nat);
            }
            assert(false);
        }
        lemma_pow2_unfold((126 - (e - 1)) as nat);
        lemma_norm_bits_bounds(2 * v, e - 1);
    } else {
        assert(104 <= e) by {
            if e < 104 {
                lemma_pow2_strictly_increases(23, (126 - e) as nat);
                assert(false);
            }
        }
    }
}

/// `frac_bits` of a 23-bit fraction is a non-negative pattern whose magnitude
/// is strictly below the bits of 1.0.
pub proof fn lemma_frac_bits_bounds(m: int)
    requires
        0 <= m < 0x800000,
    ensures
        0 <= frac_bits(m) < 0x3F800000,
{
    if m > 0 {
        lemma2_to64();
        lemma_norm_bits_bounds(m, 126);
    }
}

/// Splitting a flat row-major index back into its coordinates.
proof fn lemma_flat_coords(x: int, y: int, side: int)
    by (nonlinear_arith)
    requires
        0 <= x < side,
        0 <= y,
    ensures
        (y * side + x) % side == x,
        (y * side + x) / side == y,
{
}

/// Scales a grid coordinate into its noise cell.
fn cell_coord(i: usize, scale: u32, freq: u32) -> (r: u64)
    requires
        i < 4096,
        1 <= scale <= MAX_MILLIS,
        1 <= freq <= MAX_MILLIS,
    ensures
        r as int == cell_of(i as int, scale, freq),
{
    proof {
        assert(i as int * scale as int <= 4095 * 1000000) by (nonlinear_arith)
            requires
                0 <= i as int <= 4095,
                0 <= scale as int <= 1000000,
        ;
        assert(i as int * scale as int * freq as int <= 4095 * 1000000 * 1000000)
            by (nonlinear_arith)
            requires
                0 <= i as int * scale as int <= 4095 * 1000000,
                0 <= freq as int <= 1000000,
        ;
    }
    let a: u64 = (i as u64) * (scale as u64);
    let b: u64 = a * (freq as u64);
    b / 1000000
}

/// Mixes seed and cell coordinates into one pseudo-random 32-bit word.
fn hash_cell_exec(seed: u32, cx: u64, cy: u64) -> (r: u32)
    ensures
        r as int == hash_cell(seed, cx as int, cy as int),
{
    let t1: u64 = ((cx % 0x100000000) * 0x9E3779B1) % 0x100000000;
    let a: u64 = (seed as u64 + t1) % 0x100000000;
    let t2: u64 = ((cy % 0x100000000) * 0x85EBCA77) % 0x100000000;
    let b: u64 = (a + t2) % 0x100000000;
    let c: u64 = (b * 0xC2B2AE3D) % 0x100000000;
    let d: u64 = (c / 0x10000 + c) % 0x100000000;
    let e: u64 = (d * 0x27D4EB2F) % 0x100000000;
    let f: u64 = (e / 0x2000 + e) % 0x100000000;
    f as u32
}

/// Lays out the IEEE-754 bit pattern of m / 2^23.
fn frac_bits_exec(m: u32) -> (r: u32)
    requires
        m < 0x800000,
    ensures
        r as int == frac_bits(m as int),
        r < 0x3F800000,
{
    if m == 0 {
        return 0;
    }
    proof {
        lemma2_to64();
    }
    let mut v: u32 = m;
    let mut e: u32 = 126;
    while v < 0x400000
        invariant
            1 <= v < 0x800000,
            104 <= e <= 126,
            pow2((126 - e) as nat) <= v,
            norm_bits(v as int, e as int) == norm_bits(m as int, 126),
        decreases 0x800000 - v,
    {
        proof {
            lemma2_to64();
            if 126 - e >= 22 {
                if 126 - e > 22 {
                    lemma_pow2_strictly_increases(22, (126 - e) as nat);
                }
                assert(false);
            }
            lemma_pow2_unfold((126 - (e - 1)) as nat);
        }
        v = v * 2;
        e = e - 1;
    }
    proof {
        lemma_norm_bits_bounds(v as int, e as int);
    }
    e * 0x800000 + (v - 0x400000) * 2
}

} // verus!
