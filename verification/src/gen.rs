//! The terrain pipeline: configuration, heightmap generation, region
//! classification and mesh construction.
//!
//! A `NoiseConfig` describes a map; `Noise::from` copies it into an
//! unconfigured generator; `generate_map` runs the two generation passes
//! (octave-summed raw synthesis, then min/max normalization) and yields a
//! finished heightmap whose every cell lies in `[0, FP]`; `colorize_map`
//! and `generate_mesh` consume the finished map. The stages are kept apart
//! by a typestate marker, so an ungenerated map can neither be colored nor
//! meshed.

use vstd::prelude::*;
use core::marker::PhantomData;
use crate::fixed::{FP, abs, div_trunc, clamp_spec, mul_div_trunc, mul_div_clamp, clamp_i128, div_trunc_i128, lemma_div_trunc_bound};
use crate::utils::{Rgba, inv_lerp_spec, inv_lerp, color_lerp_spec, color_lerp};
use crate::rng::{SeededRng, std_rng_draw};
use crate::coherent::{COORD_MAX, sample_spec, sample};

verus! {

/// Largest grid side the generator accepts: a representation limit that
/// keeps every index computation inside `usize` and every coordinate
/// inside the sampler's range.
pub const DIM_MAX: usize = 16_384;

/// Largest magnitude accepted for the fixed-point parameters (scale,
/// persistence, lacunarity, global offset): a representation limit of the
/// 64-bit fixed-point arithmetic.
pub const PARAM_MAX: i64 = 1_000_000_000_000;

/// Most octaves the generator accepts; with the amplitude ceiling it
/// bounds every accumulated cell height.
pub const OCTAVE_MAX: usize = 1_000;

/// Magnitude at which a growing per-octave amplitude saturates (the real
/// number 1000, of either sign): a representation limit of the
/// fixed-point accumulator.
pub const AMP_CAP: i64 = 1_000_000_000;

/// Magnitude at which a growing per-octave frequency saturates (the real
/// number one million, of either sign).
pub const FREQ_CAP: i64 = 1_000_000_000_000;

/// Floor the scale is clamped to when the configuration asks for zero or
/// less: the real number 0.0001, so the division by scale stays defined.
pub const SCALE_FLOOR: i64 = 100;

/// Half a unit: the defined normalized height of a flat field.
pub const HALF_FP: i64 = 500_000;

/// Magnitude bound of each per-octave jitter offset component (the real
/// number 100000), drawn uniformly from `[-JITTER, JITTER)`.
pub const JITTER: i64 = 100_000_000_000;

/// A named terrain band: cells whose normalized height is at most
/// `height` (and above every earlier band's threshold) take `color`.
#[derive(Clone, Debug)]
pub struct TerrainType {
    pub height: i64,
    pub color: Rgba,
    pub name: String,
}

/// How the finished map is rendered: as a continuous grayscale gradient,
/// as region colors, or as region colors plus a surface mesh.
#[derive(Clone, Copy, PartialEq, Eq, Structural, Debug)]
pub enum DrawMode {
    RawNoise,
    RegionColor,
    Mesh,
}

/// Why generation was refused.
#[derive(Clone, Copy, PartialEq, Eq, Structural, Debug)]
pub enum GenError {
    /// The grid has a zero side; no buffer is produced.
    InvalidDimension,
}

/// The full description of a map: grid size, noise shape, seed, and how
/// to render the result.
#[derive(Clone, Debug)]
pub struct NoiseConfig {
    pub seed: u32,
    pub width: usize,
    pub height: usize,
    pub scale: i64,
    pub octaves: usize,
    pub persistence: i64,
    pub lacunarity: i64,
    pub offset_x: i64,
    pub offset_y: i64,
    pub draw_mode: DrawMode,
    pub regions: Vec<TerrainType>,
}

/// The mathematical content of a configuration or of a generator stage:
/// plain integers, a sequence of regions, and (once generated) the
/// normalized height of every cell in row-major order.
#[verifier::ext_equal]
pub struct NoiseView {
    pub seed: u32,
    pub width: nat,
    pub height: nat,
    pub scale: int,
    pub octaves: nat,
    pub persistence: int,
    pub lacunarity: int,
    pub offset_x: int,
    pub offset_y: int,
    pub draw_mode: DrawMode,
    pub regions: Seq<TerrainType>,
    pub heights: Seq<int>,
}

impl View for NoiseConfig {
    type V = NoiseView;

    open spec fn view(&self) -> NoiseView {
        NoiseView {
            seed: self.seed,
            width: self.width as nat,
            height: self.height as nat,
            scale: self.scale as int,
            octaves: self.octaves as nat,
            persistence: self.persistence as int,
            lacunarity: self.lacunarity as int,
            offset_x: self.offset_x as int,
            offset_y: self.offset_y as int,
            draw_mode: self.draw_mode,
            regions: self.regions@,
            heights: Seq::empty(),
        }
    }
}

/// The machine-limit bounds on a configuration's parameters: what the
/// 64-bit fixed-point representation can carry through generation.
pub open spec fn params_wf(v: NoiseView) -> bool {
    &&& v.width <= DIM_MAX
    &&& v.height <= DIM_MAX
    &&& -PARAM_MAX <= v.scale <= PARAM_MAX
    &&& v.octaves <= OCTAVE_MAX
    &&& -PARAM_MAX <= v.persistence <= PARAM_MAX
    &&& -PARAM_MAX <= v.lacunarity <= PARAM_MAX
    &&& -PARAM_MAX <= v.offset_x <= PARAM_MAX
    &&& -PARAM_MAX <= v.offset_y <= PARAM_MAX
}

impl Default for NoiseConfig {
    /// A 100 by 100 map of four octaves at scale 22, with a water band
    /// below 0.4 and a land band up to 1.0.
    fn default() -> (c: NoiseConfig)
        ensures
            c.seed == 0,
            c.width == 100,
            c.height == 100,
            c.scale == 22 * FP,
            c.octaves == 4,
            c.persistence == HALF_FP,
            c.lacunarity == 2 * FP,
            c.offset_x == 0,
            c.offset_y == 0,
            c.draw_mode == DrawMode::RegionColor,
            c.regions@.len() == 2,
            c.regions@[0].height == 400_000,
            c.regions@[0].color == (Rgba { r: 0, g: 0, b: FP as i64, a: FP as i64 }),
            c.regions@[0].name@ == "Water"@,
            c.regions@[1].height == FP,
            c.regions@[1].color == (Rgba { r: 0, g: FP as i64, b: 0, a: FP as i64 }),
            c.regions@[1].name@ == "Land"@,
            params_wf(c@),
    {
        let mut regions: Vec<TerrainType> = Vec::new();
        regions.push(TerrainType {
            height: 400_000,
            color: Rgba { r: 0, g: 0, b: FP, a: FP },
            name: "Water".to_string(),
        });
        regions.push(TerrainType {
            height: FP,
            color: Rgba { r: 0, g: FP, b: 0, a: FP },
            name: "Land".to_string(),
        });
        NoiseConfig {
            seed: 0,
            width: 100,
            height: 100,
            scale: 22 * FP,
            octaves: 4,
            persistence: HALF_FP,
            lacunarity: 2 * FP,
            offset_x: 0,
            offset_y: 0,
            draw_mode: DrawMode::RegionColor,
            regions,
        }
    }
}

/// Typestate marker of a generator that has not yet run.
pub struct Undefined;

/// Typestate marker of a generator whose heightmap is finished.
pub struct Generated;

/// A heightmap generator. `Noise<Undefined>` holds only the copied
/// configuration; `Noise<Generated>` additionally owns the finished,
/// normalized height buffer, and only it can be colored or meshed.
#[verifier::reject_recursive_types(Stage)]
pub struct Noise<Stage> {
    seed: u32,
    width: usize,
    height: usize,
    scale: i64,
    octaves: usize,
    persistence: i64,
    lacunarity: i64,
    offset_x: i64,
    offset_y: i64,
    draw_mode: DrawMode,
    regions: Vec<TerrainType>,
    noise_map: Vec<i64>,
    _marker: PhantomData<Stage>,
}

impl<Stage> View for Noise<Stage> {
    type V = NoiseView;

    closed spec fn view(&self) -> NoiseView {
        NoiseView {
            seed: self.seed,
            width: self.width as nat,
            height: self.height as nat,
            scale: self.scale as int,
            octaves: self.octaves as nat,
            persistence: self.persistence as int,
            lacunarity: self.lacunarity as int,
            offset_x: self.offset_x as int,
            offset_y: self.offset_y as int,
            draw_mode: self.draw_mode,
            regions: self.regions@,
            heights: self.noise_map@.map_values(|v: i64| v as int),
        }
    }
}

impl<Stage> Noise<Stage> {
    /// Grid height in cells.
    pub fn height(&self) -> (h: usize)
        ensures
            h == self@.height,
    {
        self.height
    }

    /// Grid width in cells.
    pub fn width(&self) -> (w: usize)
        ensures
            w == self@.width,
    {
        self.width
    }
}

impl Noise<Undefined> {
    /// An unconfigured generator holding a copy of the configuration.
    pub fn from(config: NoiseConfig) -> (n: Noise<Undefined>)
        ensures
            n@ =~= config@,
    {
        Noise {
            seed: config.seed,
            width: config.width,
            height: config.height,
            scale: config.scale,
            octaves: config.octaves,
            persistence: config.persistence,
            lacunarity: config.lacunarity,
            offset_x: config.offset_x,
            offset_y: config.offset_y,
            draw_mode: config.draw_mode,
            regions: config.regions,
            noise_map: Vec::new(),
            _marker: PhantomData,
        }
    }
}

/// The scale actually used by sampling: the configured one, or the floor
/// when the configuration asks for zero or less.
pub open spec fn eff_scale(scale: int) -> int {
    if scale <= 0 { SCALE_FLOOR as int } else { scale }
}

/// The draw history before jitter draw `k`: every earlier draw sampled
/// the same jitter range, so the history is determined by the count
/// alone.
pub open spec fn jitter_history(k: int) -> Seq<(i64, i64)> {
    Seq::new(k as nat, |j: int| ((-JITTER) as i64, JITTER))
}

/// Horizontal jitter offset of octave `i`: draw `2i` of the seeded
/// stream, shifted by the global offset.
pub open spec fn octave_offset_x(v: NoiseView, i: int) -> int {
    std_rng_draw(v.seed as u64, jitter_history(2 * i), (-JITTER) as i64, JITTER) + v.offset_x
}

/// Vertical jitter offset of octave `i`: draw `2i + 1` of the seeded
/// stream, shifted by the global offset.
pub open spec fn octave_offset_y(v: NoiseView, i: int) -> int {
    std_rng_draw(v.seed as u64, jitter_history(2 * i + 1), (-JITTER) as i64, JITTER) + v.offset_y
}

/// Sampling coordinate of grid position `pos` along an axis of `dim`
/// cells: centered on the axis, divided by the scale, multiplied by the
/// octave frequency, shifted by the octave offset, and clamped to the
/// sampler's coordinate range.
pub open spec fn sample_coord(pos: int, dim: int, scale: int, freq: int, off: int) -> int {
    let centered = (pos - dim / 2) * FP;
    let q1 = div_trunc(centered * FP, scale);
    let q2 = div_trunc(q1 * freq, FP as int);
    clamp_spec(q2 + off, -COORD_MAX as int, COORD_MAX as int)
}

/// Accumulator state after the first `n` octaves at cell `(x, y)`:
/// the summed height, the next amplitude and the next frequency.
/// Amplitude and frequency start at one and decay or grow by persistence
/// and lacunarity, saturating at their representation ceilings.
pub open spec fn octave_state(v: NoiseView, x: int, y: int, n: nat) -> (int, int, int)
    decreases n,
{
    if n == 0 {
        (0, FP as int, FP as int)
    } else {
        let prev = octave_state(v, x, y, (n - 1) as nat);
        let sx = sample_coord(x, v.width as int, eff_scale(v.scale), prev.2, octave_offset_x(v, n - 1));
        let sy = sample_coord(y, v.height as int, eff_scale(v.scale), prev.2, octave_offset_y(v, n - 1));
        let value = 2 * sample_spec(v.seed, sx, sy) - FP;
        (
            prev.0 + div_trunc(value * prev.1, FP as int),
            clamp_spec(div_trunc(prev.1 * v.persistence, FP as int), -AMP_CAP as int, AMP_CAP as int),
            clamp_spec(div_trunc(prev.2 * v.lacunarity, FP as int), -FREQ_CAP as int, FREQ_CAP as int),
        )
    }
}

/// Raw (pre-normalization) height of cell `(x, y)`.
pub open spec fn raw_cell(v: NoiseView, x: int, y: int) -> int {
    octave_state(v, x, y, v.octaves).0
}

/// The raw height field in row-major order (`x + y * width`).
pub open spec fn raw_map(v: NoiseView) -> Seq<int> {
    Seq::new(
        (v.width * v.height) as nat,
        |i: int| raw_cell(v, i % (v.width as int), i / (v.width as int)),
    )
}

/// Largest element of a sequence (zero for an empty one).
pub open spec fn seq_max(s: Seq<int>) -> int
    decreases s.len(),
{
    if s.len() == 0 {
        0
    } else if s.len() == 1 {
        s[0]
    } else {
        vstd::math::max(s.last(), seq_max(s.drop_last()))
    }
}

/// Smallest element of a sequence (zero for an empty one).
pub open spec fn seq_min(s: Seq<int>) -> int
    decreases s.len(),
{
    if s.len() == 0 {
        0
    } else if s.len() == 1 {
        s[0]
    } else {
        vstd::math::min(s.last(), seq_min(s.drop_last()))
    }
}

/// Normalized height of a raw cell: where it sits between the observed
/// extremes, or the defined mid value on a flat field.
pub open spec fn normalize_cell(h: int, lo: int, hi: int) -> int {
    if lo == hi { HALF_FP as int } else { inv_lerp_spec(lo, hi, h) }
}

/// The finished heightmap of a configuration: the raw octave-summed field
/// remapped onto `[0, FP]` by inverse interpolation between its observed
/// minimum and maximum.
pub open spec fn height_map_spec(v: NoiseView) -> Seq<int> {
    let raw = raw_map(v);
    Seq::new(raw.len(), |i: int| normalize_cell(raw[i], seq_min(raw), seq_max(raw)))
}

/// The generation-relevant parameters of two views coincide: everything
/// that determines the height field (regions, draw mode and any stored
/// heights play no part in it).
pub open spec fn same_gen_params(a: NoiseView, b: NoiseView) -> bool {
    &&& a.seed == b.seed
    &&& a.width == b.width
    &&& a.height == b.height
    &&& a.scale == b.scale
    &&& a.octaves == b.octaves
    &&& a.persistence == b.persistence
    &&& a.lacunarity == b.lacunarity
    &&& a.offset_x == b.offset_x
    &&& a.offset_y == b.offset_y
}

proof fn lemma_octave_state_congruent(a: NoiseView, b: NoiseView, x: int, y: int, n: nat)
    requires
        same_gen_params(a, b),
    ensures
        octave_state(a, x, y, n) == octave_state(b, x, y, n),
    decreases n,
{
    if n > 0 {
        lemma_octave_state_congruent(a, b, x, y, (n - 1) as nat);
    }
}

/// Determinism: the heightmap is a function of the seed and the shape
/// parameters alone. Two configurations that agree on them — whatever
/// their regions, draw modes or stored heights — generate the same map.
pub proof fn lemma_height_map_deterministic(a: NoiseView, b: NoiseView)
    requires
        same_gen_params(a, b),
    ensures
        height_map_spec(a) == height_map_spec(b),
{
    assert forall|x: int, y: int| #[trigger] raw_cell(a, x, y) == raw_cell(b, x, y) by {
        lemma_octave_state_congruent(a, b, x, y, a.octaves);
    }
    assert(raw_map(a) =~= raw_map(b));
    assert(height_map_spec(a) =~= height_map_spec(b));
}

/// Appending to a sequence takes the running minimum of the extended
/// sequence to the smaller of the old minimum and the new element.
proof fn lemma_seq_min_push(s: Seq<int>, e: int)
    ensures
        seq_min(s.push(e)) == if s.len() == 0 { e } else { vstd::math::min(e, seq_min(s)) },
{
    let t = s.push(e);
    assert(t.drop_last() =~= s);
    assert(t.last() == e);
}

/// Appending to a sequence takes the running maximum of the extended
/// sequence to the larger of the old maximum and the new element.
proof fn lemma_seq_max_push(s: Seq<int>, e: int)
    ensures
        seq_max(s.push(e)) == if s.len() == 0 { e } else { vstd::math::max(e, seq_max(s)) },
{
    let t = s.push(e);
    assert(t.drop_last() =~= s);
    assert(t.last() == e);
}

/// The clamped sampling coordinate, in 64-bit arithmetic.
fn coord(pos: usize, dim: usize, scale: i64, freq: i64, off: i64) -> (r: i64)
    requires
        pos < dim <= DIM_MAX,
        1 <= scale <= PARAM_MAX,
        -FREQ_CAP <= freq <= FREQ_CAP,
        -PARAM_MAX - JITTER <= off <= PARAM_MAX + JITTER,
    ensures
        r == sample_coord(pos as int, dim as int, scale as int, freq as int, off as int),
        -COORD_MAX <= r <= COORD_MAX,
{
    let centered: i64 = (pos as i64 - (dim / 2) as i64) * FP;
    proof {
        assert(abs(centered * FP) <= scale * (DIM_MAX * FP * FP)) by (nonlinear_arith)
            requires
                1 <= scale,
                -(DIM_MAX as int) * FP <= centered <= (DIM_MAX as int) * FP,
        ;
        lemma_div_trunc_bound(centered * FP, scale as int, DIM_MAX * FP * FP);
    }
    let q1: i64 = mul_div_trunc(centered, FP, scale);
    proof {
        assert(abs(q1 * freq) <= (DIM_MAX * FP * FP) * FREQ_CAP) by (nonlinear_arith)
            requires
                abs(q1 as int) <= DIM_MAX * FP * FP,
                -FREQ_CAP <= freq <= FREQ_CAP,
        ;
    }
    let q2: i128 = (q1 as i128) * (freq as i128);
    let q3: i128 = div_trunc_i128(q2, FP as i128);
    let s: i128 = q3 + (off as i128);
    clamp_i128(s, -COORD_MAX, COORD_MAX)
}

/// The raw octave sum at one cell: each octave samples the coherent
/// noise at a scaled, jittered coordinate, rescales it by `2v - 1`, and
/// adds it under the current amplitude; amplitude and frequency then
/// decay and grow by persistence and lacunarity.
fn accumulate_cell(
    n: &Noise<Undefined>,
    x: usize,
    y: usize,
    scale_c: i64,
    offs_x: &Vec<i64>,
    offs_y: &Vec<i64>,
) -> (c: i64)
    requires
        params_wf(n@),
        x < n@.width,
        y < n@.height,
        scale_c == eff_scale(n@.scale),
        offs_x@.len() == n@.octaves,
        offs_y@.len() == n@.octaves,
        forall|j: int| 0 <= j < n@.octaves ==> #[trigger] offs_x@[j] == octave_offset_x(n@, j),
        forall|j: int| 0 <= j < n@.octaves ==> #[trigger] offs_y@[j] == octave_offset_y(n@, j),
        forall|j: int| 0 <= j < n@.octaves ==> -PARAM_MAX - JITTER <= #[trigger] offs_x@[j] <= PARAM_MAX + JITTER,
        forall|j: int| 0 <= j < n@.octaves ==> -PARAM_MAX - JITTER <= #[trigger] offs_y@[j] <= PARAM_MAX + JITTER,
    ensures
        c as int == raw_cell(n@, x as int, y as int),
        abs(c as int) <= 3 * AMP_CAP * OCTAVE_MAX,
{
    let ghost v = n@;
    let mut amp: i64 = FP;
    let mut freq: i64 = FP;
    let mut cell: i64 = 0;
    let mut o: usize = 0;
    while o < n.octaves
        invariant
            params_wf(v),
            n@ == v,
            x < v.width,
            y < v.height,
            scale_c == eff_scale(v.scale),
            1 <= scale_c <= PARAM_MAX,
            offs_x@.len() == v.octaves,
            offs_y@.len() == v.octaves,
            forall|j: int| 0 <= j < v.octaves ==> #[trigger] offs_x@[j] == octave_offset_x(v, j),
            forall|j: int| 0 <= j < v.octaves ==> #[trigger] offs_y@[j] == octave_offset_y(v, j),
            forall|j: int| 0 <= j < v.octaves ==> -PARAM_MAX - JITTER <= #[trigger] offs_x@[j] <= PARAM_MAX + JITTER,
            forall|j: int| 0 <= j < v.octaves ==> -PARAM_MAX - JITTER <= #[trigger] offs_y@[j] <= PARAM_MAX + JITTER,
            o <= v.octaves,
            (cell as int, amp as int, freq as int) == octave_state(v, x as int, y as int, o as nat),
            -AMP_CAP <= amp <= AMP_CAP,
            -FREQ_CAP <= freq <= FREQ_CAP,
            abs(cell as int) <= 3 * AMP_CAP * o,
        decreases v.octaves - o,
    {
        let sx = coord(x, n.width, scale_c, freq, offs_x[o]);
        let sy = coord(y, n.height, scale_c, freq, offs_y[o]);
        let val = sample(n.seed, sx, sy);
        let pv = 2 * val - FP;
        proof {
            assert(abs(pv * amp) <= FP * (3 * AMP_CAP)) by (nonlinear_arith)
                requires
                    -3 * FP <= pv <= FP,
                    -AMP_CAP <= amp <= AMP_CAP,
            ;
            lemma_div_trunc_bound(pv * amp, FP as int, 3 * AMP_CAP);
            assert(3 * AMP_CAP * o + 3 * AMP_CAP == 3 * AMP_CAP * (o + 1)
                && 3 * AMP_CAP * (o + 1) <= 3 * AMP_CAP * OCTAVE_MAX) by (nonlinear_arith)
                requires o + 1 <= OCTAVE_MAX,
            ;
        }
        let layer = mul_div_trunc(pv, amp, FP);
        cell = cell + layer;
        amp = mul_div_clamp(amp, n.persistence, FP, AMP_CAP);
        freq = mul_div_clamp(freq, n.lacunarity, FP, FREQ_CAP);
        o += 1;
    }
    proof {
        assert(3 * AMP_CAP * o <= 3 * AMP_CAP * OCTAVE_MAX) by (nonlinear_arith)
            requires o <= OCTAVE_MAX,
        ;
    }
    cell
}

impl Noise<Undefined> {
    /// Runs both generation passes: the per-cell octave sum of coherent
    /// noise with seeded jitter offsets, then normalization of the whole
    /// field between its observed extremes (a flat field maps to the
    /// defined mid value). Fails exactly on a zero-sided grid, before any
    /// buffer is built; the finished map keeps every other parameter.
    #[verifier::rlimit(100)]
    pub fn generate_map(self) -> (r: Result<Noise<Generated>, GenError>)
        requires
            params_wf(self@),
        ensures
            match r {
                Ok(n) => {
                    &&& self@.width > 0
                    &&& self@.height > 0
                    &&& same_gen_params(n@, self@)
                    &&& n@.regions == self@.regions
                    &&& n@.draw_mode == self@.draw_mode
                    &&& n@.heights == height_map_spec(self@)
                    &&& n.wf()
                },
                Err(e) => {
                    &&& e == GenError::InvalidDimension
                    &&& (self@.width == 0 || self@.height == 0)
                },
            },
    {
        if self.width == 0 || self.height == 0 {
            return Err(GenError::InvalidDimension);
        }
        let ghost v = self@;
        let w = self.width;
        let h = self.height;
        proof {
            assert(w * h <= DIM_MAX * DIM_MAX) by (nonlinear_arith)
                requires w <= DIM_MAX && h <= DIM_MAX,
            ;
        }
        let n_cells: usize = w * h;
        let scale_c: i64 = if self.scale <= 0 { SCALE_FLOOR } else { self.scale };

        let mut rng = SeededRng::from_seed(self.seed as u64);
        let mut offs_x: Vec<i64> = Vec::new();
        let mut offs_y: Vec<i64> = Vec::new();
        let mut i: usize = 0;
        while i < self.octaves
            invariant
                params_wf(v),
                self@ == v,
                i <= self@.octaves,
                rng.seed() == v.seed as u64,
                rng.history() == jitter_history(2 * i),
                offs_x@.len() == i,
                offs_y@.len() == i,
                forall|j: int| 0 <= j < i ==> #[trigger] offs_x@[j] == octave_offset_x(v, j),
                forall|j: int| 0 <= j < i ==> #[trigger] offs_y@[j] == octave_offset_y(v, j),
                forall|j: int| 0 <= j < i ==> -PARAM_MAX - JITTER <= #[trigger] offs_x@[j] <= PARAM_MAX + JITTER,
                forall|j: int| 0 <= j < i ==> -PARAM_MAX - JITTER <= #[trigger] offs_y@[j] <= PARAM_MAX + JITTER,
            decreases self@.octaves - i,
        {
            let dx = rng.next_in(-JITTER, JITTER);
            proof {
                assert(rng.history() =~= jitter_history(2 * i + 1));
            }
            let dy = rng.next_in(-JITTER, JITTER);
            proof {
                assert(rng.history() =~= jitter_history(2 * i + 2));
            }
            offs_x.push(dx + self.offset_x);
            offs_y.push(dy + self.offset_y);
            i += 1;
        }

        proof {
            assert(1 <= w * h) by (nonlinear_arith)
                requires 1 <= w && 1 <= h,
            ;
        }
        let mut raw: Vec<i64> = Vec::new();
        let ghost mut rs: Seq<int> = Seq::empty();
        let mut min_h: i64 = i64::MAX;
        let mut max_h: i64 = i64::MIN;
        let mut k: usize = 0;
        while k < n_cells
            invariant
                params_wf(v),
                self@ == v,
                w == v.width,
                h == v.height,
                1 <= w,
                1 <= h,
                n_cells == w * h,
                scale_c == eff_scale(v.scale),
                offs_x@.len() == v.octaves,
                offs_y@.len() == v.octaves,
                forall|j: int| 0 <= j < v.octaves ==> #[trigger] offs_x@[j] == octave_offset_x(v, j),
                forall|j: int| 0 <= j < v.octaves ==> #[trigger] offs_y@[j] == octave_offset_y(v, j),
                forall|j: int| 0 <= j < v.octaves ==> -PARAM_MAX - JITTER <= #[trigger] offs_x@[j] <= PARAM_MAX + JITTER,
                forall|j: int| 0 <= j < v.octaves ==> -PARAM_MAX - JITTER <= #[trigger] offs_y@[j] <= PARAM_MAX + JITTER,
                k <= n_cells,
                raw@.len() == k,
                rs.len() == k,
                forall|j: int| 0 <= j < k ==> #[trigger] rs[j] == raw@[j] as int,
                forall|j: int| 0 <= j < k ==> #[trigger] rs[j] == raw_map(v)[j],
                forall|j: int| 0 <= j < k ==> abs(#[trigger] rs[j]) <= 3 * AMP_CAP * OCTAVE_MAX,
                forall|j: int| 0 <= j < k ==> min_h <= #[trigger] raw@[j] <= max_h,
                k == 0 ==> min_h == i64::MAX && max_h == i64::MIN,
                k > 0 ==> min_h == seq_min(rs) && max_h == seq_max(rs),
                k > 0 ==> abs(min_h as int) <= 3 * AMP_CAP * OCTAVE_MAX
                    && abs(max_h as int) <= 3 * AMP_CAP * OCTAVE_MAX,
            decreases n_cells - k,
        {
            let x = k % w;
            let y = k / w;
            proof {
                vstd::arithmetic::div_mod::lemma_mod_bound(k as int, w as int);
                vstd::arithmetic::div_mod::lemma_div_pos_is_pos(k as int, w as int);
                vstd::arithmetic::div_mod::lemma_fundamental_div_mod(k as int, w as int);
                assert(k / w < h) by (nonlinear_arith)
                    requires k < w * h && w >= 1 && (k / w) * (w as int) + k % w == k && 0 <= k % w,
                ;
            }
            let cell = accumulate_cell(&self, x, y, scale_c, &offs_x, &offs_y);
            proof {
                lemma_seq_min_push(rs, cell as int);
                lemma_seq_max_push(rs, cell as int);
            }
            raw.push(cell);
            proof {
                rs = rs.push(cell as int);
            }
            if cell < min_h {
                min_h = cell;
            }
            if cell > max_h {
                max_h = cell;
            }
            k += 1;
        }

        proof {
            assert(rs =~= raw_map(v));
        }
        let ghost lo = seq_min(rs);
        let ghost hi = seq_max(rs);

        let mut out: Vec<i64> = Vec::new();
        let mut k2: usize = 0;
        while k2 < n_cells
            invariant
                raw@.len() == n_cells,
                1 <= n_cells,
                rs.len() == n_cells,
                forall|j: int| 0 <= j < n_cells ==> #[trigger] rs[j] == raw@[j] as int,
                k2 <= n_cells,
                out@.len() == k2,
                forall|j: int| 0 <= j < n_cells ==> abs(#[trigger] rs[j]) <= 3 * AMP_CAP * OCTAVE_MAX,
                forall|j: int| 0 <= j < n_cells ==> min_h <= #[trigger] raw@[j] <= max_h,
                min_h == lo,
                max_h == hi,
                abs(min_h as int) <= 3 * AMP_CAP * OCTAVE_MAX,
                abs(max_h as int) <= 3 * AMP_CAP * OCTAVE_MAX,
                forall|j: int| 0 <= j < k2 ==> #[trigger] out@[j] == normalize_cell(rs[j], lo, hi),
                forall|j: int| 0 <= j < k2 ==> 0 <= #[trigger] out@[j] <= FP,
            decreases n_cells - k2,
        {
            let rv = raw[k2];
            let nv: i64 = if min_h == max_h {
                HALF_FP
            } else {
                proof {
                    crate::utils::lemma_inv_lerp_unit(min_h as int, max_h as int, rv as int);
                }
                inv_lerp(min_h, max_h, rv)
            };
            out.push(nv);
            k2 += 1;
        }

        let n = Noise::<Generated> {
            seed: self.seed,
            width: self.width,
            height: self.height,
            scale: self.scale,
            octaves: self.octaves,
            persistence: self.persistence,
            lacunarity: self.lacunarity,
            offset_x: self.offset_x,
            offset_y: self.offset_y,
            draw_mode: self.draw_mode,
            regions: self.regions,
            noise_map: out,
            _marker: PhantomData,
        };
        proof {
            assert(rs == raw_map(v));
            assert(n@.heights =~= height_map_spec(v));
        }
        Ok(n)
    }
}

/// Color of a normalized height under the ordered region list: the first
/// region whose threshold is at least the height wins; a cell no region
/// covers keeps the transparent default.
pub open spec fn classify(regions: Seq<TerrainType>, h: int) -> Rgba
    decreases regions.len(),
{
    if regions.len() == 0 {
        Rgba { r: 0, g: 0, b: 0, a: 0 }
    } else if h <= regions[0].height {
        regions[0].color
    } else {
        classify(regions.drop_first(), h)
    }
}

/// Color of one cell: a black-to-white gradient by height in `RawNoise`
/// mode, the first-match region color in the other modes.
pub open spec fn cell_color(v: NoiseView, h: int) -> Rgba {
    match v.draw_mode {
        DrawMode::RawNoise => color_lerp_spec(
            Rgba { r: 0, g: 0, b: 0, a: FP as i64 },
            Rgba { r: FP as i64, g: FP as i64, b: FP as i64, a: FP as i64 },
            h,
        ),
        DrawMode::RegionColor => classify(v.regions, h),
        DrawMode::Mesh => classify(v.regions, h),
    }
}

/// The whole color buffer of a finished map, cell by cell in row-major
/// order.
pub open spec fn colorize_spec(v: NoiseView) -> Seq<Rgba> {
    Seq::new(v.heights.len(), |i: int| cell_color(v, v.heights[i]))
}

/// Colorization is a pure function of the heights, the draw mode and the
/// regions: coloring the same finished map twice, or two maps that agree
/// on those, gives identical buffers.
pub proof fn lemma_colorize_idempotent(a: NoiseView, b: NoiseView)
    requires
        a.heights == b.heights,
        a.draw_mode == b.draw_mode,
        a.regions == b.regions,
    ensures
        colorize_spec(a) == colorize_spec(b),
{
    assert(colorize_spec(a) =~= colorize_spec(b));
}

/// First-match region lookup for one cell: the color of the first
/// region in list order whose threshold is at least `h`, or transparent
/// when none covers it.
pub fn classify_cell(regions: &Vec<TerrainType>, h: i64) -> (c: Rgba)
    ensures
        c == classify(regions@, h as int),
{
    proof {
        assert(regions@.skip(0) =~= regions@);
    }
    let mut i: usize = 0;
    while i < regions.len()
        invariant
            i <= regions@.len(),
            classify(regions@, h as int) == classify(regions@.skip(i as int), h as int),
        decreases regions@.len() - i,
    {
        let region = &regions[i];
        proof {
            assert(regions@.skip(i as int)[0] == regions@[i as int]);
            assert(regions@.skip(i as int).drop_first() =~= regions@.skip(i as int + 1));
        }
        if h <= region.height {
            return region.color;
        }
        i += 1;
    }
    Rgba::transparent()
}

impl Noise<Generated> {
    /// A finished heightmap: positive dimensions, a full row-major
    /// buffer, every cell in the unit interval, and parameters within the
    /// machine bounds.
    pub open spec fn wf(self) -> bool {
        &&& params_wf(self@)
        &&& 1 <= self@.width
        &&& 1 <= self@.height
        &&& self@.heights.len() == self@.width * self@.height
        &&& forall|i: int| 0 <= i < self@.heights.len() ==> 0 <= #[trigger] self@.heights[i] <= FP
    }

    /// Normalized height of cell `(x, y)` of the finished map.
    pub fn cell(&self, x: usize, y: usize) -> (v: i64)
        requires
            self.wf(),
            x < self@.width,
            y < self@.height,
        ensures
            v as int == self@.heights[x + y * self@.width],
            0 <= v <= FP,
    {
        proof {
            assert(x + y * self@.width < self@.width * self@.height
                && self@.width * self@.height <= DIM_MAX * DIM_MAX) by (nonlinear_arith)
                requires
                    x < self@.width && y < self@.height
                        && self@.width <= DIM_MAX && self@.height <= DIM_MAX,
            ;
            assert(self@.heights[(x + y * self@.width) as int]
                == self.noise_map@[(x + y * self@.width) as int] as int);
        }
        self.noise_map[x + y * self.width]
    }

    /// The per-cell RGBA buffer of the finished map: one color per cell,
    /// row-major, the same length as the height buffer. `RawNoise` mode
    /// blends black to white by height; the other modes take the first
    /// region whose threshold covers the cell, or leave it transparent.
    pub fn colorize_map(&self) -> (colors: Vec<Rgba>)
        requires
            self.wf(),
        ensures
            colors@ == colorize_spec(self@),
            colors@.len() == self@.width * self@.height,
    {
        let n_cells = self.noise_map.len();
        let mut colors: Vec<Rgba> = Vec::new();
        let mut k: usize = 0;
        while k < n_cells
            invariant
                self.wf(),
                n_cells == self@.heights.len(),
                k <= n_cells,
                colors@.len() == k,
                forall|j: int| 0 <= j < k ==> #[trigger] colors@[j] == cell_color(self@, self@.heights[j]),
            decreases n_cells - k,
        {
            let hv = self.noise_map[k];
            proof {
                assert(self@.heights[k as int] == self.noise_map@[k as int] as int);
            }
            let c = match self.draw_mode {
                DrawMode::RawNoise => color_lerp(Rgba::black(), Rgba::white(), hv),
                DrawMode::RegionColor => classify_cell(&self.regions, hv),
                DrawMode::Mesh => classify_cell(&self.regions, hv),
            };
            colors.push(c);
            k += 1;
        }
        proof {
            assert(colors@ =~= colorize_spec(self@));
        }
        colors
    }
}

/// A 3D position in fixed-point units.
#[derive(Clone, Copy, PartialEq, Eq, Structural, Debug)]
pub struct Vec3 {
    pub x: i64,
    pub y: i64,
    pub z: i64,
}

/// A 2D texture coordinate in fixed-point units.
#[derive(Clone, Copy, PartialEq, Eq, Structural, Debug)]
pub struct Vec2 {
    pub x: i64,
    pub y: i64,
}

/// The renderable surface of a finished map: one vertex and one texture
/// coordinate per cell, and six triangle indices per interior quad, all
/// pre-sized and filled by strictly increasing append.
pub struct MeshData {
    pub vertices: Vec<Vec3>,
    pub triangles: Vec<usize>,
    pub uvs: Vec<Vec2>,
    pub triangle_index: usize,
}

/// Vertex of cell `(x, y)`: the grid centered on the origin, elevated by
/// the cell's normalized height, with the z axis running down the rows.
pub open spec fn vertex_spec(v: NoiseView, x: int, y: int) -> Vec3 {
    let tlx = -div_trunc((v.width - 1) * FP, 2);
    let tlz = div_trunc((v.height - 1) * FP, 2);
    Vec3 {
        x: (tlx + x * FP) as i64,
        y: v.heights[x + y * v.width] as i64,
        z: (tlz - y * FP) as i64,
    }
}

/// Texture coordinate of cell `(x, y)`: its fraction of the grid sides.
pub open spec fn uv_spec(v: NoiseView, x: int, y: int) -> Vec2 {
    Vec2 {
        x: div_trunc(x * FP, v.width as int) as i64,
        y: div_trunc(y * FP, v.height as int) as i64,
    }
}

/// Entry `j` of the triangle index buffer. Quads are walked row-major;
/// quad `(qx, qy)` spans cells `i = qx + qy * width` through
/// `i + width + 1` and emits the two triangles `(i, i+width+1, i+width)`
/// and `(i+width+1, i, i+1)`, in that winding.
pub open spec fn tri_entry(v: NoiseView, j: int) -> int {
    let q = j / 6;
    let r = j % 6;
    let qx = q % (v.width - 1);
    let qy = q / (v.width - 1);
    let i = qx + qy * v.width;
    if r == 0 {
        i
    } else if r == 1 {
        i + v.width + 1
    } else if r == 2 {
        i + v.width
    } else if r == 3 {
        i + v.width + 1
    } else if r == 4 {
        i
    } else {
        i + 1
    }
}

impl MeshData {
    /// How many triangle index slots have been filled so far.
    pub open spec fn tri_index(self) -> int {
        self.triangle_index as int
    }

    /// Empty, fully pre-sized buffers for a grid of the given sides:
    /// one vertex and one texture coordinate per cell, six indices per
    /// interior quad, and no triangle appended yet.
    pub fn new(mesh_width: usize, mesh_height: usize) -> (m: MeshData)
        requires
            1 <= mesh_width <= DIM_MAX,
            1 <= mesh_height <= DIM_MAX,
        ensures
            m.vertices@.len() == mesh_width * mesh_height,
            m.uvs@.len() == mesh_width * mesh_height,
            m.triangles@.len() == (mesh_width - 1) * (mesh_height - 1) * 6,
            m.tri_index() == 0,
            forall|k: int| 0 <= k < m.vertices@.len() ==> #[trigger] m.vertices@[k] == (Vec3 { x: 0, y: 0, z: 0 }),
            forall|k: int| 0 <= k < m.uvs@.len() ==> #[trigger] m.uvs@[k] == (Vec2 { x: 0, y: 0 }),
            forall|k: int| 0 <= k < m.triangles@.len() ==> #[trigger] m.triangles@[k] == 0,
    {
        proof {
            assert(mesh_width * mesh_height <= DIM_MAX * DIM_MAX
                && (mesh_width - 1) * (mesh_height - 1) <= DIM_MAX * DIM_MAX
                && (mesh_width - 1) * (mesh_height - 1) * 6 <= DIM_MAX * DIM_MAX * 6) by (nonlinear_arith)
                requires
                    1 <= mesh_width <= DIM_MAX,
                    1 <= mesh_height <= DIM_MAX,
            ;
        }
        let n_cells: usize = mesh_width * mesh_height;
        let n_indices: usize = (mesh_width - 1) * (mesh_height - 1) * 6;
        let mut vertices: Vec<Vec3> = Vec::new();
        let mut k: usize = 0;
        while k < n_cells
            invariant
                k <= n_cells,
                vertices@.len() == k,
                forall|j: int| 0 <= j < k ==> #[trigger] vertices@[j] == (Vec3 { x: 0, y: 0, z: 0 }),
            decreases n_cells - k,
        {
            vertices.push(Vec3 { x: 0, y: 0, z: 0 });
            k += 1;
        }
        let mut uvs: Vec<Vec2> = Vec::new();
        let mut k2: usize = 0;
        while k2 < n_cells
            invariant
                k2 <= n_cells,
                uvs@.len() == k2,
                forall|j: int| 0 <= j < k2 ==> #[trigger] uvs@[j] == (Vec2 { x: 0, y: 0 }),
            decreases n_cells - k2,
        {
            uvs.push(Vec2 { x: 0, y: 0 });
            k2 += 1;
        }
        let mut triangles: Vec<usize> = Vec::new();
        let mut k3: usize = 0;
        while k3 < n_indices
            invariant
                k3 <= n_indices,
                triangles@.len() == k3,
                forall|j: int| 0 <= j < k3 ==> #[trigger] triangles@[j] == 0,
            decreases n_indices - k3,
        {
            triangles.push(0);
            k3 += 1;
        }
        MeshData { vertices, triangles, uvs, triangle_index: 0 }
    }

    /// Appends one triangle's three vertex indices at the fill position.
    pub fn add_triangle(&mut self, a: usize, b: usize, c: usize)
        requires
            0 <= old(self).tri_index(),
            old(self).tri_index() + 3 <= old(self).triangles@.len(),
        ensures
            final(self).triangles@ == old(self).triangles@
                .update(old(self).tri_index(), a)
                .update(old(self).tri_index() + 1, b)
                .update(old(self).tri_index() + 2, c),
            final(self).tri_index() == old(self).tri_index() + 3,
            final(self).vertices == old(self).vertices,
            final(self).uvs == old(self).uvs,
    {
        let i = self.triangle_index;
        let n = self.triangles.len();
        self.triangles[i] = a;
        self.triangles[i + 1] = b;
        self.triangles[i + 2] = c;
        self.triangle_index = i + 3;
    }
}

/// Vertex of flat cell index `k` (row-major).
pub open spec fn vertex_entry(v: NoiseView, k: int) -> Vec3 {
    vertex_spec(v, k % (v.width as int), k / (v.width as int))
}

/// Texture coordinate of flat cell index `k` (row-major).
pub open spec fn uv_entry(v: NoiseView, k: int) -> Vec2 {
    uv_spec(v, k % (v.width as int), k / (v.width as int))
}

impl Noise<Generated> {
    /// Triangulates the finished map into a mesh: one centered,
    /// height-elevated vertex and one texture coordinate per cell, and
    /// for every interior quad the two triangles of the fixed winding.
    /// The buffers come out exactly sized and every triangle index
    /// references a valid vertex slot.
    #[verifier::rlimit(100)]
    pub fn generate_mesh(&self) -> (m: MeshData)
        requires
            self.wf(),
        ensures
            m.vertices@.len() == self@.width * self@.height,
            m.uvs@.len() == self@.width * self@.height,
            m.triangles@.len() == (self@.width - 1) * (self@.height - 1) * 6,
            m.tri_index() == m.triangles@.len(),
            forall|k: int| 0 <= k < m.vertices@.len() ==> #[trigger] m.vertices@[k] == vertex_entry(self@, k),
            forall|k: int| 0 <= k < m.uvs@.len() ==> #[trigger] m.uvs@[k] == uv_entry(self@, k),
            forall|j: int| 0 <= j < m.triangles@.len() ==> #[trigger] m.triangles@[j] == tri_entry(self@, j),
            forall|j: int| 0 <= j < m.triangles@.len() ==> 0 <= #[trigger] m.triangles@[j] < self@.width * self@.height,
    {
        let ghost v = self@;
        let w = self.width;
        let h = self.height;
        let mut mesh = MeshData::new(w, h);
        proof {
            assert(w * h <= DIM_MAX * DIM_MAX) by (nonlinear_arith)
                requires w <= DIM_MAX && h <= DIM_MAX,
            ;
        }
        let n_cells = w * h;

        let tlx_mag: u64 = ((w - 1) as u64) * (FP as u64) / 2;
        let tlz_mag: u64 = ((h - 1) as u64) * (FP as u64) / 2;
        let tlx: i64 = -(tlx_mag as i64);
        let tlz: i64 = tlz_mag as i64;
        proof {
            assert(tlx as int == -div_trunc((v.width - 1) * FP, 2));
            assert(tlz as int == div_trunc((v.height - 1) * FP, 2));
        }

        let mut k: usize = 0;
        while k < n_cells
            invariant
                self.wf(),
                self@ == v,
                w == v.width,
                h == v.height,
                1 <= w <= DIM_MAX,
                1 <= h <= DIM_MAX,
                n_cells == w * h,
                self.noise_map@.len() == n_cells,
                tlx as int == -div_trunc((v.width - 1) * FP, 2),
                tlz as int == div_trunc((v.height - 1) * FP, 2),
                -16_384_000_000 <= tlx <= 0,
                0 <= tlz <= 16_384_000_000,
                k <= n_cells,
                mesh.vertices@.len() == n_cells,
                mesh.uvs@.len() == n_cells,
                mesh.triangles@.len() == (v.width - 1) * (v.height - 1) * 6,
                mesh.tri_index() == 0,
                forall|j: int| 0 <= j < k ==> #[trigger] mesh.vertices@[j] == vertex_entry(v, j),
                forall|j: int| 0 <= j < k ==> #[trigger] mesh.uvs@[j] == uv_entry(v, j),
            decreases n_cells - k,
        {
            let x = k % w;
            let y = k / w;
            proof {
                vstd::arithmetic::div_mod::lemma_mod_bound(k as int, w as int);
                vstd::arithmetic::div_mod::lemma_div_pos_is_pos(k as int, w as int);
                vstd::arithmetic::div_mod::lemma_fundamental_div_mod(k as int, w as int);
                assert(k / w < h) by (nonlinear_arith)
                    requires k < w * h && w >= 1 && (k / w) * (w as int) + k % w == k && 0 <= k % w,
                ;
                assert(self@.heights[k as int] == self.noise_map@[k as int] as int);
            }
            let px: i64 = tlx + (x as i64) * FP;
            let py: i64 = self.noise_map[k];
            let pz: i64 = tlz - (y as i64) * FP;
            mesh.vertices[k] = Vec3 { x: px, y: py, z: pz };
            let ux: i64 = (((x as u64) * (FP as u64)) / (w as u64)) as i64;
            let uy: i64 = (((y as u64) * (FP as u64)) / (h as u64)) as i64;
            proof {
                vstd::arithmetic::div_mod::lemma_div_pos_is_pos(x * FP, w as int);
                vstd::arithmetic::div_mod::lemma_div_is_ordered(x * FP, 16_384_000_000, w as int);
                vstd::arithmetic::div_mod::lemma_div_pos_is_pos(y * FP, h as int);
                vstd::arithmetic::div_mod::lemma_div_is_ordered(y * FP, 16_384_000_000, h as int);
            }
            mesh.uvs[k] = Vec2 { x: ux, y: uy };
            proof {
                assert(mesh.vertices@[k as int] == vertex_entry(v, k as int));
                assert(mesh.uvs@[k as int] == uv_entry(v, k as int));
            }
            k += 1;
        }

        proof {
            assert((w - 1) * (h - 1) <= DIM_MAX * DIM_MAX) by (nonlinear_arith)
                requires 1 <= w <= DIM_MAX && 1 <= h <= DIM_MAX,
            ;
        }
        let n_quads: usize = (w - 1) * (h - 1);
        let mut q: usize = 0;
        while q < n_quads
            invariant
                self@ == v,
                w == v.width,
                h == v.height,
                1 <= w <= DIM_MAX,
                1 <= h <= DIM_MAX,
                n_cells == w * h,
                n_quads == (w - 1) * (h - 1),
                q <= n_quads,
                mesh.vertices@.len() == n_cells,
                mesh.uvs@.len() == n_cells,
                mesh.triangles@.len() == n_quads * 6,
                mesh.tri_index() == 6 * q,
                forall|j: int| 0 <= j < k ==> #[trigger] mesh.vertices@[j] == vertex_entry(v, j),
                forall|j: int| 0 <= j < k ==> #[trigger] mesh.uvs@[j] == uv_entry(v, j),
                k == n_cells,
                forall|j: int| 0 <= j < 6 * q ==> #[trigger] mesh.triangles@[j] == tri_entry(v, j),
                forall|j: int| 0 <= j < 6 * q ==> 0 <= #[trigger] mesh.triangles@[j] < n_cells,
            decreases n_quads - q,
        {
            proof {
                assert(w - 1 >= 1) by (nonlinear_arith)
                    requires (w - 1) * (h - 1) >= 1 && w >= 1 && h >= 1,
                ;
                assert(6 * q + 6 <= n_quads * 6) by (nonlinear_arith)
                    requires q < n_quads,
                ;
            }
            let qx = q % (w - 1);
            let qy = q / (w - 1);
            proof {
                vstd::arithmetic::div_mod::lemma_mod_bound(q as int, w as int - 1);
                vstd::arithmetic::div_mod::lemma_div_pos_is_pos(q as int, w as int - 1);
                vstd::arithmetic::div_mod::lemma_fundamental_div_mod(q as int, w as int - 1);
                assert(q as int / (w as int - 1) < h - 1) by (nonlinear_arith)
                    requires
                        q < (w - 1) * (h - 1) && w as int - 1 >= 1
                            && q as int == (w as int - 1) * (q as int / (w as int - 1))
                                + q as int % (w as int - 1)
                            && 0 <= q as int % (w as int - 1) < w as int - 1,
                ;
            }
            proof {
                assert(qx + qy * w + w + 1 < w * h && w * h <= DIM_MAX * DIM_MAX) by (nonlinear_arith)
                    requires
                        qx < w - 1 && qy < h - 1 && 1 <= w <= DIM_MAX && 1 <= h <= DIM_MAX,
                ;
            }
            let i = qx + qy * w;
            let ghost t0 = mesh.triangles@;
            mesh.add_triangle(i, i + w + 1, i + w);
            mesh.add_triangle(i + w + 1, i, i + 1);
            proof {
                let j0 = 6 * q as int;
                assert forall|r: int| 0 <= r < 6 implies
                    #[trigger] tri_entry(v, j0 + r) == mesh.triangles@[j0 + r] by {
                    vstd::arithmetic::div_mod::lemma_fundamental_div_mod_converse(
                        j0 + r, 6, q as int, r);
                }
            }
            q += 1;
        }
        proof {
            assert(mesh.triangles@.len() == (v.width - 1) * (v.height - 1) * 6);
        }
        mesh
    }
}

proof fn lemma_seq_const_extremes(s: Seq<int>, c: int)
    requires
        s.len() > 0,
        forall|i: int| 0 <= i < s.len() ==> #[trigger] s[i] == c,
    ensures
        seq_min(s) == c,
        seq_max(s) == c,
    decreases s.len(),
{
    if s.len() > 1 {
        lemma_seq_const_extremes(s.drop_last(), c);
    }
}

/// Flat-field safety: with no octaves the raw field is identically zero,
/// so normalization takes its defined flat-field branch and every cell of
/// the finished map is exactly one half.
pub proof fn lemma_flat_field(v: NoiseView)
    requires
        v.octaves == 0,
    ensures
        forall|i: int| 0 <= i < height_map_spec(v).len() ==>
            #[trigger] height_map_spec(v)[i] == HALF_FP,
{
    let raw = raw_map(v);
    assert forall|i: int| 0 <= i < raw.len() implies #[trigger] raw[i] == 0 by {
        assert(raw_cell(v, i % (v.width as int), i / (v.width as int)) == 0);
    }
    if raw.len() > 0 {
        lemma_seq_const_extremes(raw, 0);
    }
}

/// The map subsystem: the pass the engine-facing plugin runs at startup
/// and again whenever the configuration changes.
pub struct MapPlugin;

impl MapPlugin {
    /// One full pipeline pass: generate the heightmap from the
    /// configuration, color every cell, and in `Mesh` mode also
    /// triangulate the surface. Fails exactly when generation does, on a
    /// zero-sided grid.
    pub fn regenerate(config: NoiseConfig) -> (r: Result<(Noise<Generated>, Vec<Rgba>, Option<MeshData>), GenError>)
        requires
            params_wf(config@),
        ensures
            match r {
                Ok(out) => {
                    &&& same_gen_params(out.0@, config@)
                    &&& out.0@.regions == config@.regions
                    &&& out.0@.draw_mode == config@.draw_mode
                    &&& out.0@.heights == height_map_spec(config@)
                    &&& out.0.wf()
                    &&& out.1@ == colorize_spec(out.0@)
                    &&& (out.2 is Some <==> config@.draw_mode == DrawMode::Mesh)
                    &&& match out.2 {
                        Some(m) => {
                            &&& m.vertices@.len() == config@.width * config@.height
                            &&& m.uvs@.len() == config@.width * config@.height
                            &&& m.triangles@.len() == (config@.width - 1) * (config@.height - 1) * 6
                            &&& forall|k: int| 0 <= k < m.vertices@.len() ==>
                                #[trigger] m.vertices@[k] == vertex_entry(out.0@, k)
                            &&& forall|k: int| 0 <= k < m.uvs@.len() ==>
                                #[trigger] m.uvs@[k] == uv_entry(out.0@, k)
                            &&& forall|j: int| 0 <= j < m.triangles@.len() ==>
                                #[trigger] m.triangles@[j] == tri_entry(out.0@, j)
                            &&& forall|j: int| 0 <= j < m.triangles@.len() ==>
                                0 <= #[trigger] m.triangles@[j] < m.vertices@.len()
                        },
                        None => true,
                    }
                },
                Err(e) => {
                    &&& e == GenError::InvalidDimension
                    &&& (config@.width == 0 || config@.height == 0)
                },
            },
    {
        let noise = Noise::from(config);
        let generated = match noise.generate_map() {
            Ok(g) => g,
            Err(e) => {
                return Err(e);
            },
        };
        let colors = generated.colorize_map();
        let mesh = match generated.draw_mode {
            DrawMode::Mesh => Some(generated.generate_mesh()),
            DrawMode::RawNoise => None,
            DrawMode::RegionColor => None,
        };
        Ok((generated, colors, mesh))
    }
}

} // verus!
