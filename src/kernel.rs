//! Convolution kernels: the directional gradient set and procedural rings.
use crate::raster::{GrayImage, Grid};
use vstd::arithmetic::div_mod::{lemma_fundamental_div_mod, lemma_mod_bound};
use vstd::prelude::*;

verus! {

/// The largest magnitude of a kernel weight.
pub const MAX_WEIGHT: i64 = 1024;

/// The largest number of weights in a kernel.
pub const MAX_TAPS: u64 = 1048576;

/// A rectangular grid of integer weights, row-major.
#[derive(Clone, Debug)]
pub struct Kernel {
    pub width: u32,
    pub height: u32,
    pub data: Vec<i64>,
}

impl View for Kernel {
    type V = Grid;

    open spec fn view(&self) -> Grid {
        Grid {
            width: self.width as int,
            height: self.height as int,
            cells: self.data@.map_values(|v: i64| v as int),
        }
    }
}

impl Kernel {
    /// Non-empty, one weight per cell, at most `MAX_TAPS` cells and every
    /// weight within `[-MAX_WEIGHT, MAX_WEIGHT]`.
    pub open spec fn wf(&self) -> bool {
        &&& self.width >= 1
        &&& self.height >= 1
        &&& self.data@.len() == self.width * self.height
        &&& self.data@.len() <= MAX_TAPS
        &&& forall|i: int|
            0 <= i < self.data@.len() ==> -MAX_WEIGHT <= #[trigger] self.data@[i] <= MAX_WEIGHT
    }
}

/// The direction along which a gradient kernel differentiates.
#[derive(Clone, Copy, Debug, PartialEq, Eq, Structural)]
pub enum Orientation {
    Deg0,
    Deg90,
    Deg45,
    Deg135,
}

/// The nine weights of the 3x3 gradient kernel of `o`, row-major.
pub open spec fn gradient_weights(o: Orientation) -> Seq<int> {
    match o {
        Orientation::Deg0 => seq![1, 2, 1, 0, 0, 0, -1, -2, -1],
        Orientation::Deg90 => seq![1, 0, -1, 2, 0, -2, 1, 0, -1],
        Orientation::Deg45 => seq![0, 1, 2, -1, 0, 1, -2, -1, 0],
        Orientation::Deg135 => seq![-2, -1, 0, -1, 0, 1, 0, 1, 2],
    }
}

/// The 3x3 gradient kernel of `o` as a grid.
pub open spec fn gradient_grid(o: Orientation) -> Grid {
    Grid { width: 3, height: 3, cells: gradient_weights(o) }
}

/// The sum of a sequence of weights.
pub open spec fn weight_sum(s: Seq<int>) -> int
    decreases s.len(),
{
    if s.len() == 0 {
        0
    } else {
        weight_sum(s.drop_last()) + s.last()
    }
}

/// Builds the 3x3 gradient kernel of orientation `o`.
pub fn gradient_kernel(o: Orientation) -> (r: Kernel)
    ensures
        r.wf(),
        r.width == 3,
        r.height == 3,
        r@ == gradient_grid(o),
{
    let data: Vec<i64> = match o {
        Orientation::Deg0 => vec![1, 2, 1, 0, 0, 0, -1, -2, -1],
        Orientation::Deg90 => vec![1, 0, -1, 2, 0, -2, 1, 0, -1],
        Orientation::Deg45 => vec![0, 1, 2, -1, 0, 1, -2, -1, 0],
        Orientation::Deg135 => vec![-2, -1, 0, -1, 0, 1, 0, 1, 2],
    };
    let r = Kernel { width: 3, height: 3, data };
    assert(r@.cells =~= gradient_weights(o));
    r
}

/// Each gradient kernel sums to zero: it responds to no flat region.
pub proof fn lemma_gradient_sums_zero(o: Orientation)
    ensures
        weight_sum(gradient_weights(o)) == 0,
{
    reveal_with_fuel(weight_sum, 10);
    let s = gradient_weights(o);
    assert(s.drop_last().drop_last().drop_last().drop_last().drop_last().drop_last().drop_last(
    ).drop_last().drop_last().len() == 0);
}

/// Four times the squared side length times the squared distance of cell
/// `(x, y)` from the center of a `size` grid: `(2x - size)^2 + (2y - size)^2`.
pub open spec fn ring_sq_dist(size: int, x: int, y: int) -> int {
    (2 * x - size) * (2 * x - size) + (2 * y - size) * (2 * y - size)
}

/// Whether cell `(x, y)` of a `size` ring takes the positive weight. The radii
/// are counted in thousandths of the side length; the cell's distance `d`
/// from the center, in side lengths, is `sqrt(ring_sq_dist) / (2 size)`. The
/// cell is positive when `inner <= d <= outer` or `d < dot`.
pub open spec fn ring_cell_positive(size: int, x: int, y: int, inner: int, outer: int, dot: int) -> bool {
    let q = 1_000_000 * ring_sq_dist(size, x, y);
    let s4 = 4 * size * size;
    (inner * inner * s4 <= q && q <= outer * outer * s4) || q < dot * dot * s4
}

/// The weight of cell `(x, y)` of a ring: +2 inside, -2 outside.
pub open spec fn ring_weight(size: int, x: int, y: int, inner: int, outer: int, dot: int) -> int {
    if ring_cell_positive(size, x, y, inner, outer, dot) {
        2
    } else {
        -2
    }
}

/// The `size` x `size` ring kernel as a grid: cell `(x, y)` at index `x * size + y`.
pub open spec fn ring_grid(size: int, inner: int, outer: int, dot: int) -> Grid {
    Grid {
        width: size,
        height: size,
        cells: Seq::new(
            (size * size) as nat,
            |j: int| ring_weight(size, j / size, j % size, inner, outer, dot),
        ),
    }
}

/// Builds a `size` x `size` ring kernel: +2 where a cell's distance from the
/// center lies in `[inner, outer]` or below `dot`, -2 elsewhere. Radii are in
/// thousandths of the side length. Cell `(x, y)` sits at index `x * size + y`.
pub fn build_ring(size: u32, inner: u32, outer: u32, dot: u32) -> (r: Kernel)
    requires
        1 <= size <= 1024,
    ensures
        r.wf(),
        r.width == size,
        r.height == size,
        r@ == ring_grid(size as int, inner as int, outer as int, dot as int),
        forall|j: int|
            0 <= j < r.data@.len() ==> #[trigger] r.data@[j] == ring_weight(
                size as int,
                j / size as int,
                j % size as int,
                inner as int,
                outer as int,
                dot as int,
            ),
{
    proof {
        lemma_ring_bounds(size as int, inner as int, outer as int, dot as int);
    }
    let n: usize = (size as usize) * (size as usize);
    let s: i128 = size as i128;
    let s4: i128 = 4 * s * s;
    let lo: i128 = (inner as i128) * (inner as i128) * s4;
    let hi: i128 = (outer as i128) * (outer as i128) * s4;
    let core: i128 = (dot as i128) * (dot as i128) * s4;
    let mut data: Vec<i64> = Vec::with_capacity(n);
    let mut j: usize = 0;
    while j < n
        invariant
            1 <= size <= 1024,
            n == size * size,
            s == size,
            s4 == 4 * size * size,
            lo == inner * inner * s4,
            hi == outer * outer * s4,
            core == dot * dot * s4,
            j <= n,
            data@.len() == j,
            forall|i: int| 0 <= i < j ==> -MAX_WEIGHT <= #[trigger] data@[i] <= MAX_WEIGHT,
            forall|i: int|
                0 <= i < j ==> #[trigger] data@[i] == ring_weight(
                    size as int,
                    i / size as int,
                    i % size as int,
                    inner as int,
                    outer as int,
                    dot as int,
                ),
        decreases n - j,
    {
        let x: i128 = (j / (size as usize)) as i128;
        let y: i128 = (j % (size as usize)) as i128;
        proof {
            lemma_cell_in_grid(j as int, size as int);
        }
        let dx: i128 = 2 * x - s;
        let dy: i128 = 2 * y - s;
        let q: i128 = 1_000_000 * (dx * dx + dy * dy);
        let v: i64 = if (lo <= q && q <= hi) || q < core {
            2
        } else {
            -2
        };
        data.push(v);
        j = j + 1;
    }
    let r = Kernel { width: size, height: size, data };
    assert(r@.cells =~= ring_grid(size as int, inner as int, outer as int, dot as int).cells);
    r
}

proof fn lemma_ring_bounds(size: int, inner: int, outer: int, dot: int)
    requires
        1 <= size <= 1024,
        0 <= inner <= u32::MAX,
        0 <= outer <= u32::MAX,
        0 <= dot <= u32::MAX,
    ensures
        0 <= inner * inner <= 0x1_0000_0000_0000_0000,
        0 <= outer * outer <= 0x1_0000_0000_0000_0000,
        0 <= dot * dot <= 0x1_0000_0000_0000_0000,
        size * size <= MAX_TAPS,
        0 <= 4 * size * size <= 4 * MAX_TAPS,
        0 <= inner * inner * (4 * size * size) <= 0x1_0000_0000_0000_0000 * 4 * MAX_TAPS,
        0 <= outer * outer * (4 * size * size) <= 0x1_0000_0000_0000_0000 * 4 * MAX_TAPS,
        0 <= dot * dot * (4 * size * size) <= 0x1_0000_0000_0000_0000 * 4 * MAX_TAPS,
{
    assert(size * size <= MAX_TAPS && 0 <= 4 * size * size <= 4 * MAX_TAPS) by (nonlinear_arith)
        requires
            1 <= size <= 1024,
    ;
    assert(forall|m: int|
        0 <= m <= u32::MAX ==> 0 <= #[trigger] (m * m) <= 0x1_0000_0000_0000_0000) by {
        assert forall|m: int| 0 <= m <= u32::MAX implies 0 <= #[trigger] (m * m)
            <= 0x1_0000_0000_0000_0000 by {
            assert(0 <= m * m <= 0x1_0000_0000_0000_0000) by (nonlinear_arith)
                requires
                    0 <= m <= u32::MAX,
            ;
        }
    }
    lemma_scaled_square(inner * inner, 4 * size * size);
    lemma_scaled_square(outer * outer, 4 * size * size);
    lemma_scaled_square(dot * dot, 4 * size * size);
}

proof fn lemma_scaled_square(a: int, b: int)
    requires
        0 <= a <= 0x1_0000_0000_0000_0000,
        0 <= b <= 4 * MAX_TAPS,
    ensures
        0 <= a * b <= 0x1_0000_0000_0000_0000 * 4 * MAX_TAPS,
{
    assert(0 <= a * b <= 0x1_0000_0000_0000_0000 * 4 * MAX_TAPS) by (nonlinear_arith)
        requires
            0 <= a <= 0x1_0000_0000_0000_0000,
            0 <= b <= 4 * MAX_TAPS,
    ;
}

proof fn lemma_cell_in_grid(j: int, size: int)
    requires
        0 <= j < size * size,
        1 <= size <= 1024,
    ensures
        0 <= j / size < size,
        0 <= j % size < size,
        0 <= (2 * (j / size) - size) * (2 * (j / size) - size) <= 4 * size * size,
        0 <= (2 * (j % size) - size) * (2 * (j % size) - size) <= 4 * size * size,
        4 * size * size <= 4 * MAX_TAPS,
{
    assert(4 * size * size <= 4 * MAX_TAPS) by (nonlinear_arith)
        requires
            1 <= size <= 1024,
    ;
    lemma_mod_bound(j, size);
    lemma_fundamental_div_mod(j, size);
    let a = j / size;
    let b = j % size;
    assert(0 <= a < size) by (nonlinear_arith)
        requires
            j == size * a + b,
            0 <= b < size,
            0 <= j < size * size,
            size >= 1,
    ;
    assert(0 <= (2 * a - size) * (2 * a - size) <= 4 * size * size) by (nonlinear_arith)
        requires
            0 <= a < size,
    ;
    assert(0 <= (2 * b - size) * (2 * b - size) <= 4 * size * size) by (nonlinear_arith)
        requires
            0 <= b < size,
    ;
}

/// The center cell of a grid of even side has distance zero, and so is
/// positive in any ring with a central dot.
pub proof fn lemma_ring_center(size: int, inner: int, outer: int, dot: int)
    requires
        size >= 2,
        size % 2 == 0,
        dot > 0,
    ensures
        ring_sq_dist(size, size / 2, size / 2) == 0,
        ring_weight(size, size / 2, size / 2, inner, outer, dot) == 2,
{
    lemma_fundamental_div_mod(size, 2);
    assert(2 * (size / 2) - size == 0);
    assert(dot * dot * (4 * size * size) > 0) by (nonlinear_arith)
        requires
            dot > 0,
            size >= 2,
    ;
}

/// A ring kernel is unchanged by a half turn about its center: cell `(x, y)`
/// and cell `(size - x, size - y)` carry the same weight.
pub proof fn lemma_ring_half_turn(size: int, x: int, y: int, inner: int, outer: int, dot: int)
    requires
        1 <= x < size,
        1 <= y < size,
    ensures
        ring_weight(size, x, y, inner, outer, dot) == ring_weight(
            size,
            size - x,
            size - y,
            inner,
            outer,
            dot,
        ),
{
    assert((2 * (size - x) - size) * (2 * (size - x) - size) == (2 * x - size) * (2 * x - size))
        by (nonlinear_arith);
    assert((2 * (size - y) - size) * (2 * (size - y) - size) == (2 * y - size) * (2 * y - size))
        by (nonlinear_arith);
}

/// Whether an 8-bit sample lies above 0.3 of full scale.
pub open spec fn above_cut(u: u8) -> bool {
    10 * u > 3 * 255
}

/// The weight that a template sample gives its kernel cell: 3 above 0.3 of
/// full scale, 0 elsewhere.
pub open spec fn template_weight(u: u8) -> int {
    if above_cut(u) {
        3
    } else {
        0
    }
}

/// The kernel that a grayscale reference pattern gives, as a grid.
pub open spec fn template_grid(template: &GrayImage) -> Grid {
    Grid {
        width: template.width as int,
        height: template.height as int,
        cells: template.data@.map_values(|u: u8| template_weight(u)),
    }
}

/// Builds a kernel from a grayscale reference pattern of the same shape.
pub fn template_kernel(template: &GrayImage) -> (r: Kernel)
    requires
        template.wf(),
        template.data@.len() <= MAX_TAPS,
    ensures
        r.wf(),
        r.width == template.width,
        r.height == template.height,
        r@ == template_grid(template),
        forall|i: int|
            0 <= i < r.data@.len() ==> #[trigger] r.data@[i] == template_weight(template.data@[i]),
{
    let mut data: Vec<i64> = Vec::with_capacity(template.data.len());
    let mut i: usize = 0;
    while i < template.data.len()
        invariant
            i <= template.data@.len(),
            data@.len() == i,
            forall|j: int| 0 <= j < i ==> #[trigger] data@[j] == template_weight(template.data@[j]),
        decreases template.data@.len() - i,
    {
        let u = template.data[i];
        let v: i64 = if 10 * (u as i64) > 3 * 255 {
            3
        } else {
            0
        };
        data.push(v);
        i = i + 1;
    }
    let r = Kernel { width: template.width, height: template.height, data };
    assert(r@.cells =~= template_grid(template).cells);
    r
}

} // verus!
