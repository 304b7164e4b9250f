//! The edge detector and the two-pass feature detector.
use crate::codec::{from_unit, sample_of_unit, UNIT};
use crate::codec::clamp_int;
use crate::convolve::{
    convolve, convolved, correlation, grey_to_float, lemma_grid_index, normalized, row_sum, rows_sum,
    tap, Post,
};
use crate::kernel::{
    build_ring, gradient_grid, gradient_kernel, ring_grid, template_grid, template_kernel, Kernel,
    Orientation, MAX_TAPS, MAX_WEIGHT,
};
use crate::raster::{luma, to_grayscale, GrayImage, Grid, RgbImage, UnitImage, MAX_LEVEL};
use vstd::prelude::*;

verus! {

/// The largest of four values.
pub open spec fn max4(a: int, b: int, c: int, d: int) -> int {
    let ab = if a >= b {
        a
    } else {
        b
    };
    let cd = if c >= d {
        c
    } else {
        d
    };
    if ab >= cd {
        ab
    } else {
        cd
    }
}

/// The strongest of the four directional gradient responses at flat index `i`.
pub open spec fn edge_response(g: Grid, i: int) -> int {
    let x = i % g.width;
    let y = i / g.width;
    max4(
        correlation(g, gradient_grid(Orientation::Deg0), x, y),
        correlation(g, gradient_grid(Orientation::Deg90), x, y),
        correlation(g, gradient_grid(Orientation::Deg45), x, y),
        correlation(g, gradient_grid(Orientation::Deg135), x, y),
    )
}

/// The edge map of a normalized image, as 8-bit samples.
pub open spec fn edge_map(g: Grid) -> Seq<u8> {
    Seq::new(g.cells.len(), |i: int| sample_of_unit(edge_response(g, i)))
}

/// The grayscale model of an RGB image: the sRGB luma of each pixel.
pub open spec fn luma_grid(image: &RgbImage) -> Grid {
    Grid {
        width: image.width as int,
        height: image.height as int,
        cells: Seq::new(
            (image.width * image.height) as nat,
            |i: int| luma(image.data@[3 * i], image.data@[3 * i + 1], image.data@[3 * i + 2]),
        ),
    }
}

/// Detects edges in a grayscale image: per pixel, the largest of the four
/// directional gradient responses, capped to the sample range.
pub fn detect_edges(image: &GrayImage) -> (r: GrayImage)
    requires
        image.wf(),
    ensures
        r.wf(),
        r.width == image.width,
        r.height == image.height,
        r.data@ == edge_map(image@),
{
    let f = grey_to_float(image, Post::Identity);
    assert(f@.cells =~= image@.cells);
    assert(f@ == image@);
    let k0 = gradient_kernel(Orientation::Deg0);
    let k90 = gradient_kernel(Orientation::Deg90);
    let k45 = gradient_kernel(Orientation::Deg45);
    let k135 = gradient_kernel(Orientation::Deg135);
    let r0 = convolve(&f, &k0, Post::Identity);
    let r90 = convolve(&f, &k90, Post::Identity);
    let r45 = convolve(&f, &k45, Post::Identity);
    let r135 = convolve(&f, &k135, Post::Identity);
    let n = f.data.len();
    let mut data: Vec<u8> = Vec::with_capacity(n);
    let mut i: usize = 0;
    while i < n
        invariant
            n == image.data@.len(),
            n == r0.data@.len(),
            n == r90.data@.len(),
            n == r45.data@.len(),
            n == r135.data@.len(),
            r0@.cells == convolved(image@, gradient_grid(Orientation::Deg0), Post::Identity),
            r90@.cells == convolved(image@, gradient_grid(Orientation::Deg90), Post::Identity),
            r45@.cells == convolved(image@, gradient_grid(Orientation::Deg45), Post::Identity),
            r135@.cells == convolved(image@, gradient_grid(Orientation::Deg135), Post::Identity),
            i <= n,
            data@.len() == i,
            forall|j: int| 0 <= j < i ==> #[trigger] data@[j] == edge_map(image@)[j],
        decreases n - i,
    {
        let a = r0.data[i];
        let b = r90.data[i];
        let c = r45.data[i];
        let d = r135.data[i];
        assert(a == r0@.cells[i as int]);
        assert(b == r90@.cells[i as int]);
        assert(c == r45@.cells[i as int]);
        assert(d == r135@.cells[i as int]);
        let ab = if a >= b {
            a
        } else {
            b
        };
        let cd = if c >= d {
            c
        } else {
            d
        };
        let m = if ab >= cd {
            ab
        } else {
            cd
        };
        data.push(from_unit(m));
        i = i + 1;
    }
    let r = GrayImage { width: image.width, height: image.height, data };
    assert(r.data@ =~= edge_map(image@));
    r
}

/// Detects edges in an RGB image, through its grayscale luma.
pub fn edges(image: &RgbImage) -> (r: GrayImage)
    requires
        image.wf(),
    ensures
        r.wf(),
        r.width == image.width,
        r.height == image.height,
        r.data@ == edge_map(luma_grid(image)),
{
    let g = to_grayscale(image);
    assert(g@.cells =~= luma_grid(image).cells);
    detect_edges(&g)
}

/// Side length of the disk kernel that smooths the coarse match.
pub const SMOOTH_SIZE: u32 = 64;

/// Radius of that disk, in thousandths of its side length.
pub const SMOOTH_DOT: u32 = 40;

/// The outcome of the feature detector and its two confidence maps.
#[derive(Clone, Debug)]
pub struct Detection {
    /// Whether the feature was found.
    pub found: bool,
    /// The binary coarse match: 1.0 where the template matched.
    pub coarse: UnitImage,
    /// The coarse match smoothed by the disk kernel.
    pub smooth: UnitImage,
}

/// The input conditioning: 1.0 where a sample lies above 0.3, else 0.0.
pub open spec fn input_cut() -> Post {
    Post::Threshold { num: 3, den: 10 }
}

/// The coarse-match threshold for a template of `n` cells: `n / 6`.
pub open spec fn match_cut(n: int) -> Post {
    Post::Threshold { num: n as i64, den: 6 }
}

/// The sum of the positive entries of `s`.
pub open spec fn positive_mass(s: Seq<int>) -> int
    decreases s.len(),
{
    if s.len() == 0 {
        0
    } else {
        positive_mass(s.drop_last()) + if s.last() > 0 {
            s.last()
        } else {
            0
        }
    }
}

/// The coarse-match map of the normalized image `g` against `template`.
pub open spec fn coarse_cells(g: Grid, template: Grid) -> Seq<int> {
    convolved(
        Grid { width: g.width, height: g.height, cells: normalized(g, input_cut()) },
        template,
        match_cut(template.cells.len() as int),
    )
}

/// The smoothing disk kernel.
pub open spec fn smoothing_disk() -> Grid {
    ring_grid(SMOOTH_SIZE as int, 0, 0, SMOOTH_DOT as int)
}

/// The smoothed confidence map of the normalized image `g` against `template`.
pub open spec fn smooth_cells(g: Grid, template: Grid) -> Seq<int> {
    convolved(
        Grid { width: g.width, height: g.height, cells: coarse_cells(g, template) },
        smoothing_disk(),
        Post::Identity,
    )
}

/// The decision rule: some smoothed value exceeds half the positive weight
/// mass of the disk, that is, more than half of the disk's positive area
/// matched around that pixel.
pub open spec fn decide(smooth: Seq<int>, mass: int) -> bool {
    exists|i: int| 0 <= i < smooth.len() && 2 * smooth[i] > UNIT * mass
}

/// The sum of a kernel's positive weights.
pub fn positive_weight(k: &Kernel) -> (r: i64)
    requires
        k.wf(),
    ensures
        r == positive_mass(k@.cells),
        0 <= r <= MAX_TAPS * MAX_WEIGHT,
{
    let mut acc: i64 = 0;
    let mut i: usize = 0;
    while i < k.data.len()
        invariant
            k.wf(),
            i <= k.data@.len(),
            acc == positive_mass(k@.cells.take(i as int)),
            0 <= acc <= i * MAX_WEIGHT,
        decreases k.data@.len() - i,
    {
        let w = k.data[i];
        assert(k@.cells.take(i + 1).drop_last() =~= k@.cells.take(i as int));
        if w > 0 {
            acc = acc + w;
        }
        i = i + 1;
    }
    assert(k@.cells.take(i as int) =~= k@.cells);
    acc
}

/// Runs the two-pass detector on a grayscale image with a template kernel,
/// built by `template_kernel` from a reference pattern or by `build_ring`.
///
/// Pass one thresholds the image at 0.3, correlates it with `template` and
/// keeps 1.0 where the sum exceeds a sixth of the template's cell count. Pass
/// two smooths that binary map with a disk of radius 0.04 on a 64 x 64 grid.
/// The feature is found where some smoothed value exceeds half the disk's
/// positive weight mass.
pub fn detect_eyes(image: &GrayImage, template: &Kernel) -> (r: Detection)
    requires
        image.wf(),
        template.wf(),
    ensures
        r.coarse.wf(),
        r.smooth.wf(),
        r.coarse.width == image.width && r.coarse.height == image.height,
        r.smooth.width == image.width && r.smooth.height == image.height,
        r.coarse@.cells == coarse_cells(image@, template@),
        r.smooth@.cells == smooth_cells(image@, template@),
        r.found == decide(r.smooth@.cells, positive_mass(smoothing_disk().cells)),
{
    let binary = grey_to_float(image, Post::Threshold { num: 3, den: 10 });
    let cut = Post::Threshold { num: template.data.len() as i64, den: 6 };
    let coarse = convolve(&binary, template, cut);
    assert forall|i: int| 0 <= i < coarse.data@.len() implies -MAX_LEVEL <= #[trigger] coarse.data@[i]
        <= MAX_LEVEL by {
        assert(coarse.data@[i] as int == coarse@.cells[i]);
    }
    let disk = build_ring(SMOOTH_SIZE, 0, 0, SMOOTH_DOT);
    let smooth = convolve(&coarse, &disk, Post::Identity);
    let mass = positive_weight(&disk);
    let n = smooth.data.len();
    let limit: i128 = (UNIT as i128) * (mass as i128);
    let mut found = false;
    let mut i: usize = 0;
    while i < n
        invariant
            n == smooth.data@.len(),
            limit == UNIT * mass,
            i <= n,
            found == exists|j: int| 0 <= j < i && 2 * smooth@.cells[j] > limit,
        decreases n - i,
    {
        let v = smooth.data[i];
        assert(v == smooth@.cells[i as int]);
        if 2 * (v as i128) > limit {
            found = true;
        }
        i = i + 1;
    }
    Detection { found, coarse, smooth }
}

/// Side length of the procedural ring used when no reference pattern is given.
pub const RING_SIZE: u32 = 32;

/// Inner radius of that ring, in thousandths of its side length.
pub const RING_INNER: u32 = 300;

/// Outer radius of that ring, in thousandths of its side length.
pub const RING_OUTER: u32 = 400;

/// Radius of that ring's central dot, in thousandths of its side length.
pub const RING_DOT: u32 = 50;

/// The template that `detect_feature` matches against.
pub open spec fn feature_template(template: Option<&GrayImage>) -> Grid {
    match template {
        Some(t) => template_grid(t),
        None => ring_grid(RING_SIZE as int, RING_INNER as int, RING_OUTER as int, RING_DOT as int),
    }
}

/// Runs the two-pass detector against a reference pattern, or, when none is
/// given, against a procedural ring with a central dot.
pub fn detect_feature(image: &GrayImage, template: Option<&GrayImage>) -> (r: Detection)
    requires
        image.wf(),
        template matches Some(t) ==> t.wf() && t.data@.len() <= MAX_TAPS,
    ensures
        r.coarse.wf(),
        r.smooth.wf(),
        r.coarse.width == image.width && r.coarse.height == image.height,
        r.smooth.width == image.width && r.smooth.height == image.height,
        r.coarse@.cells == coarse_cells(image@, feature_template(template)),
        r.smooth@.cells == smooth_cells(image@, feature_template(template)),
        r.found == decide(r.smooth@.cells, positive_mass(smoothing_disk().cells)),
{
    let kernel = match template {
        Some(t) => template_kernel(t),
        None => build_ring(RING_SIZE, RING_INNER, RING_OUTER, RING_DOT),
    };
    detect_eyes(image, &kernel)
}

/// Every sample of `g` equals `c`.
pub open spec fn is_flat(g: Grid, c: int) -> bool {
    forall|i: int| 0 <= i < g.cells.len() ==> #[trigger] g.cells[i] == c
}

proof fn lemma_flat_tap(g: Grid, c: int, x: int, y: int)
    requires
        g.width >= 1,
        g.height >= 1,
        g.cells.len() == g.width * g.height,
        is_flat(g, c),
    ensures
        tap(g, x, y) == c,
{
    lemma_grid_index(
        clamp_int(y, 0, g.height - 1),
        clamp_int(x, 0, g.width - 1),
        g.width,
        g.height,
    );
}

proof fn lemma_flat_gradient(g: Grid, c: int, o: Orientation, x: int, y: int)
    requires
        g.width >= 1,
        g.height >= 1,
        g.cells.len() == g.width * g.height,
        is_flat(g, c),
    ensures
        correlation(g, gradient_grid(o), x, y) == 0,
{
    let k = gradient_grid(o);
    assert(k.cells[0] + k.cells[1] + k.cells[2] + k.cells[3] + k.cells[4] + k.cells[5]
        + k.cells[6] + k.cells[7] + k.cells[8] == 0) by {
        match o {
            Orientation::Deg0 => {},
            Orientation::Deg90 => {},
            Orientation::Deg45 => {},
            Orientation::Deg135 => {},
        }
    }
    assert forall|a: int, b: int| #[trigger] tap(g, a, b) == c by {
        lemma_flat_tap(g, c, a, b);
    }
    reveal_with_fuel(row_sum, 4);
    reveal_with_fuel(rows_sum, 4);
    assert(correlation(g, k, x, y) == c * (k.cells[0] + k.cells[1] + k.cells[2] + k.cells[3]
        + k.cells[4] + k.cells[5] + k.cells[6] + k.cells[7] + k.cells[8])) by (nonlinear_arith)
        requires
            correlation(g, k, x, y) == k.cells[0] * c + k.cells[1] * c + k.cells[2] * c
                + k.cells[3] * c + k.cells[4] * c + k.cells[5] * c + k.cells[6] * c + k.cells[7]
                * c + k.cells[8] * c,
    ;
}

/// A flat image has no edges: every gradient kernel sums to zero, so each
/// directional response, and the edge map, is zero everywhere.
pub proof fn lemma_flat_image_has_no_edges(g: Grid, c: int)
    requires
        g.width >= 1,
        g.height >= 1,
        g.cells.len() == g.width * g.height,
        is_flat(g, c),
    ensures
        forall|i: int| 0 <= i < g.cells.len() ==> #[trigger] edge_map(g)[i] == 0,
{
    assert forall|i: int| 0 <= i < g.cells.len() implies #[trigger] edge_map(g)[i] == 0 by {
        let x = i % g.width;
        let y = i / g.width;
        lemma_flat_gradient(g, c, Orientation::Deg0, x, y);
        lemma_flat_gradient(g, c, Orientation::Deg90, x, y);
        lemma_flat_gradient(g, c, Orientation::Deg45, x, y);
        lemma_flat_gradient(g, c, Orientation::Deg135, x, y);
    }
}

/// The edge map is a function of the image alone: any two results that meet
/// the contract of `detect_edges` for one image are identical.
pub proof fn lemma_edges_repeatable(image: GrayImage, r1: GrayImage, r2: GrayImage)
    requires
        image.wf(),
        r1.width == image.width && r1.height == image.height,
        r2.width == image.width && r2.height == image.height,
        r1.data@ == edge_map(image@),
        r2.data@ == edge_map(image@),
    ensures
        r1.width == r2.width,
        r1.height == r2.height,
        r1.data@ == r2.data@,
{
}

} // verus!
