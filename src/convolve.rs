//! Dense correlation of a normalized image with a kernel.
//!
//! Taps that fall outside the image read the nearest edge pixel (replicated
//! border). The kernel's cell `(kx, ky)` weighs the pixel at
//! `(x + kx - width / 2, y + ky - height / 2)`, so the kernel is not flipped.
use crate::codec::{clamp_int, to_unit, UNIT};
use crate::kernel::{Kernel, MAX_TAPS, MAX_WEIGHT};
use crate::raster::{GrayImage, Grid, UnitImage, MAX_LEVEL};
use vstd::arithmetic::div_mod::{lemma_fundamental_div_mod, lemma_mod_bound};
use vstd::prelude::*;

verus! {

/// What is emitted for a pixel, given its weighted sum.
#[derive(Clone, Copy, Debug, PartialEq, Eq, Structural)]
pub enum Post {
    /// The weighted sum itself.
    Identity,
    /// The weighted sum limited to `[0.0, 1.0]`.
    Clamp,
    /// 1.0 where the weighted sum exceeds `num / den`, else 0.0.
    Threshold { num: i64, den: i64 },
}

impl Post {
    pub open spec fn wf(&self) -> bool {
        match *self {
            Post::Threshold { num: _, den } => den > 0,
            _ => true,
        }
    }
}

/// The value emitted for the weighted sum `acc / 255`, counted in 255ths.
pub open spec fn post_value(p: Post, acc: int) -> int {
    match p {
        Post::Identity => acc,
        Post::Clamp => clamp_int(acc, 0, UNIT as int),
        Post::Threshold { num, den } => if acc * den > UNIT * num {
            UNIT as int
        } else {
            0
        },
    }
}

/// Applies a post-processing rule to one weighted sum.
pub fn apply_post(p: Post, acc: i64) -> (r: i64)
    requires
        p.wf(),
    ensures
        r == post_value(p, acc as int),
{
    match p {
        Post::Identity => acc,
        Post::Clamp => if acc < 0 {
            0
        } else if acc > UNIT {
            UNIT
        } else {
            acc
        },
        Post::Threshold { num, den } => {
            proof {
                lemma_threshold_fits(acc as int, den as int, num as int);
            }
            if (acc as i128) * (den as i128) > (UNIT as i128) * (num as i128) {
                UNIT
            } else {
                0
            }
        },
    }
}

/// The normalized samples of `g`, each passed through `p`.
pub open spec fn normalized(g: Grid, p: Post) -> Seq<int> {
    g.cells.map_values(|c: int| post_value(p, c))
}

/// Normalizes each sample of a grayscale image and passes it through `p`.
pub fn grey_to_float(g: &GrayImage, p: Post) -> (r: UnitImage)
    requires
        g.wf(),
        p.wf(),
    ensures
        r.wf(),
        r.bounded(),
        r.width == g.width,
        r.height == g.height,
        r@.cells == normalized(g@, p),
{
    let mut data: Vec<i64> = Vec::with_capacity(g.data.len());
    let mut i: usize = 0;
    while i < g.data.len()
        invariant
            p.wf(),
            i <= g.data@.len(),
            data@.len() == i,
            forall|j: int| 0 <= j < i ==> #[trigger] data@[j] == normalized(g@, p)[j],
            forall|j: int| 0 <= j < i ==> 0 <= #[trigger] data@[j] <= UNIT,
        decreases g.data@.len() - i,
    {
        let v = apply_post(p, to_unit(g.data[i]));
        data.push(v);
        i = i + 1;
    }
    let r = UnitImage { width: g.width, height: g.height, data };
    assert(r@.cells =~= normalized(g@, p));
    r
}

/// The sample read for the possibly outside position `(x, y)`: that of the
/// nearest pixel.
pub open spec fn tap(img: Grid, x: int, y: int) -> int {
    img.cells[clamp_int(y, 0, img.height - 1) * img.width + clamp_int(x, 0, img.width - 1)]
}

/// The weighted sum over the first `n` cells of kernel row `ky`, for the
/// output pixel `(x, y)`.
pub open spec fn row_sum(img: Grid, k: Grid, x: int, y: int, ky: int, n: int) -> int
    decreases n,
{
    if n <= 0 {
        0
    } else {
        row_sum(img, k, x, y, ky, n - 1) + k.cells[ky * k.width + (n - 1)] * tap(
            img,
            x + (n - 1) - k.width / 2,
            y + ky - k.height / 2,
        )
    }
}

/// The weighted sum over the first `m` kernel rows, for the output pixel `(x, y)`.
pub open spec fn rows_sum(img: Grid, k: Grid, x: int, y: int, m: int) -> int
    decreases m,
{
    if m <= 0 {
        0
    } else {
        rows_sum(img, k, x, y, m - 1) + row_sum(img, k, x, y, m - 1, k.width)
    }
}

/// The full weighted sum of the kernel placed on the output pixel `(x, y)`.
pub open spec fn correlation(img: Grid, k: Grid, x: int, y: int) -> int {
    rows_sum(img, k, x, y, k.height)
}

/// What `convolve` emits at the flat index `i`.
pub open spec fn convolved_at(img: Grid, k: Grid, p: Post, i: int) -> int {
    post_value(p, correlation(img, k, i % img.width, i / img.width))
}

/// The cells of `img` correlated with `k` and passed through `p`.
pub open spec fn convolved(img: Grid, k: Grid, p: Post) -> Seq<int> {
    Seq::new(img.cells.len(), |i: int| convolved_at(img, k, p, i))
}

proof fn lemma_threshold_fits(acc: int, den: int, num: int)
    requires
        i64::MIN <= acc <= i64::MAX,
        0 < den <= i64::MAX,
        i64::MIN <= num <= i64::MAX,
    ensures
        i128::MIN <= acc * den <= i128::MAX,
        i128::MIN <= UNIT * num <= i128::MAX,
{
    assert(i128::MIN <= acc * den <= i128::MAX) by (nonlinear_arith)
        requires
            i64::MIN <= acc <= i64::MAX,
            0 < den <= i64::MAX,
    ;
}

pub(crate) proof fn lemma_grid_index(a: int, b: int, w: int, h: int)
    requires
        0 <= a < h,
        0 <= b < w,
    ensures
        0 <= a * w <= a * w + b < w * h,
{
    assert(0 <= a * w <= a * w + b < w * h) by (nonlinear_arith)
        requires
            0 <= a < h,
            0 <= b < w,
    ;
}

proof fn lemma_split_index(i: int, w: int, h: int)
    requires
        0 <= i < w * h,
        w >= 1,
    ensures
        0 <= i % w < w,
        0 <= i / w < h,
{
    lemma_mod_bound(i, w);
    lemma_fundamental_div_mod(i, w);
    let q = i / w;
    assert(0 <= q < h) by (nonlinear_arith)
        requires
            i == w * q + i % w,
            0 <= i % w < w,
            0 <= i < w * h,
            w >= 1,
    ;
}

proof fn lemma_product_bound(a: int, b: int)
    requires
        -MAX_WEIGHT <= a <= MAX_WEIGHT,
        -MAX_LEVEL <= b <= MAX_LEVEL,
    ensures
        -MAX_WEIGHT * MAX_LEVEL <= a * b <= MAX_WEIGHT * MAX_LEVEL,
{
    assert(-MAX_WEIGHT * MAX_LEVEL <= a * b <= MAX_WEIGHT * MAX_LEVEL) by (nonlinear_arith)
        requires
            -MAX_WEIGHT <= a <= MAX_WEIGHT,
            -MAX_LEVEL <= b <= MAX_LEVEL,
    ;
}

proof fn lemma_tap_count(ky: int, kx: int, kw: int, kh: int)
    requires
        0 <= ky < kh,
        0 <= kx < kw,
        kw * kh <= MAX_TAPS,
    ensures
        ky * kw + kx + 1 <= MAX_TAPS,
        0 <= ky * kw + kx < kw * kh,
{
    assert(0 <= ky * kw + kx < kw * kh && kw * kh <= MAX_TAPS) by (nonlinear_arith)
        requires
            0 <= ky < kh,
            0 <= kx < kw,
            kw * kh <= MAX_TAPS,
    ;
}

proof fn lemma_bound_mul(n: int)
    requires
        0 <= n <= MAX_TAPS,
    ensures
        0 <= n * (MAX_WEIGHT * MAX_LEVEL) <= MAX_TAPS * (MAX_WEIGHT * MAX_LEVEL),
        n >= 1 ==> (n - 1) * (MAX_WEIGHT * MAX_LEVEL) + MAX_WEIGHT * MAX_LEVEL == n * (MAX_WEIGHT
            * MAX_LEVEL),
        MAX_TAPS * (MAX_WEIGHT * MAX_LEVEL) == 0x4000_0000_0000_0000,
{
    assert(0 <= n * (MAX_WEIGHT * MAX_LEVEL) <= MAX_TAPS * (MAX_WEIGHT * MAX_LEVEL))
        by (nonlinear_arith)
        requires
            0 <= n <= MAX_TAPS,
    ;
    assert(n >= 1 ==> (n - 1) * (MAX_WEIGHT * MAX_LEVEL) + MAX_WEIGHT * MAX_LEVEL == n * (
    MAX_WEIGHT * MAX_LEVEL)) by (nonlinear_arith);
}

/// Correlates `img` with `k`, emitting `p` of each pixel's weighted sum.
/// The result has the dimensions of `img`.
pub fn convolve(img: &UnitImage, k: &Kernel, p: Post) -> (r: UnitImage)
    requires
        img.wf(),
        img.bounded(),
        k.wf(),
        p.wf(),
    ensures
        r.wf(),
        r.width == img.width,
        r.height == img.height,
        r@.cells == convolved(img@, k@, p),
{
    let w = img.width;
    let h = img.height;
    let kw = k.width;
    let kh = k.height;
    let n = img.data.len();
    let bound: Ghost<int> = Ghost(MAX_WEIGHT * MAX_LEVEL);
    let mut out: Vec<i64> = Vec::with_capacity(n);
    let mut i: usize = 0;
    while i < n
        invariant
            img.wf(),
            img.bounded(),
            k.wf(),
            p.wf(),
            w == img.width,
            h == img.height,
            kw == k.width,
            kh == k.height,
            n == img.data@.len(),
            bound@ == MAX_WEIGHT * MAX_LEVEL,
            i <= n,
            out@.len() == i,
            forall|j: int| 0 <= j < i ==> #[trigger] out@[j] == convolved_at(img@, k@, p, j),
        decreases n - i,
    {
        proof {
            lemma_split_index(i as int, w as int, h as int);
        }
        let x: i64 = (i % (w as usize)) as i64;
        let y: i64 = (i / (w as usize)) as i64;
        let mut acc: i64 = 0;
        let mut ky: u32 = 0;
        while ky < kh
            invariant
                img.wf(),
                img.bounded(),
                k.wf(),
                w == img.width,
                h == img.height,
                kw == k.width,
                kh == k.height,
                n == img.data@.len(),
                bound@ == MAX_WEIGHT * MAX_LEVEL,
                0 <= x < w,
                0 <= y < h,
                ky <= kh,
                acc == rows_sum(img@, k@, x as int, y as int, ky as int),
                -((ky * kw) * bound@) <= acc <= (ky * kw) * bound@,
            decreases kh - ky,
        {
            let mut kx: u32 = 0;
            let sy: i64 = y + (ky as i64) - (kh / 2) as i64;
            let cy: i64 = if sy < 0 {
                0
            } else if sy > (h - 1) as i64 {
                (h - 1) as i64
            } else {
                sy
            };
            while kx < kw
                invariant
                    img.wf(),
                    img.bounded(),
                    k.wf(),
                    w == img.width,
                    h == img.height,
                    kw == k.width,
                    kh == k.height,
                    n == img.data@.len(),
                    bound@ == MAX_WEIGHT * MAX_LEVEL,
                    0 <= x < w,
                    0 <= y < h,
                    ky < kh,
                    kx <= kw,
                    sy == y + ky - kh / 2,
                    cy == clamp_int(sy as int, 0, h - 1),
                    acc == rows_sum(img@, k@, x as int, y as int, ky as int) + row_sum(
                        img@,
                        k@,
                        x as int,
                        y as int,
                        ky as int,
                        kx as int,
                    ),
                    -((ky * kw + kx) * bound@) <= acc <= (ky * kw + kx) * bound@,
                decreases kw - kx,
            {
                let sx: i64 = x + (kx as i64) - (kw / 2) as i64;
                let cx: i64 = if sx < 0 {
                    0
                } else if sx > (w - 1) as i64 {
                    (w - 1) as i64
                } else {
                    sx
                };
                proof {
                    lemma_grid_index(cy as int, cx as int, w as int, h as int);
                    lemma_tap_count(ky as int, kx as int, kw as int, kh as int);
                    lemma_bound_mul(ky * kw + kx + 1);
                }
                let idx: usize = (cy as usize) * (w as usize) + (cx as usize);
                let kidx: usize = (ky as usize) * (kw as usize) + (kx as usize);
                let wt: i64 = k.data[kidx];
                let v: i64 = img.data[idx];
                proof {
                    lemma_product_bound(wt as int, v as int);
                    let t: int = ky * kw + kx;
                    assert(t * bound@ + bound@ == (t + 1) * bound@);
                    assert((t + 1) * bound@ <= 0x4000_0000_0000_0000);
                    assert(-((t + 1) * bound@) <= acc + wt * v <= (t + 1) * bound@);
                }
                assert(idx as int == cy * w + cx);
                assert(v as int == tap(img@, x + kx - kw / 2, y + ky - kh / 2));
                acc = acc + wt * v;
                kx = kx + 1;
            }
            proof {
                assert((ky * kw + kw) == (ky + 1) * kw) by (nonlinear_arith);
            }
            ky = ky + 1;
        }
        let e = apply_post(p, acc);
        out.push(e);
        i = i + 1;
    }
    let r = UnitImage { width: w, height: h, data: out };
    assert(r@.cells =~= convolved(img@, k@, p));
    r
}

} // verus!
