use crate::bigrect::{FloatRect, RectModel};
use crate::escape::{escape_count, escape_time};
use crate::rational::{rat_add, rat_div, rat_from_int, rat_mul, rat_ok, rat_sub, rat_value};
use vstd::arithmetic::div_mod::lemma_fundamental_div_mod_converse;
use vstd::prelude::*;

verus! {

/// The iteration cap of a frame: one byte of escape time.
pub const MAX_ITER: u32 = 255;

/// Why a frame could not be rendered.
#[derive(Debug, Clone, Copy, PartialEq, Eq, Structural)]
pub enum RenderError {
    /// The surface has no pixels: a width or a height of zero.
    EmptySurface,
    /// The viewport's width or height is not positive.
    DegenerateViewport,
}

/// The point that pixel `(x, y)` samples: columns step right from `left`,
/// rows step down from `top`, by the viewport's extent over the pixel count.
pub open spec fn sample(v: RectModel, w: nat, h: nat, x: nat, y: nat) -> (real, real) {
    (v.left + x as real * (v.width / w as real), v.top - y as real * (v.height / h as real))
}

/// The escape time of the pixel at row-major index `p` of a `w`-wide surface.
pub open spec fn pixel_count(v: RectModel, w: nat, h: nat, p: nat, max: nat) -> nat {
    escape_count(sample(v, w, h, p % w, p / w), max)
}

/// Byte `k` (R, G, B, A) of the pixel of escape time `count`: black for an
/// interior point, else the palette's entry for `count`; alpha is opaque.
pub open spec fn channel(count: nat, max: nat, palette: Seq<u8>, k: nat) -> u8 {
    if k == 3 {
        255
    } else if count >= max {
        0
    } else {
        palette[(3 * count + k) as int]
    }
}

/// The RGBA bytes of a whole `w` by `h` frame over `v`.
pub open spec fn frame_bytes(v: RectModel, w: nat, h: nat, palette: Seq<u8>) -> Seq<u8> {
    Seq::new(
        4 * w * h,
        |i: int|
            channel(
                pixel_count(v, w, h, (i / 4) as nat, MAX_ITER as nat),
                MAX_ITER as nat,
                palette,
                (i % 4) as nat,
            ),
    )
}

/// Whether palette entry `j` is black.
pub open spec fn black_entry(palette: Seq<u8>, j: int) -> bool {
    palette[3 * j] == 0 && palette[3 * j + 1] == 0 && palette[3 * j + 2] == 0
}

/// Whether the pixel of escape time `count` is opaque black.
pub open spec fn black_pixel(count: nat, max: nat, palette: Seq<u8>) -> bool {
    channel(count, max, palette, 0) == 0 && channel(count, max, palette, 1) == 0 && channel(
        count,
        max,
        palette,
        2,
    ) == 0 && channel(count, max, palette, 3) == 255
}

/// A frame depends on the viewport's value alone: two viewports of equal
/// value give the same bytes.
pub proof fn lemma_frame_deterministic(
    v1: FloatRect,
    v2: FloatRect,
    w: nat,
    h: nat,
    palette: Seq<u8>,
)
    requires
        v1@ == v2@,
    ensures
        frame_bytes(v1@, w, h, palette) == frame_bytes(v2@, w, h, palette),
{
}

/// Under a palette with no black entry, a pixel is opaque black exactly
/// when its point is interior (its escape time is the cap).
pub proof fn lemma_black_iff_interior(count: nat, max: nat, palette: Seq<u8>)
    requires
        count <= max,
        palette.len() == 3 * max,
        forall|j: int| 0 <= j < max ==> !#[trigger] black_entry(palette, j),
    ensures
        black_pixel(count, max, palette) <==> count == max,
{
    if count < max {
        assert(!black_entry(palette, count as int));
    }
}

/// The escape time of every pixel of a `w` by `h` surface over `view`,
/// row-major, top row first.
pub fn escape_counts(w: u32, h: u32, view: &FloatRect, max_iter: u32) -> (r: Vec<u32>)
    requires
        w > 0,
        h > 0,
        w * h <= usize::MAX,
        view.fields_ok(),
    ensures
        r@.len() == w * h,
        forall|p: int|
            0 <= p < r@.len() ==> #[trigger] r@[p] as nat == pixel_count(
                view@,
                w as nat,
                h as nat,
                p as nat,
                max_iter as nat,
            ),
{
    let width_step = rat_div(&view.width, &rat_from_int(w as i64));
    let height_step = rat_div(&view.height, &rat_from_int(h as i64));
    let mut r: Vec<u32> = Vec::new();
    let mut y: u32 = 0;
    while y < h
        invariant
            y <= h,
            w > 0,
            w * h <= usize::MAX,
            r@.len() == y * w,
            rat_value(width_step) == view@.width / w as real,
            rat_value(height_step) == view@.height / h as real,
            rat_ok(width_step),
            rat_ok(height_step),
            view.fields_ok(),
            forall|p: int|
                0 <= p < r@.len() ==> #[trigger] r@[p] as nat == pixel_count(
                    view@,
                    w as nat,
                    h as nat,
                    p as nat,
                    max_iter as nat,
                ),
        decreases h - y,
    {
        let b = rat_sub(&view.top, &rat_mul(&rat_from_int(y as i64), &height_step));
        let mut x: u32 = 0;
        while x < w
            invariant
                y < h,
                x <= w,
                w > 0,
                w * h <= usize::MAX,
                r@.len() == y * w + x,
                rat_value(width_step) == view@.width / w as real,
                rat_ok(width_step),
                rat_ok(b),
                view.fields_ok(),
                rat_value(b) == view@.top - y as real * (view@.height / h as real),
                forall|p: int|
                    0 <= p < r@.len() ==> #[trigger] r@[p] as nat == pixel_count(
                        view@,
                        w as nat,
                        h as nat,
                        p as nat,
                        max_iter as nat,
                    ),
            decreases w - x,
        {
            let a = rat_add(&view.left, &rat_mul(&rat_from_int(x as i64), &width_step));
            let e = escape_time(&a, &b, max_iter);
            proof {
                let p = y * w + x;
                lemma_fundamental_div_mod_converse(p as int, w as int, y as int, x as int);
                assert(p < w * h) by (nonlinear_arith)
                    requires
                        x < w,
                        y < h,
                        p == y * w + x,
                ;
            }
            r.push(e.iterations);
            x = x + 1;
        }
        assert((y + 1) * w == y * w + w) by (nonlinear_arith);
        y = y + 1;
    }
    assert(r@.len() == w * h) by (nonlinear_arith)
        requires
            r@.len() == y * w,
            y == h,
    ;
    r
}

/// RGBA bytes for each escape time in `counts`, four per pixel in order.
pub fn colorize(counts: &Vec<u32>, max_iter: u32, palette: &Vec<u8>) -> (r: Vec<u8>)
    requires
        palette@.len() == 3 * max_iter,
        4 * counts@.len() <= usize::MAX,
    ensures
        r@.len() == 4 * counts@.len(),
        forall|i: int|
            0 <= i < r@.len() ==> #[trigger] r@[i] == channel(
                counts@[i / 4] as nat,
                max_iter as nat,
                palette@,
                (i % 4) as nat,
            ),
        forall|q: int|
            0 <= q < counts@.len() && counts@[q] >= max_iter ==> r@[4 * q] == 0 && r@[4 * q + 1]
                == 0 && r@[4 * q + 2] == 0 && r@[4 * q + 3] == 255,
{
    let palette_len = palette.len();
    let mut r: Vec<u8> = Vec::new();
    let mut q: usize = 0;
    while q < counts.len()
        invariant
            q <= counts@.len(),
            4 * counts@.len() <= usize::MAX,
            palette@.len() == 3 * max_iter,
            palette@.len() == palette_len,
            r@.len() == 4 * q,
            forall|i: int|
                0 <= i < r@.len() ==> #[trigger] r@[i] == channel(
                    counts@[i / 4] as nat,
                    max_iter as nat,
                    palette@,
                    (i % 4) as nat,
                ),
        decreases counts@.len() - q,
    {
        let count = counts[q];
        if count >= max_iter {
            r.push(0);
            r.push(0);
            r.push(0);
        } else {
            let base: usize = 3 * (count as usize);
            r.push(palette[base]);
            r.push(palette[base + 1]);
            r.push(palette[base + 2]);
        }
        r.push(255);
        q = q + 1;
    }
    assert forall|q: int| 0 <= q < counts@.len() && counts@[q] >= max_iter implies r@[4 * q] == 0
        && r@[4 * q + 1] == 0 && r@[4 * q + 2] == 0 && r@[4 * q + 3] == 255 by {
        assert(r@[4 * q] == channel(counts@[q] as nat, max_iter as nat, palette@, 0));
        assert(r@[4 * q + 1] == channel(counts@[q] as nat, max_iter as nat, palette@, 1));
        assert(r@[4 * q + 2] == channel(counts@[q] as nat, max_iter as nat, palette@, 2));
        assert(r@[4 * q + 3] == channel(counts@[q] as nat, max_iter as nat, palette@, 3));
    }
    r
}

/// The RGBA buffer of a `w` by `h` surface over `view`: four bytes per pixel,
/// row-major, top row first, coloured by escape time under `MAX_ITER`
/// (`palette` holds R, G, B for each escape time below the cap).
pub fn render_frame(w: u32, h: u32, view: &FloatRect, palette: &Vec<u8>) -> (r: Result<
    Vec<u8>,
    RenderError,
>)
    requires
        palette@.len() == 3 * MAX_ITER,
        4 * w * h <= usize::MAX,
    ensures
        r == Err::<Vec<u8>, RenderError>(RenderError::EmptySurface) <==> (w == 0 || h == 0),
        r == Err::<Vec<u8>, RenderError>(RenderError::DegenerateViewport) <==> (w > 0 && h > 0
            && !view.wf()),
        r is Ok <==> (w > 0 && h > 0 && view.wf()),
        r matches Ok(buf) ==> buf@ == frame_bytes(view@, w as nat, h as nat, palette@),
        r matches Ok(buf) ==> buf@.len() == 4 * w * h && (forall|i: int|
            0 <= i < buf@.len() ==> #[trigger] buf@[i] == channel(
                pixel_count(view@, w as nat, h as nat, (i / 4) as nat, MAX_ITER as nat),
                MAX_ITER as nat,
                palette@,
                (i % 4) as nat,
            )),
{
    if w == 0 || h == 0 {
        return Err(RenderError::EmptySurface);
    }
    if !view.is_well_formed() {
        return Err(RenderError::DegenerateViewport);
    }
    assert(w * h <= usize::MAX && 4 * (w * h) == 4 * w * h) by (nonlinear_arith)
        requires
            4 * w * h <= usize::MAX,
    ;
    let counts = escape_counts(w, h, view, MAX_ITER);
    let buf = colorize(&counts, MAX_ITER, palette);
    assert forall|i: int| 0 <= i < buf@.len() implies #[trigger] buf@[i] == channel(
        pixel_count(view@, w as nat, h as nat, (i / 4) as nat, MAX_ITER as nat),
        MAX_ITER as nat,
        palette@,
        (i % 4) as nat,
    ) by {
        assert(0 <= i / 4 < counts@.len());
        assert(counts@[i / 4] as nat == pixel_count(
            view@,
            w as nat,
            h as nat,
            (i / 4) as nat,
            MAX_ITER as nat,
        ));
    }
    assert(buf@ =~= frame_bytes(view@, w as nat, h as nat, palette@));
    Ok(buf)
}

} // verus!
