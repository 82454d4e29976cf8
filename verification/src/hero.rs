//! Geometry of the welcome hero's rasterised handwriting.
use vstd::prelude::*;

verus! {

/// A pixel rectangle: columns `min_x..max_x`, rows `min_y..max_y`.
#[derive(Clone, Copy, Debug, PartialEq, Eq, Structural)]
pub struct HeroMaskPixelBounds {
    pub min_x: u32,
    pub min_y: u32,
    pub max_x: u32,
    pub max_y: u32,
}

/// The alpha of pixel `(x, y)` of an RGBA image `width` pixels wide.
pub open spec fn alpha_at(rgba: Seq<u8>, width: u32, x: int, y: int) -> u8 {
    rgba[(y * width + x) * 4]
}

/// Pixel `(x, y)` is inked: its alpha is above 2.
pub open spec fn inked(rgba: Seq<u8>, width: u32, height: u32, x: int, y: int) -> bool {
    0 <= x < width && 0 <= y < height && alpha_at(rgba, width, x, y) > 2
}

/// `b` is the smallest rectangle holding every inked pixel.
pub open spec fn is_ink_bounds(rgba: Seq<u8>, width: u32, height: u32, b: HeroMaskPixelBounds) -> bool {
    &&& forall|x: int, y: int|
        #[trigger] inked(rgba, width, height, x, y) ==> b.min_x <= x < b.max_x && b.min_y <= y
            < b.max_y
    &&& exists|y: int| #[trigger] inked(rgba, width, height, b.min_x as int, y)
    &&& exists|y: int| #[trigger] inked(rgba, width, height, b.max_x - 1, y)
    &&& exists|x: int| #[trigger] inked(rgba, width, height, x, b.min_y as int)
    &&& exists|x: int| #[trigger] inked(rgba, width, height, x, b.max_y - 1)
}

proof fn lemma_index(width: u32, x: int, y: int, height: u32)
    requires
        0 <= x < width,
        0 <= y < height,
    ensures
        0 <= (y * width + x) * 4,
        (y * width + x) * 4 + 4 <= width * height * 4,
        (y * width + x) * 4 == y * width * 4 + x * 4,
{
    assert(y * width + x < (y + 1) * width) by (nonlinear_arith)
        requires
            x < width,
    ;
    assert((y + 1) * width <= height * width) by (nonlinear_arith)
        requires
            y + 1 <= height,
            width >= 0,
    ;
    assert(0 <= y * width) by (nonlinear_arith)
        requires
            0 <= y,
            width >= 0,
    ;
    assert((y * width + x) * 4 + 4 <= width * height * 4) by (nonlinear_arith)
        requires
            y * width + x < height * width,
    ;
}

/// `hero_alpha_bounds`: the bounding box of the pixels whose alpha is
/// above 2, or `None` when there are none.
pub fn hero_alpha_bounds(glyph_rgba: &[u8], width: u32, height: u32) -> (r: Option<
    HeroMaskPixelBounds,
>)
    requires
        width * height * 4 <= u32::MAX,
        glyph_rgba@.len() >= width * height * 4,
    ensures
        match r {
            Some(b) => is_ink_bounds(glyph_rgba@, width, height, b),
            None => forall|x: int, y: int| !#[trigger] inked(glyph_rgba@, width, height, x, y),
        },
{
    let ghost rgba = glyph_rgba@;
    let mut min_x = width;
    let mut min_y = height;
    let mut max_x: u32 = 0;
    let mut max_y: u32 = 0;
    let mut y: u32 = 0;
    while y < height
        invariant
            y <= height,
            rgba == glyph_rgba@,
            width * height * 4 <= u32::MAX,
            glyph_rgba@.len() >= width * height * 4,
            min_x <= width,
            min_y <= height,
            max_x <= width,
            max_y <= height,
            forall|px: int, py: int|
                #[trigger] inked(rgba, width, height, px, py) && py < y ==> min_x <= px < max_x
                    && min_y <= py < max_y,
            min_x < width ==> exists|py: int| #[trigger] inked(rgba, width, height, min_x as int, py),
            max_x > 0 ==> exists|py: int| #[trigger] inked(rgba, width, height, max_x - 1, py),
            min_y < height ==> exists|px: int| #[trigger] inked(rgba, width, height, px, min_y as int),
            max_y > 0 ==> exists|px: int| #[trigger] inked(rgba, width, height, px, max_y - 1),
            (min_x < max_x) == (max_x > 0),
            (min_y < max_y) == (max_y > 0),
            max_x > 0 <==> exists|px: int, py: int| #[trigger] inked(rgba, width, height, px, py) && py < y,
        decreases height - y,
    {
        let mut x: u32 = 0;
        while x < width
            invariant
                y < height,
                x <= width,
                rgba == glyph_rgba@,
                width * height * 4 <= u32::MAX,
                glyph_rgba@.len() >= width * height * 4,
                min_x <= width,
                min_y <= height,
                max_x <= width,
                max_y <= height,
                forall|px: int, py: int|
                    #[trigger] inked(rgba, width, height, px, py) && (py < y || (py == y && px < x))
                        ==> min_x <= px < max_x && min_y <= py < max_y,
                min_x < width ==> exists|py: int| #[trigger] inked(rgba, width, height, min_x as int, py),
                max_x > 0 ==> exists|py: int| #[trigger] inked(rgba, width, height, max_x - 1, py),
                min_y < height ==> exists|px: int| #[trigger] inked(rgba, width, height, px, min_y as int),
                max_y > 0 ==> exists|px: int| #[trigger] inked(rgba, width, height, px, max_y - 1),
                (min_x < max_x) == (max_x > 0),
                (min_y < max_y) == (max_y > 0),
                max_x > 0 <==> exists|px: int, py: int| #[trigger] inked(rgba, width, height, px, py)
                    && (py < y || (py == y && px < x)),
            decreases width - x,
        {
            proof {
                lemma_index(width, x as int, y as int, height);
            }
            let index: u32 = (y * width + x) * 4;
            let alpha = glyph_rgba[index as usize];
            assert(alpha == alpha_at(rgba, width, x as int, y as int));
            if alpha > 2 {
                assert(inked(rgba, width, height, x as int, y as int));
                if x < min_x {
                    min_x = x;
                }
                if y < min_y {
                    min_y = y;
                }
                if x + 1 > max_x {
                    max_x = x + 1;
                    assert(inked(rgba, width, height, max_x - 1, y as int));
                }
                if y + 1 > max_y {
                    max_y = y + 1;
                    assert(inked(rgba, width, height, x as int, max_y - 1));
                }
            }
            x = x + 1;
        }
        y = y + 1;
    }
    if min_x < max_x && min_y < max_y {
        let b = HeroMaskPixelBounds { min_x, min_y, max_x, max_y };
        assert forall|x: int, y: int| #[trigger] inked(rgba, width, height, x, y) implies b.min_x <= x
            < b.max_x && b.min_y <= y < b.max_y by {
            assert(y < height);
        }
        assert(exists|y: int| #[trigger] inked(rgba, width, height, b.min_x as int, y));
        assert(exists|y: int| #[trigger] inked(rgba, width, height, b.max_x - 1, y));
        assert(exists|x: int| #[trigger] inked(rgba, width, height, x, b.min_y as int));
        assert(exists|x: int| #[trigger] inked(rgba, width, height, x, b.max_y - 1));
        Some(b)
    } else {
        None
    }
}

/// Pixels each hero reveal worker thread should at least fill.
pub const HERO_MIN_PIXELS_PER_WORKER: usize = 32 * 1024;

/// `hero_reveal_worker_count`: the number of threads for filling
/// `total_pixels` pixels when `available` threads can run at once: one for
/// small images, else as many as the work fills, at most `available` and at
/// least one.
pub fn hero_reveal_worker_count(total_pixels: usize, available: usize) -> (r: usize)
    ensures
        total_pixels < 2 * HERO_MIN_PIXELS_PER_WORKER ==> r == 1,
        total_pixels >= 2 * HERO_MIN_PIXELS_PER_WORKER ==> r == {
            let by_work = total_pixels / HERO_MIN_PIXELS_PER_WORKER;
            let m = if available < by_work { available } else { by_work };
            if m < 1 { 1 } else { m }
        },
{
    if total_pixels < HERO_MIN_PIXELS_PER_WORKER * 2 {
        return 1;
    }
    let by_work = total_pixels / HERO_MIN_PIXELS_PER_WORKER;
    let m = if available < by_work {
        available
    } else {
        by_work
    };
    if m < 1 {
        1
    } else {
        m
    }
}

} // verus!
