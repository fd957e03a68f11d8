use vstd::prelude::*;
use vstd::arithmetic::div_mod::{lemma_fundamental_div_mod, lemma_fundamental_div_mod_converse};
use crate::color::{Color, BYTES_PER_PIXEL};
use crate::resolution::Resolution;

verus! {

/// Byte offset of pixel `(x, y)` in a row-major buffer of the given width.
pub open spec fn pixel_base(width: int, x: int, y: int) -> int {
    (x + y * width) * 4
}

/// The pixel that owns byte `i` of a row-major buffer of the given width.
pub open spec fn byte_pixel(width: int, i: int) -> (int, int) {
    ((i / 4) % width, (i / 4) / width)
}

/// `post` is `pre` with exactly the pixels of `pts` filled with `c`'s
/// encoding and every other byte unchanged. This is the one relation all
/// drawing contracts are stated in.
pub open spec fn paints(pre: Seq<u8>, post: Seq<u8>, width: int, pts: Set<(int, int)>, c: Color) -> bool {
    &&& post.len() == pre.len()
    &&& forall|i: int|
        0 <= i < pre.len() ==> post[i] == (if pts.contains(byte_pixel(width, i)) {
            c.byte(i % 4)
        } else {
            pre[i]
        })
}

/// Byte `i` belongs to pixel `(x, y)` exactly when it lies in the four
/// bytes starting at that pixel's base offset.
pub proof fn lemma_byte_pixel(width: int, x: int, y: int, i: int)
    requires
        0 < width,
        0 <= x < width,
        0 <= y,
    ensures
        byte_pixel(width, i) == (x, y) <==> pixel_base(width, x, y) <= i < pixel_base(width, x, y) + 4,
{
    let p = x + y * width;
    if pixel_base(width, x, y) <= i < pixel_base(width, x, y) + 4 {
        lemma_fundamental_div_mod_converse(i, 4, p, i - 4 * p);
        lemma_fundamental_div_mod_converse(p, width, y, x);
        assert(byte_pixel(width, i) == (x, y));
    }
    if byte_pixel(width, i) == (x, y) {
        assert((i / 4) % width == x);
        assert((i / 4) / width == y);
        lemma_fundamental_div_mod(i, 4);
        lemma_fundamental_div_mod(i / 4, width);
        assert(i / 4 == width * ((i / 4) / width) + (i / 4) % width);
        assert(y * width == width * y) by (nonlinear_arith);
        assert(i / 4 == p);
        assert(i == 4 * (i / 4) + i % 4);
        assert(i == 4 * p + i % 4);
    }
}

/// Two paint steps with the same color combine into one over the union of
/// their pixel sets.
pub proof fn lemma_paints_union(
    pre: Seq<u8>,
    mid: Seq<u8>,
    post: Seq<u8>,
    width: int,
    pts1: Set<(int, int)>,
    pts2: Set<(int, int)>,
    c: Color,
)
    requires
        paints(pre, mid, width, pts1, c),
        paints(mid, post, width, pts2, c),
    ensures
        paints(pre, post, width, pts1.union(pts2), c),
{
}

/// A paint step of a single pixel extends a paint relation by that pixel.
pub proof fn lemma_paints_insert(
    pre: Seq<u8>,
    mid: Seq<u8>,
    post: Seq<u8>,
    width: int,
    pts: Set<(int, int)>,
    p: (int, int),
    c: Color,
)
    requires
        paints(pre, mid, width, pts, c),
        paints(mid, post, width, Set::<(int, int)>::empty().insert(p), c),
    ensures
        paints(pre, post, width, pts.insert(p), c),
{
    lemma_paints_union(pre, mid, post, width, pts, Set::<(int, int)>::empty().insert(p), c);
    assert(pts.union(Set::<(int, int)>::empty().insert(p)) =~= pts.insert(p));
}

/// Drawing the same pixels with the same color a second time leaves the
/// buffer exactly as after the first drawing.
pub proof fn lemma_paints_idempotent(
    pre: Seq<u8>,
    once: Seq<u8>,
    twice: Seq<u8>,
    width: int,
    pts: Set<(int, int)>,
    c: Color,
)
    requires
        paints(pre, once, width, pts, c),
        paints(once, twice, width, pts, c),
    ensures
        twice == once,
{
    assert(twice =~= once);
}

/// A paint relation is a function of its pixel set: the same set, color and
/// starting buffer give the same result.
pub proof fn lemma_paints_deterministic(
    pre: Seq<u8>,
    post1: Seq<u8>,
    post2: Seq<u8>,
    width: int,
    pts1: Set<(int, int)>,
    pts2: Set<(int, int)>,
    c: Color,
)
    requires
        paints(pre, post1, width, pts1, c),
        paints(pre, post2, width, pts2, c),
        pts1 =~= pts2,
    ensures
        post1 == post2,
{
    assert(post1 =~= post2);
}

/// Flat byte store of one frame, addressed row-major with `BYTES_PER_PIXEL`
/// bytes per pixel. Its length never changes after creation.
#[derive(Clone, Debug)]
pub struct PixelBuffer {
    pub pixel_buffer: Vec<u8>,
    pub buffer_width: usize,
    pub buffer_height: usize,
}

impl PixelBuffer {
    /// The buffer holds exactly one encoded color per screen pixel.
    pub open spec fn wf(self) -> bool {
        self.pixel_buffer@.len() == self.buffer_width * self.buffer_height * BYTES_PER_PIXEL
    }

    /// Fresh zeroed buffer with the screen dimensions of the resolution.
    pub fn init_from_resolution(resolution: &Resolution) -> (buf: PixelBuffer)
        ensures
            buf.wf(),
            buf.buffer_width == resolution.width_spec(),
            buf.buffer_height == resolution.height_spec(),
            forall|i: int| 0 <= i < buf.pixel_buffer@.len() ==> buf.pixel_buffer@[i] == 0u8,
    {
        let width = resolution.width() as usize;
        let height = resolution.height() as usize;
        proof {
            assert(resolution.width_spec() <= 1280 && resolution.height_spec() <= 720);
            assert(width * height * 4 <= 3686400) by (nonlinear_arith)
                requires
                    width <= 1280,
                    height <= 720,
            ;
        }
        let total: usize = width * height * BYTES_PER_PIXEL;
        let pixel_buffer = vec![0u8; total];
        PixelBuffer { pixel_buffer, buffer_width: width, buffer_height: height }
    }

    /// Writes the full encoding of `color` at the byte offset of the
    /// validated pixel `(x, y)`; no other byte changes.
    pub fn write_pixel(&mut self, x: usize, y: usize, color: Color)
        requires
            old(self).wf(),
            x < old(self).buffer_width,
            y < old(self).buffer_height,
        ensures
            final(self).wf(),
            final(self).buffer_width == old(self).buffer_width,
            final(self).buffer_height == old(self).buffer_height,
            paints(
                old(self).pixel_buffer@,
                final(self).pixel_buffer@,
                old(self).buffer_width as int,
                Set::<(int, int)>::empty().insert((x as int, y as int)),
                color,
            ),
    {
        let w = self.buffer_width;
        let h = self.buffer_height;
        let len = self.pixel_buffer.len();
        proof {
            assert(x + y * w < w * h) by (nonlinear_arith)
                requires
                    x < w,
                    y < h,
            ;
            assert((x + y * w) * 4 + 3 < w * h * 4) by (nonlinear_arith)
                requires
                    x + y * w < w * h,
            ;
        }
        let base: usize = (x + y * w) * BYTES_PER_PIXEL;
        self.pixel_buffer[base] = color.r;
        self.pixel_buffer[base + 1] = color.g;
        self.pixel_buffer[base + 2] = color.b;
        self.pixel_buffer[base + 3] = color.a;
        proof {
            let pre = old(self).pixel_buffer@;
            let post = self.pixel_buffer@;
            let pts = Set::<(int, int)>::empty().insert((x as int, y as int));
            assert forall|i: int| 0 <= i < pre.len() implies post[i] == (if pts.contains(
                byte_pixel(w as int, i),
            ) {
                color.byte(i % 4)
            } else {
                pre[i]
            }) by {
                lemma_byte_pixel(w as int, x as int, y as int, i);
                if pixel_base(w as int, x as int, y as int) <= i < pixel_base(
                    w as int,
                    x as int,
                    y as int,
                ) + 4 {
                    lemma_fundamental_div_mod_converse(
                        i,
                        4,
                        x + (y as int) * w,
                        i - pixel_base(w as int, x as int, y as int),
                    );
                }
            }
        }
    }
}

} // verus!
