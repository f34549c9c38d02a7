use vstd::prelude::*;

use crate::float_bits::{bits_is_nan, float_key_of};

verus! {

/// Depth of `+infinity` (the `float_key` of its bit pattern), the depth
/// every pixel holds after a clear.
pub const FAR_DEPTH: u32 = 0xFF80_0000;

/// `FAR_DEPTH` is the key of `+infinity`, and no key of a depth that is not
/// NaN lies beyond it.
pub proof fn lemma_far_depth_is_infinity(bits: u32)
    ensures
        float_key_of(0x7F80_0000u32) == FAR_DEPTH,
        !bits_is_nan(bits) ==> float_key_of(bits) <= FAR_DEPTH,
{
    assert(float_key_of(0x7F80_0000u32) == FAR_DEPTH) by (bit_vector);
    assert(!bits_is_nan(bits) ==> float_key_of(bits) <= FAR_DEPTH) by (bit_vector);
}

/// The abstract state of a framebuffer: its size, the row-major pixel and
/// depth grids, and the value that a clear writes.
pub struct FramebufferView<P> {
    pub width: nat,
    pub height: nat,
    pub pixels: Seq<P>,
    pub depth: Seq<u32>,
    pub background: P,
}

/// Row-major index of pixel `(x, y)` in a grid `width` wide.
pub open spec fn grid_index(width: nat, x: int, y: int) -> int {
    y * width + x
}

/// A grid of pixels with a depth buffer. Depths are keys made by
/// `float_key` from `f32` depths: a smaller key is nearer to the camera.
pub struct Framebuffer<P> {
    pixels: Vec<P>,
    height: usize,
    width: usize,
    depth: Vec<u32>,
    default: P,
}

impl<P> View for Framebuffer<P> {
    type V = FramebufferView<P>;

    closed spec fn view(&self) -> FramebufferView<P> {
        FramebufferView {
            width: self.width as nat,
            height: self.height as nat,
            pixels: self.pixels@,
            depth: self.depth@,
            background: self.default,
        }
    }
}

impl<P> Framebuffer<P> {
    /// Both grids hold exactly `width * height` entries.
    pub open spec fn wf(&self) -> bool {
        &&& self@.pixels.len() == self@.width * self@.height
        &&& self@.depth.len() == self@.width * self@.height
        &&& self@.width * self@.height <= usize::MAX
    }

    /// The state after a write of `value` at depth `depth` to pixel `(x, y)`:
    /// outside the grid, or where the stored depth is not farther, nothing
    /// changes; else both the pixel and its depth are replaced.
    pub open spec fn written(
        v: FramebufferView<P>,
        x: int,
        y: int,
        value: P,
        depth: u32,
    ) -> FramebufferView<P> {
        let idx = grid_index(v.width, x, y);
        if 0 <= x < v.width && 0 <= y < v.height && depth < v.depth[idx] {
            FramebufferView {
                pixels: v.pixels.update(idx, value),
                depth: v.depth.update(idx, depth),
                ..v
            }
        } else {
            v
        }
    }
}

impl<P: Copy> Framebuffer<P> {
    /// A `width` by `height` framebuffer whose pixels all hold `element`, whose
    /// depths are all `FAR_DEPTH` and whose clear value is `default`.
    pub fn new_with(element: P, width: usize, height: usize, default: P) -> (fb: Self)
        requires
            width * height <= usize::MAX,
        ensures
            fb.wf(),
            fb@.width == width,
            fb@.height == height,
            fb@.pixels == Seq::new((width * height) as nat, |i: int| element),
            fb@.depth == Seq::new((width * height) as nat, |i: int| FAR_DEPTH),
            fb@.background == default,
    {
        let pix_count = width * height;
        let mut pixels: Vec<P> = Vec::with_capacity(pix_count);
        let mut depth: Vec<u32> = Vec::with_capacity(pix_count);
        let mut i: usize = 0;
        while i < pix_count
            invariant
                i <= pix_count,
                pixels@ == Seq::new(i as nat, |k: int| element),
                depth@ == Seq::new(i as nat, |k: int| FAR_DEPTH),
            decreases pix_count - i,
        {
            pixels.push(element);
            depth.push(FAR_DEPTH);
            i = i + 1;
        }
        Framebuffer { pixels, width, height, depth, default }
    }

    /// Row-major index of pixel `(x, y)`.
    pub fn get_index(&self, x: usize, y: usize) -> (idx: usize)
        requires
            y * self@.width + x <= usize::MAX,
        ensures
            idx == grid_index(self@.width, x as int, y as int),
    {
        y * self.width + x
    }

    /// The depth stored at the row-major index of `(x, y)`, if that index lies
    /// inside the depth buffer.
    pub fn _get_depth(&self, x: usize, y: usize) -> (d: Option<&u32>)
        requires
            y * self@.width + x <= usize::MAX,
        ensures
            d == (if grid_index(self@.width, x as int, y as int) < self@.depth.len() {
                Some(&self@.depth[grid_index(self@.width, x as int, y as int)])
            } else {
                None
            }),
    {
        let idx = self.get_index(x, y);
        if idx < self.depth.len() {
            Some(&self.depth[idx])
        } else {
            None
        }
    }

    /// Writes `value` to pixel `(x, y)` if the pixel lies in the grid and
    /// `depth` is nearer than the depth stored there.
    pub fn set_pixel_with_depth(&mut self, x: usize, y: usize, value: P, depth: u32)
        requires
            old(self).wf(),
        ensures
            final(self).wf(),
            final(self)@ == Self::written(old(self)@, x as int, y as int, value, depth),
    {
        if x >= self.width || y >= self.height {
            return;
        }
        proof {
            lemma_index_in_grid(self.width as int, self.height as int, x as int, y as int);
        }
        let idx = self.get_index(x, y);
        if depth < self.depth[idx] {
            self.depth.set(idx, depth);
            self.pixels.set(idx, value);
        }
    }

    /// Resets every pixel to the clear value and every depth to `FAR_DEPTH`.
    pub fn clear(&mut self)
        requires
            old(self).wf(),
        ensures
            final(self).wf(),
            final(self)@ == (FramebufferView {
                pixels: Seq::new(old(self)@.pixels.len(), |i: int| old(self)@.background),
                depth: Seq::new(old(self)@.depth.len(), |i: int| FAR_DEPTH),
                ..old(self)@
            }),
    {
        let n = self.pixels.len();
        let mut i: usize = 0;
        while i < n
            invariant
                i <= n,
                n == self.pixels.len(),
                self.width == old(self).width,
                self.height == old(self).height,
                self.default == old(self).default,
                self.depth@ == old(self).depth@,
                self.pixels@.len() == n,
                forall|k: int| 0 <= k < i ==> self.pixels@[k] == self.default,
            decreases n - i,
        {
            let d = self.default;
            self.pixels.set(i, d);
            i = i + 1;
        }
        let m = self.depth.len();
        let mut j: usize = 0;
        while j < m
            invariant
                j <= m,
                m == self.depth.len(),
                self.width == old(self).width,
                self.height == old(self).height,
                self.default == old(self).default,
                self.pixels@ =~= Seq::new(old(self)@.pixels.len(), |i: int| old(self)@.background),
                self.depth@.len() == m,
                forall|k: int| 0 <= k < j ==> self.depth@[k] == FAR_DEPTH,
            decreases m - j,
        {
            self.depth.set(j, FAR_DEPTH);
            j = j + 1;
        }
        assert(self.depth@ =~= Seq::new(old(self)@.depth.len(), |i: int| FAR_DEPTH));
    }

    /// Number of rows.
    pub fn height(&self) -> (h: usize)
        ensures
            h == self@.height,
    {
        self.height
    }

    /// Number of columns.
    pub fn width(&self) -> (w: usize)
        ensures
            w == self@.width,
    {
        self.width
    }
}

/// A cell inside a `width` by `height` grid has a row-major index inside it.
proof fn lemma_index_in_grid(width: int, height: int, x: int, y: int)
    requires
        0 <= x < width,
        0 <= y < height,
    ensures
        0 <= y * width + x < width * height,
{
    assert(y * width + x < width * height) by (nonlinear_arith)
        requires
            0 <= x < width,
            0 <= y < height,
    ;
    assert(0 <= y * width) by (nonlinear_arith)
        requires
            0 <= y,
            0 <= width,
    ;
}

/// The characters of row `r` of a row-major grid `width` wide.
pub open spec fn row_text(pixels: Seq<char>, width: nat, r: nat) -> Seq<char> {
    pixels.subrange((r * width) as int, (r * width + width) as int)
}

/// The first `rows` rows of a grid, each row's characters in order, rows
/// separated by a line feed and no line feed after the last row.
pub open spec fn frame_text(pixels: Seq<char>, width: nat, rows: nat) -> Seq<char>
    decreases rows,
{
    if rows == 0 {
        Seq::empty()
    } else if rows == 1 {
        row_text(pixels, width, 0)
    } else {
        frame_text(pixels, width, (rows - 1) as nat).push('\n') + row_text(
            pixels,
            width,
            (rows - 1) as nat,
        )
    }
}

/// Calls std's `String::push`, which appends one character to a string. The
/// contract claims that the string's characters afterwards are the ones it
/// had, followed by `c`; it states nothing about the capacity.
#[verifier::external_body]
fn push_char(s: &mut String, c: char)
    ensures
        final(s)@ == old(s)@.push(c),
{
    s.push(c);
}

/// A buffer whose content can be shown as one frame of text.
pub trait Buffer {
    /// The text of one frame of this buffer.
    spec fn frame_view(&self) -> Seq<char>;

    /// The buffer can be shown: it is well formed and neither of its sides
    /// is empty.
    spec fn showable(&self) -> bool;

    /// Appends the text of one frame to `out`.
    fn write_frame(&self, out: &mut String)
        requires
            self.showable(),
        ensures
            final(out)@ == old(out)@ + self.frame_view(),
    ;
}

impl Buffer for Framebuffer<char> {
    open spec fn frame_view(&self) -> Seq<char> {
        frame_text(self@.pixels, self@.width, self@.height)
    }

    open spec fn showable(&self) -> bool {
        self.wf() && self@.width > 0 && self@.height > 0
    }

    fn write_frame(&self, out: &mut String) {
        let ghost start = out@;
        let width = self.width;
        let height = self.height;
        let mut r: usize = 0;
        while r < height
            invariant
                self.showable(),
                width == self@.width,
                height == self@.height,
                r <= height,
                out@ == start + frame_text(self@.pixels, width as nat, r as nat),
            decreases height - r,
        {
            if r > 0 {
                push_char(out, '\n');
            }
            proof {
                lemma_row_in_grid(width as int, height as int, r as int);
            }
            let row_start = r * width;
            let ghost before_row = out@;
            let mut c: usize = 0;
            while c < width
                invariant
                    self.showable(),
                    width == self@.width,
                    height == self@.height,
                    r < height,
                    row_start == r * width,
                    row_start + width <= self@.pixels.len(),
                    c <= width,
                    out@ == before_row + self@.pixels.subrange(row_start as int, (row_start + c) as int),
                decreases width - c,
            {
                let ch = self.pixels[row_start + c];
                push_char(out, ch);
                assert(self@.pixels.subrange(row_start as int, (row_start + c + 1) as int)
                    =~= self@.pixels.subrange(row_start as int, (row_start + c) as int).push(ch));
                c = c + 1;
            }
            assert(out@ =~= start + frame_text(self@.pixels, width as nat, (r + 1) as nat));
            r = r + 1;
        }
    }
}

/// Row `r` of a `width` by `height` grid lies inside it.
proof fn lemma_row_in_grid(width: int, height: int, r: int)
    requires
        0 < width,
        0 <= r < height,
    ensures
        0 <= r * width,
        r * width + width <= width * height,
{
    assert(r * width + width <= width * height) by (nonlinear_arith)
        requires
            0 < width,
            0 <= r < height,
    ;
    assert(0 <= r * width) by (nonlinear_arith)
        requires
            0 < width,
            0 <= r,
    ;
}

/// One depth-tested write of `value` at depth `depth` to pixel `(x, y)`.
pub struct PixelWrite<P> {
    pub x: int,
    pub y: int,
    pub value: P,
    pub depth: u32,
}

/// The state after the writes, applied in order.
pub open spec fn write_all<P>(v: FramebufferView<P>, writes: Seq<PixelWrite<P>>) -> FramebufferView<P>
    decreases writes.len(),
{
    if writes.len() == 0 {
        v
    } else {
        let w = writes.last();
        Framebuffer::<P>::written(write_all(v, writes.drop_last()), w.x, w.y, w.value, w.depth)
    }
}

/// Distinct cells of a grid have distinct row-major indices.
proof fn lemma_grid_index_injective(width: int, x1: int, y1: int, x2: int, y2: int)
    requires
        0 <= x1 < width,
        0 <= x2 < width,
        0 <= y1,
        0 <= y2,
        y1 * width + x1 == y2 * width + x2,
    ensures
        x1 == x2 && y1 == y2,
{
    if y1 < y2 {
        assert(y1 * width + width <= y2 * width) by (nonlinear_arith)
            requires
                y1 < y2,
                0 <= width,
        ;
    } else if y2 < y1 {
        assert(y2 * width + width <= y1 * width) by (nonlinear_arith)
            requires
                y2 < y1,
                0 <= width,
        ;
    }
}

/// The depth test keeps the nearest depth: after any writes, a pixel of the
/// grid holds the smallest of its first depth and the depths written to it.
/// If a write was nearer than the first depth, the pixel holds the value of
/// the earliest write at that smallest depth; else it keeps its first value.
/// Writes to other pixels, or outside the grid, do not touch it, and the
/// size of the grids never changes.
pub proof fn lemma_nearest_write_wins<P>(
    v: FramebufferView<P>,
    writes: Seq<PixelWrite<P>>,
    x: int,
    y: int,
)
    requires
        v.pixels.len() == v.width * v.height,
        v.depth.len() == v.width * v.height,
        0 <= x < v.width,
        0 <= y < v.height,
    ensures
        ({
            let r = write_all(v, writes);
            let idx = grid_index(v.width, x, y);
            let d = r.depth[idx];
            &&& r.width == v.width && r.height == v.height && r.background == v.background
            &&& r.pixels.len() == v.pixels.len() && r.depth.len() == v.depth.len()
            &&& d <= v.depth[idx]
            &&& forall|i: int|
                0 <= i < writes.len() && writes[i].x == x && writes[i].y == y ==> d
                    <= #[trigger] writes[i].depth
            &&& (d == v.depth[idx] && r.pixels[idx] == v.pixels[idx]) || (d < v.depth[idx]
                && exists|i: int|
                #![trigger writes[i]]
                0 <= i < writes.len() && writes[i].x == x && writes[i].y == y && writes[i].depth
                    == d && r.pixels[idx] == writes[i].value && forall|j: int|
                    0 <= j < i && writes[j].x == x && writes[j].y == y ==> #[trigger] writes[j].depth
                        > d)
        }),
    decreases writes.len(),
{
    lemma_index_in_grid(v.width as int, v.height as int, x, y);
    if writes.len() > 0 {
        let prev = writes.drop_last();
        lemma_nearest_write_wins(v, prev, x, y);
        let r0 = write_all(v, prev);
        let w = writes.last();
        let n = writes.len() - 1;
        let idx = grid_index(v.width, x, y);
        assert(writes[n] == w);
        assert forall|i: int| 0 <= i < n implies writes[i] == prev[i] by {}
        if 0 <= w.x < r0.width && 0 <= w.y < r0.height {
            lemma_index_in_grid(v.width as int, v.height as int, w.x, w.y);
            let widx = grid_index(v.width, w.x, w.y);
            if widx == idx {
                lemma_grid_index_injective(v.width as int, x, y, w.x, w.y);
            } else {
                if w.x == x && w.y == y {
                    assert(false);
                }
            }
        }
        let r = write_all(v, writes);
        let d = r.depth[idx];
        let d0 = r0.depth[idx];
        if w.x == x && w.y == y && w.depth < d0 {
            assert(d == w.depth);
            assert(r.pixels[idx] == w.value);
            assert forall|j: int| 0 <= j < n && writes[j].x == x && writes[j].y == y implies #[trigger] writes[j].depth > d by {
                assert(writes[j] == prev[j]);
            }
            assert(writes[n].depth == d);
        } else {
            assert(d == d0);
            assert(r.pixels[idx] == r0.pixels[idx]);
            if d0 < v.depth[idx] {
                let i = choose|i: int|
                    #![trigger prev[i]]
                    0 <= i < prev.len() && prev[i].x == x && prev[i].y == y && prev[i].depth
                        == d0 && r0.pixels[idx] == prev[i].value && forall|j: int|
                        0 <= j < i && prev[j].x == x && prev[j].y == y ==> #[trigger] prev[j].depth
                            > d0;
                assert(writes[i] == prev[i]);
                assert forall|j: int| 0 <= j < i && writes[j].x == x && writes[j].y == y implies #[trigger] writes[j].depth > d by {
                    assert(writes[j] == prev[j]);
                }
            }
        }
        assert forall|i: int|
            0 <= i < writes.len() && writes[i].x == x && writes[i].y == y implies d
                <= #[trigger] writes[i].depth by {
            if i < n {
                assert(writes[i] == prev[i]);
            }
        }
    }
}

/// Repeating a write changes nothing.
pub proof fn lemma_write_idempotent<P>(v: FramebufferView<P>, x: int, y: int, value: P, depth: u32)
    requires
        v.depth.len() == v.width * v.height,
    ensures
        Framebuffer::<P>::written(Framebuffer::<P>::written(v, x, y, value, depth), x, y, value, depth)
            == Framebuffer::<P>::written(v, x, y, value, depth),
{
    if 0 <= x < v.width && 0 <= y < v.height {
        lemma_index_in_grid(v.width as int, v.height as int, x, y);
    }
}

/// A frame of a grid with at least one row has one character per pixel
/// and a line feed between consecutive rows: `width * rows + rows - 1`
/// characters in all, and row `r` starts at `r * (width + 1)`.
pub proof fn lemma_frame_shape(pixels: Seq<char>, width: nat, rows: nat)
    requires
        rows >= 1,
        pixels.len() >= width * rows,
    ensures
        frame_text(pixels, width, rows).len() == width * rows + rows - 1,
        forall|r: int|
            0 <= r < rows ==> frame_text(pixels, width, rows).subrange(
                r * (width + 1),
                r * (width + 1) + width,
            ) == #[trigger] row_text(pixels, width, r as nat),
    decreases rows,
{
    assert(width * rows == width * (rows - 1) + width) by (nonlinear_arith)
        requires
            rows >= 1,
    ;
    assert(width * (rows - 1) <= width * rows) by (nonlinear_arith)
        requires
            rows >= 1,
    ;
    if rows == 1 {
        assert(width * rows == width);
        assert(row_text(pixels, width, 0).len() == width);
        assert(frame_text(pixels, width, 1) == row_text(pixels, width, 0));
        assert forall|r: int| 0 <= r < rows implies frame_text(pixels, width, rows).subrange(
            r * (width + 1),
            r * (width + 1) + width,
        ) == #[trigger] row_text(pixels, width, r as nat) by {
            assert(r == 0);
            assert(frame_text(pixels, width, rows).subrange(0, width as int) =~= row_text(
                pixels,
                width,
                0,
            ));
        }
    } else {
        lemma_frame_shape(pixels, width, (rows - 1) as nat);
        let prev = frame_text(pixels, width, (rows - 1) as nat);
        let last = row_text(pixels, width, (rows - 1) as nat);
        let f = frame_text(pixels, width, rows);
        assert(f == prev.push('\n') + last);
        assert((rows - 1) * width + width == width * rows) by (nonlinear_arith)
            requires
                rows >= 1,
        ;
        assert(last.len() == width);
        assert(f.len() == prev.len() + 1 + width);
        assert forall|r: int| 0 <= r < rows implies f.subrange(
            r * (width + 1),
            r * (width + 1) + width,
        ) == #[trigger] row_text(pixels, width, r as nat) by {
            if r < rows - 1 {
                assert(r * (width + 1) + width <= prev.len()) by (nonlinear_arith)
                    requires
                        r < rows - 1,
                        prev.len() == width * (rows - 1) + (rows - 1) - 1,
                ;
                assert(f.subrange(r * (width + 1), r * (width + 1) + width) =~= prev.subrange(
                    r * (width + 1),
                    r * (width + 1) + width,
                ));
            } else {
                assert(r * (width + 1) == prev.len() + 1) by (nonlinear_arith)
                    requires
                        r == rows - 1,
                        prev.len() == width * (rows - 1) + (rows - 1) - 1,
                ;
                assert(f.subrange(r * (width + 1), r * (width + 1) + width) =~= last);
            }
        }
    }
}

} // verus!
