use vstd::arithmetic::div_mod::{
    lemma_fundamental_div_mod, lemma_fundamental_div_mod_converse_div,
    lemma_fundamental_div_mod_converse_mod,
};
use vstd::prelude::*;

verus! {

/// Mathematical view of a raster image: a width, a height, and the flat
/// byte sequence of its buffer, row-major, four bytes (red, green, blue,
/// alpha) per pixel.
#[verifier::ext_equal]
pub ghost struct ImgView {
    pub width: int,
    pub height: int,
    pub data: Seq<u8>,
}

impl ImgView {
    /// A well-formed view holds exactly four bytes per pixel.
    pub open spec fn wf(self) -> bool {
        0 <= self.width && 0 <= self.height && self.data.len() == 4 * self.width * self.height
    }

    /// Position of channel `c` of the pixel at column `x`, row `y` in a
    /// flat buffer of width `w`.
    pub open spec fn flat_index(w: int, x: int, y: int, c: int) -> int {
        4 * (y * w + x) + c
    }

    /// Channel `c` of the pixel at column `x`, row `y`.
    pub open spec fn pix(self, x: int, y: int, c: int) -> u8 {
        self.data[Self::flat_index(self.width, x, y, c)]
    }

    /// Column of the flat buffer position `i` in an image of width `w`.
    pub open spec fn col_of(w: int, i: int) -> int {
        (i % (4 * w)) / 4
    }

    /// Row of the flat buffer position `i` in an image of width `w`.
    pub open spec fn row_of(w: int, i: int) -> int {
        i / (4 * w)
    }

    /// Channel of the flat buffer position `i`.
    pub open spec fn chan_of(i: int) -> int {
        i % 4
    }
}

/// Every position of a flat buffer of width `w` and height `h` decomposes
/// into the column, row and channel read off by `col_of`, `row_of` and
/// `chan_of`, and `flat_index` puts them back together.
pub proof fn lemma_flat_decompose(w: int, h: int, i: int)
    requires
        0 < w,
        0 <= i < 4 * w * h,
    ensures
        0 <= ImgView::col_of(w, i) < w,
        0 <= ImgView::row_of(w, i) < h,
        0 <= ImgView::chan_of(i) < 4,
        ImgView::flat_index(w, ImgView::col_of(w, i), ImgView::row_of(w, i), ImgView::chan_of(i))
            == i,
{
    let fw = 4 * w;
    let y = i / fw;
    let r = i % fw;
    lemma_fundamental_div_mod(i, fw);
    let x = r / 4;
    let c = r % 4;
    lemma_fundamental_div_mod(r, 4);
    assert(i == fw * y + 4 * x + c);
    assert(fw * y + 4 * x + c == 4 * (y * w + x) + c) by (nonlinear_arith)
        requires fw == 4 * w;
    lemma_fundamental_div_mod_converse_mod(i, 4, y * w + x, c);
    assert(y < h) by (nonlinear_arith)
        requires 0 < fw, 0 <= i < fw * h, y == i / fw, i == fw * y + r, 0 <= r < fw;
    assert(x < w) by (nonlinear_arith)
        requires 0 <= r < 4 * w, x == r / 4, r == 4 * x + c, 0 <= c < 4;
}

/// `flat_index` lands inside the buffer and decomposes back into the
/// column, row and channel it was built from.
pub proof fn lemma_flat_recompose(w: int, h: int, x: int, y: int, c: int)
    requires
        0 <= x < w,
        0 <= y < h,
        0 <= c < 4,
    ensures
        0 <= ImgView::flat_index(w, x, y, c) < 4 * w * h,
        ImgView::col_of(w, ImgView::flat_index(w, x, y, c)) == x,
        ImgView::row_of(w, ImgView::flat_index(w, x, y, c)) == y,
        ImgView::chan_of(ImgView::flat_index(w, x, y, c)) == c,
{
    let i = ImgView::flat_index(w, x, y, c);
    assert(0 <= i < 4 * w * h) by (nonlinear_arith)
        requires 0 <= x < w, 0 <= y < h, 0 <= c < 4, i == 4 * (y * w + x) + c;
    assert(i == (4 * w) * y + (4 * x + c)) by (nonlinear_arith)
        requires i == 4 * (y * w + x) + c;
    lemma_fundamental_div_mod_converse_div(i, 4 * w, y, 4 * x + c);
    lemma_fundamental_div_mod_converse_mod(i, 4 * w, y, 4 * x + c);
    lemma_fundamental_div_mod_converse_div(4 * x + c, 4, x, c);
    lemma_fundamental_div_mod_converse_mod(i, 4, y * w + x, c);
}

/// The view with every color channel replaced by its distance from the
/// channel maximum; the alpha channel is untouched.
pub open spec fn inverted(v: ImgView) -> ImgView {
    ImgView {
        width: v.width,
        height: v.height,
        data: Seq::new(
            v.data.len(),
            |i: int| if ImgView::chan_of(i) == 3 { v.data[i] } else { (255 - v.data[i]) as u8 },
        ),
    }
}

/// The view mirrored across the vertical axis: column `x` reads from
/// column `width - 1 - x`.
pub open spec fn flipped_h(v: ImgView) -> ImgView {
    ImgView {
        width: v.width,
        height: v.height,
        data: Seq::new(
            v.data.len(),
            |i: int| v.pix(
                v.width - 1 - ImgView::col_of(v.width, i),
                ImgView::row_of(v.width, i),
                ImgView::chan_of(i),
            ),
        ),
    }
}

/// The view mirrored across the horizontal axis: row `y` reads from row
/// `height - 1 - y`.
pub open spec fn flipped_v(v: ImgView) -> ImgView {
    ImgView {
        width: v.width,
        height: v.height,
        data: Seq::new(
            v.data.len(),
            |i: int| v.pix(
                ImgView::col_of(v.width, i),
                v.height - 1 - ImgView::row_of(v.width, i),
                ImgView::chan_of(i),
            ),
        ),
    }
}

/// The view turned a quarter turn counter-clockwise: the new image is
/// `height × width`, and the pixel at `(x, y)` reads from
/// `(width - 1 - y, x)` of the original.
pub open spec fn rotated_left(v: ImgView) -> ImgView {
    ImgView {
        width: v.height,
        height: v.width,
        data: Seq::new(
            (4 * v.height * v.width) as nat,
            |i: int| v.pix(
                v.width - 1 - ImgView::row_of(v.height, i),
                ImgView::col_of(v.height, i),
                ImgView::chan_of(i),
            ),
        ),
    }
}

/// The view turned a quarter turn clockwise: the new image is
/// `height × width`, and the pixel at `(x, y)` reads from
/// `(y, height - 1 - x)` of the original.
pub open spec fn rotated_right(v: ImgView) -> ImgView {
    ImgView {
        width: v.height,
        height: v.width,
        data: Seq::new(
            (4 * v.height * v.width) as nat,
            |i: int| v.pix(
                ImgView::row_of(v.height, i),
                v.height - 1 - ImgView::col_of(v.height, i),
                ImgView::chan_of(i),
            ),
        ),
    }
}

/// The view turned a half turn: the pixel at `(x, y)` reads from
/// `(width - 1 - x, height - 1 - y)` of the original.
pub open spec fn rotated_down(v: ImgView) -> ImgView {
    ImgView {
        width: v.width,
        height: v.height,
        data: Seq::new(
            (4 * v.width * v.height) as nat,
            |i: int| v.pix(
                v.width - 1 - ImgView::col_of(v.width, i),
                v.height - 1 - ImgView::row_of(v.width, i),
                ImgView::chan_of(i),
            ),
        ),
    }
}

/// `p`, held back to at most `limit`.
pub open spec fn at_most(limit: int, p: int) -> int {
    if p <= limit {
        p
    } else {
        limit
    }
}

/// The sub-rectangle of the view at origin `(cx, cy)` with extent
/// `cw × ch`; a rectangle that exceeds the image bounds is clamped to
/// them.
pub open spec fn cropped(v: ImgView, cx: int, cy: int, cw: int, ch: int) -> ImgView {
    let x0 = at_most(v.width, cx);
    let y0 = at_most(v.height, cy);
    let w2 = at_most(v.width - x0, cw);
    let h2 = at_most(v.height - y0, ch);
    ImgView {
        width: w2,
        height: h2,
        data: Seq::new(
            (4 * w2 * h2) as nat,
            |i: int| v.pix(
                x0 + ImgView::col_of(w2, i),
                y0 + ImgView::row_of(w2, i),
                ImgView::chan_of(i),
            ),
        ),
    }
}

/// A channel sum held to the channel range.
pub open spec fn clamp_channel(n: int) -> u8 {
    if n < 0 {
        0u8
    } else if n > 255 {
        255u8
    } else {
        n as u8
    }
}

/// The view with `d` added to every color channel, clamped to the
/// channel range; alpha is untouched.
pub open spec fn brightened(v: ImgView, d: int) -> ImgView {
    ImgView {
        width: v.width,
        height: v.height,
        data: Seq::new(
            v.data.len(),
            |i: int| if ImgView::chan_of(i) == 3 {
                v.data[i]
            } else {
                clamp_channel(v.data[i] + d)
            },
        ),
    }
}

/// `a` and `b` side by side, `a` on the left; both are anchored at the
/// top edge, and the gap under the shorter one is transparent (all four
/// channel bytes zero).
pub open spec fn appended_h(a: ImgView, b: ImgView) -> ImgView {
    let w2 = a.width + b.width;
    let h2 = if a.height >= b.height { a.height } else { b.height };
    ImgView {
        width: w2,
        height: h2,
        data: Seq::new(
            (4 * w2 * h2) as nat,
            |i: int| {
                let x = ImgView::col_of(w2, i);
                let y = ImgView::row_of(w2, i);
                let c = ImgView::chan_of(i);
                if x < a.width {
                    if y < a.height { a.pix(x, y, c) } else { 0u8 }
                } else {
                    if y < b.height { b.pix(x - a.width, y, c) } else { 0u8 }
                }
            },
        ),
    }
}

/// `a` stacked on `b`, `a` on top; both are anchored at the left edge,
/// and the gap beside the narrower one is transparent (all four channel
/// bytes zero).
pub open spec fn appended_v(a: ImgView, b: ImgView) -> ImgView {
    let w2 = if a.width >= b.width { a.width } else { b.width };
    let h2 = a.height + b.height;
    ImgView {
        width: w2,
        height: h2,
        data: Seq::new(
            (4 * w2 * h2) as nat,
            |i: int| {
                let x = ImgView::col_of(w2, i);
                let y = ImgView::row_of(w2, i);
                let c = ImgView::chan_of(i);
                if y < a.height {
                    if x < a.width { a.pix(x, y, c) } else { 0u8 }
                } else {
                    if x < b.width { b.pix(x, y - a.height, c) } else { 0u8 }
                }
            },
        ),
    }
}

/// An in-memory decoded raster image: RGBA, eight bits per channel,
/// row-major.
pub struct Image {
    width: u32,
    height: u32,
    data: Vec<u8>,
}

impl View for Image {
    type V = ImgView;

    closed spec fn view(&self) -> ImgView {
        ImgView { width: self.width as int, height: self.height as int, data: self.data@ }
    }
}

impl Image {
    /// Builds an image from raw RGBA bytes; yields nothing when the buffer
    /// length does not match the dimensions.
    pub fn from_raw(width: u32, height: u32, data: Vec<u8>) -> (r: Option<Image>)
        ensures
            r is Some <==> data@.len() == 4 * (width as int) * (height as int),
            r is Some ==> r->0@ == (ImgView {
                width: width as int,
                height: height as int,
                data: data@,
            }) && r->0@.wf(),
    {
        proof {
            assert(4 * (width as int) * (height as int) <= u128::MAX) by (nonlinear_arith)
                requires width <= u32::MAX, height <= u32::MAX;
        }
        let expected: u128 = 4u128 * (width as u128) * (height as u128);
        if (data.len() as u128) == expected {
            proof {
                assert(4 * (width as int) * (height as int)
                    == (4u128 * (width as u128) * (height as u128)) as int) by (nonlinear_arith);
            }
            Some(Image { width, height, data })
        } else {
            proof {
                assert(4 * (width as int) * (height as int)
                    == (4u128 * (width as u128) * (height as u128)) as int) by (nonlinear_arith);
            }
            None
        }
    }

    pub fn width(&self) -> (r: u32)
        ensures
            r as int == self@.width,
    {
        self.width
    }

    pub fn height(&self) -> (r: u32)
        ensures
            r as int == self@.height,
    {
        self.height
    }

    /// The raw RGBA buffer, row-major.
    pub fn bytes(&self) -> (r: &Vec<u8>)
        ensures
            r@ == self@.data,
    {
        &self.data
    }

    /// The four channel values of the pixel at column `x`, row `y`.
    pub fn pixel(&self, x: u32, y: u32) -> (r: (u8, u8, u8, u8))
        requires
            self@.wf(),
            (x as int) < self@.width,
            (y as int) < self@.height,
        ensures
            r.0 == self@.pix(x as int, y as int, 0),
            r.1 == self@.pix(x as int, y as int, 1),
            r.2 == self@.pix(x as int, y as int, 2),
            r.3 == self@.pix(x as int, y as int, 3),
    {
        let n = self.data.len();
        proof {
            lemma_flat_recompose(self@.width, self@.height, x as int, y as int, 0);
            lemma_flat_recompose(self@.width, self@.height, x as int, y as int, 3);
            assert((y as int) * (self@.width) + (x as int)
                == (y as usize) * (self.width as usize) + (x as usize));
        }
        let base: usize = 4 * ((y as usize) * (self.width as usize) + (x as usize));
        (self.data[base], self.data[base + 1], self.data[base + 2], self.data[base + 3])
    }

    /// An image with the same dimensions and buffer as this one.
    pub fn duplicate(&self) -> (r: Image)
        ensures
            r@ == self@,
    {
        let n = self.data.len();
        let mut out: Vec<u8> = Vec::new();
        let mut i: usize = 0;
        while i < n
            invariant
                n == self@.data.len(),
                i <= n,
                out@.len() == i as int,
                forall|j: int| 0 <= j < i as int ==> out@[j] == self@.data[j],
            decreases n - i,
        {
            out.push(self.data[i]);
            i = i + 1;
        }
        let r = Image { width: self.width, height: self.height, data: out };
        proof {
            assert(r@.data =~= self@.data);
        }
        r
    }

    /// Appends the four channel bytes of the pixel at column `sx`, row
    /// `sy` of `src` to `out`.
    fn push_px(out: &mut Vec<u8>, src: &Image, sx: u32, sy: u32)
        requires
            src@.wf(),
            (sx as int) < src@.width,
            (sy as int) < src@.height,
        ensures
            final(out)@.len() == old(out)@.len() + 4,
            forall|j: int|
                old(out)@.len() <= j < old(out)@.len() + 4 ==> #[trigger] final(out)@[j]
                    == src@.pix(sx as int, sy as int, j - old(out)@.len()),
            forall|j: int| 0 <= j < old(out)@.len() ==> #[trigger] final(out)@[j] == old(out)@[j],
    {
        let n = src.data.len();
        proof {
            lemma_flat_recompose(src@.width, src@.height, sx as int, sy as int, 0);
            lemma_flat_recompose(src@.width, src@.height, sx as int, sy as int, 3);
            assert((sy as int) * (src@.width) + (sx as int)
                == (sy as usize) * (src.width as usize) + (sx as usize));
        }
        let base: usize = 4 * ((sy as usize) * (src.width as usize) + (sx as usize));
        out.push(src.data[base]);
        out.push(src.data[base + 1]);
        out.push(src.data[base + 2]);
        out.push(src.data[base + 3]);
    }

    /// Mirrors the image across the vertical axis.
    pub fn flip_horizontal(&self) -> (r: Image)
        requires
            self@.wf(),
        ensures
            r@ == flipped_h(self@),
            r@.wf(),
    {
        let w = self.width;
        let h = self.height;
        let mut out: Vec<u8> = Vec::new();
        let mut y: u32 = 0;
        while y < h
            invariant
                self@.wf(),
                w as int == self@.width,
                h as int == self@.height,
                y <= h,
                out@.len() == 4 * ((y as int) * (w as int)),
                forall|j: int| 0 <= j < out@.len() ==> out@[j] == flipped_h(self@).data[j],
            decreases h - y,
        {
            let mut x: u32 = 0;
            while x < w
                invariant
                    self@.wf(),
                    w as int == self@.width,
                    h as int == self@.height,
                    y < h,
                    x <= w,
                    out@.len() == 4 * ((y as int) * (w as int) + (x as int)),
                    forall|j: int| 0 <= j < out@.len() ==> out@[j] == flipped_h(self@).data[j],
                decreases w - x,
            {
                let ghost len0 = out@.len() as int;
                Self::push_px(&mut out, self, w - 1 - x, y);
                proof {
                    assert forall|j: int| len0 <= j < len0 + 4 implies #[trigger] out@[j]
                        == flipped_h(self@).data[j] by {
                        let c = j - len0;
                        lemma_flat_recompose(w as int, h as int, x as int, y as int, c);
                        assert(j == ImgView::flat_index(w as int, x as int, y as int, c));
                        assert(flipped_h(self@).data[j]
                            == self@.pix(w as int - 1 - x as int, y as int, c));
                    }
                }
                x = x + 1;
            }
            y = y + 1;
            proof {
                assert(4 * (((y - 1) as int) * (w as int) + (w as int)) == 4 * ((y as int) * (w
                    as int))) by (nonlinear_arith);
            }
        }
        let r = Image { width: w, height: h, data: out };
        proof {
            assert(4 * ((h as int) * (w as int)) == 4 * (w as int) * (h as int))
                by (nonlinear_arith);
            assert(r@.data =~= flipped_h(self@).data);
        }
        r
    }

    /// Mirrors the image across the horizontal axis.
    pub fn flip_vertical(&self) -> (r: Image)
        requires
            self@.wf(),
        ensures
            r@ == flipped_v(self@),
            r@.wf(),
    {
        let w = self.width;
        let h = self.height;
        let mut out: Vec<u8> = Vec::new();
        let mut y: u32 = 0;
        while y < h
            invariant
                self@.wf(),
                w as int == self@.width,
                h as int == self@.height,
                y <= h,
                out@.len() == 4 * ((y as int) * (w as int)),
                forall|j: int| 0 <= j < out@.len() ==> out@[j] == flipped_v(self@).data[j],
            decreases h - y,
        {
            let mut x: u32 = 0;
            while x < w
                invariant
                    self@.wf(),
                    w as int == self@.width,
                    h as int == self@.height,
                    y < h,
                    x <= w,
                    out@.len() == 4 * ((y as int) * (w as int) + (x as int)),
                    forall|j: int| 0 <= j < out@.len() ==> out@[j] == flipped_v(self@).data[j],
                decreases w - x,
            {
                let ghost len0 = out@.len() as int;
                Self::push_px(&mut out, self, x, h - 1 - y);
                proof {
                    assert forall|j: int| len0 <= j < len0 + 4 implies #[trigger] out@[j]
                        == flipped_v(self@).data[j] by {
                        let c = j - len0;
                        lemma_flat_recompose(w as int, h as int, x as int, y as int, c);
                        assert(j == ImgView::flat_index(w as int, x as int, y as int, c));
                        assert(flipped_v(self@).data[j]
                            == self@.pix(x as int, h as int - 1 - y as int, c));
                    }
                }
                x = x + 1;
            }
            y = y + 1;
            proof {
                assert(4 * (((y - 1) as int) * (w as int) + (w as int)) == 4 * ((y as int) * (w
                    as int))) by (nonlinear_arith);
            }
        }
        let r = Image { width: w, height: h, data: out };
        proof {
            assert(4 * ((h as int) * (w as int)) == 4 * (w as int) * (h as int))
                by (nonlinear_arith);
            assert(r@.data =~= flipped_v(self@).data);
        }
        r
    }

    /// Appends four transparent channel bytes to `out`.
    fn push_pad(out: &mut Vec<u8>)
        ensures
            final(out)@.len() == old(out)@.len() + 4,
            forall|j: int|
                old(out)@.len() <= j < old(out)@.len() + 4 ==> #[trigger] final(out)@[j] == 0u8,
            forall|j: int| 0 <= j < old(out)@.len() ==> #[trigger] final(out)@[j] == old(out)@[j],
    {
        out.push(0);
        out.push(0);
        out.push(0);
        out.push(0);
    }

    /// Turns the image a quarter turn counter-clockwise.
    pub fn rotate_left(&self) -> (r: Image)
        requires
            self@.wf(),
        ensures
            r@ == rotated_left(self@),
            r@.wf(),
    {
        let w = self.width;
        let h = self.height;
        let w2 = h;
        let h2 = w;
        let mut out: Vec<u8> = Vec::new();
        let mut y: u32 = 0;
        while y < h2
            invariant
                self@.wf(),
                w as int == self@.width,
                h as int == self@.height,
                w2 == h && h2 == w,
                y <= h2,
                out@.len() == 4 * ((y as int) * (w2 as int)),
                forall|j: int| 0 <= j < out@.len() ==> out@[j] == rotated_left(self@).data[j],
            decreases h2 - y,
        {
            let mut x: u32 = 0;
            while x < w2
                invariant
                    self@.wf(),
                    w as int == self@.width,
                    h as int == self@.height,
                    w2 == h && h2 == w,
                    y < h2,
                    x <= w2,
                    out@.len() == 4 * ((y as int) * (w2 as int) + (x as int)),
                    forall|j: int| 0 <= j < out@.len() ==> out@[j] == rotated_left(self@).data[j],
                decreases w2 - x,
            {
                let ghost len0 = out@.len() as int;
                Self::push_px(&mut out, self, w - 1 - y, x);
                proof {
                    assert forall|j: int| len0 <= j < len0 + 4 implies #[trigger] out@[j]
                        == rotated_left(self@).data[j] by {
                        let c = j - len0;
                        lemma_flat_recompose(w2 as int, h2 as int, x as int, y as int, c);
                        assert(j == ImgView::flat_index(w2 as int, x as int, y as int, c));
                        assert(rotated_left(self@).data[j]
                            == self@.pix(w as int - 1 - y as int, x as int, c));
                    }
                }
                x = x + 1;
            }
            y = y + 1;
            proof {
                assert(4 * (((y - 1) as int) * (w2 as int) + (w2 as int)) == 4 * ((y as int) * (
                w2 as int))) by (nonlinear_arith);
            }
        }
        let r = Image { width: w2, height: h2, data: out };
        proof {
            assert(4 * ((h2 as int) * (w2 as int)) == 4 * (w2 as int) * (h2 as int))
                by (nonlinear_arith);
            assert(r@.data =~= rotated_left(self@).data);
        }
        r
    }

    /// Turns the image a quarter turn clockwise.
    pub fn rotate_right(&self) -> (r: Image)
        requires
            self@.wf(),
        ensures
            r@ == rotated_right(self@),
            r@.wf(),
    {
        let w = self.width;
        let h = self.height;
        let w2 = h;
        let h2 = w;
        let mut out: Vec<u8> = Vec::new();
        let mut y: u32 = 0;
        while y < h2
            invariant
                self@.wf(),
                w as int == self@.width,
                h as int == self@.height,
                w2 == h && h2 == w,
                y <= h2,
                out@.len() == 4 * ((y as int) * (w2 as int)),
                forall|j: int| 0 <= j < out@.len() ==> out@[j] == rotated_right(self@).data[j],
            decreases h2 - y,
        {
            let mut x: u32 = 0;
            while x < w2
                invariant
                    self@.wf(),
                    w as int == self@.width,
                    h as int == self@.height,
                    w2 == h && h2 == w,
                    y < h2,
                    x <= w2,
                    out@.len() == 4 * ((y as int) * (w2 as int) + (x as int)),
                    forall|j: int| 0 <= j < out@.len() ==> out@[j] == rotated_right(self@).data[j],
                decreases w2 - x,
            {
                let ghost len0 = out@.len() as int;
                Self::push_px(&mut out, self, y, h - 1 - x);
                proof {
                    assert forall|j: int| len0 <= j < len0 + 4 implies #[trigger] out@[j]
                        == rotated_right(self@).data[j] by {
                        let c = j - len0;
                        lemma_flat_recompose(w2 as int, h2 as int, x as int, y as int, c);
                        assert(j == ImgView::flat_index(w2 as int, x as int, y as int, c));
                        assert(rotated_right(self@).data[j]
                            == self@.pix(y as int, h as int - 1 - x as int, c));
                    }
                }
                x = x + 1;
            }
            y = y + 1;
            proof {
                assert(4 * (((y - 1) as int) * (w2 as int) + (w2 as int)) == 4 * ((y as int) * (
                w2 as int))) by (nonlinear_arith);
            }
        }
        let r = Image { width: w2, height: h2, data: out };
        proof {
            assert(4 * ((h2 as int) * (w2 as int)) == 4 * (w2 as int) * (h2 as int))
                by (nonlinear_arith);
            assert(r@.data =~= rotated_right(self@).data);
        }
        r
    }

    /// Turns the image a half turn.
    pub fn rotate_down(&self) -> (r: Image)
        requires
            self@.wf(),
        ensures
            r@ == rotated_down(self@),
            r@.wf(),
    {
        let w = self.width;
        let h = self.height;
        let mut out: Vec<u8> = Vec::new();
        let mut y: u32 = 0;
        while y < h
            invariant
                self@.wf(),
                w as int == self@.width,
                h as int == self@.height,
                y <= h,
                out@.len() == 4 * ((y as int) * (w as int)),
                forall|j: int| 0 <= j < out@.len() ==> out@[j] == rotated_down(self@).data[j],
            decreases h - y,
        {
            let mut x: u32 = 0;
            while x < w
                invariant
                    self@.wf(),
                    w as int == self@.width,
                    h as int == self@.height,
                    y < h,
                    x <= w,
                    out@.len() == 4 * ((y as int) * (w as int) + (x as int)),
                    forall|j: int| 0 <= j < out@.len() ==> out@[j] == rotated_down(self@).data[j],
                decreases w - x,
            {
                let ghost len0 = out@.len() as int;
                Self::push_px(&mut out, self, w - 1 - x, h - 1 - y);
                proof {
                    assert forall|j: int| len0 <= j < len0 + 4 implies #[trigger] out@[j]
                        == rotated_down(self@).data[j] by {
                        let c = j - len0;
                        lemma_flat_recompose(w as int, h as int, x as int, y as int, c);
                        assert(j == ImgView::flat_index(w as int, x as int, y as int, c));
                        assert(rotated_down(self@).data[j]
                            == self@.pix(w as int - 1 - x as int, h as int - 1 - y as int, c));
                    }
                }
                x = x + 1;
            }
            y = y + 1;
            proof {
                assert(4 * (((y - 1) as int) * (w as int) + (w as int)) == 4 * ((y as int) * (w
                    as int))) by (nonlinear_arith);
            }
        }
        let r = Image { width: w, height: h, data: out };
        proof {
            assert(4 * ((h as int) * (w as int)) == 4 * (w as int) * (h as int))
                by (nonlinear_arith);
            assert(r@.data =~= rotated_down(self@).data);
        }
        r
    }

    /// Extracts the sub-rectangle at origin `(cx, cy)` with extent
    /// `cw × ch`; a rectangle that exceeds the image bounds is clamped to
    /// them.
    pub fn crop(&self, cx: u32, cy: u32, cw: u32, ch: u32) -> (r: Image)
        requires
            self@.wf(),
        ensures
            r@ == cropped(self@, cx as int, cy as int, cw as int, ch as int),
            r@.wf(),
    {
        let w = self.width;
        let h = self.height;
        let x0 = if cx <= w { cx } else { w };
        let y0 = if cy <= h { cy } else { h };
        let w2 = if cw <= w - x0 { cw } else { w - x0 };
        let h2 = if ch <= h - y0 { ch } else { h - y0 };
        let ghost target = cropped(self@, cx as int, cy as int, cw as int, ch as int);
        proof {
            assert(target.width == w2 as int && target.height == h2 as int);
        }
        let mut out: Vec<u8> = Vec::new();
        let mut y: u32 = 0;
        while y < h2
            invariant
                self@.wf(),
                w as int == self@.width,
                h as int == self@.height,
                x0 as int == at_most(self@.width, cx as int),
                y0 as int == at_most(self@.height, cy as int),
                w2 as int == at_most(self@.width - x0 as int, cw as int),
                h2 as int == at_most(self@.height - y0 as int, ch as int),
                target == cropped(self@, cx as int, cy as int, cw as int, ch as int),
                target.width == w2 as int && target.height == h2 as int,
                y <= h2,
                out@.len() == 4 * ((y as int) * (w2 as int)),
                forall|j: int| 0 <= j < out@.len() ==> out@[j] == target.data[j],
            decreases h2 - y,
        {
            let mut x: u32 = 0;
            while x < w2
                invariant
                    self@.wf(),
                    w as int == self@.width,
                    h as int == self@.height,
                    x0 as int == at_most(self@.width, cx as int),
                    y0 as int == at_most(self@.height, cy as int),
                    w2 as int == at_most(self@.width - x0 as int, cw as int),
                    h2 as int == at_most(self@.height - y0 as int, ch as int),
                    target == cropped(self@, cx as int, cy as int, cw as int, ch as int),
                    target.width == w2 as int && target.height == h2 as int,
                    y < h2,
                    x <= w2,
                    out@.len() == 4 * ((y as int) * (w2 as int) + (x as int)),
                    forall|j: int| 0 <= j < out@.len() ==> out@[j] == target.data[j],
                decreases w2 - x,
            {
                let ghost len0 = out@.len() as int;
                Self::push_px(&mut out, self, x0 + x, y0 + y);
                proof {
                    assert forall|j: int| len0 <= j < len0 + 4 implies #[trigger] out@[j]
                        == target.data[j] by {
                        let c = j - len0;
                        lemma_flat_recompose(w2 as int, h2 as int, x as int, y as int, c);
                        assert(j == ImgView::flat_index(w2 as int, x as int, y as int, c));
                        assert(target.data[j]
                            == self@.pix(x0 as int + x as int, y0 as int + y as int, c));
                    }
                }
                x = x + 1;
            }
            y = y + 1;
            proof {
                assert(4 * (((y - 1) as int) * (w2 as int) + (w2 as int)) == 4 * ((y as int) * (
                w2 as int))) by (nonlinear_arith);
            }
        }
        let r = Image { width: w2, height: h2, data: out };
        proof {
            assert(4 * ((h2 as int) * (w2 as int)) == 4 * (w2 as int) * (h2 as int))
                by (nonlinear_arith);
            assert(r@.data =~= target.data);
        }
        r
    }

    /// Additive brightness shift: `d` is added to every color channel,
    /// clamped to the channel range; alpha is untouched.
    pub fn brighten(&self, d: i32) -> (r: Image)
        requires
            self@.wf(),
        ensures
            r@ == brightened(self@, d as int),
            r@.wf(),
    {
        let n = self.data.len();
        let mut out: Vec<u8> = Vec::new();
        let mut i: usize = 0;
        while i < n
            invariant
                self@.wf(),
                n == self@.data.len(),
                i <= n,
                out@.len() == i as int,
                forall|j: int| 0 <= j < i as int ==> out@[j] == brightened(self@, d as int).data[j],
            decreases n - i,
        {
            let b = self.data[i];
            let nb = if i % 4 == 3 {
                b
            } else {
                let t: i64 = b as i64 + d as i64;
                if t < 0 {
                    0
                } else if t > 255 {
                    255
                } else {
                    t as u8
                }
            };
            proof {
                assert(ImgView::chan_of(i as int) == (i % 4) as int);
            }
            out.push(nb);
            i = i + 1;
        }
        let r = Image { width: self.width, height: self.height, data: out };
        proof {
            assert(r@.data =~= brightened(self@, d as int).data);
        }
        r
    }

    /// Concatenates `a` and `b` side by side, `a` on the left, both
    /// anchored at the top edge, the gap under the shorter one filled
    /// with transparent pixels; yields nothing when the combined canvas
    /// is not addressable on this machine.
    pub fn append_horizontal(a: &Image, b: &Image) -> (r: Option<Image>)
        requires
            a@.wf(),
            b@.wf(),
        ensures
            r is Some <==> (appended_h(a@, b@).width <= u32::MAX && appended_h(a@, b@).data.len()
                <= usize::MAX),
            r is Some ==> r->0@ == appended_h(a@, b@) && r->0@.wf(),
    {
        let ghost target = appended_h(a@, b@);
        let w2_wide: u64 = a.width as u64 + b.width as u64;
        let h2: u32 = if a.height >= b.height {
            a.height
        } else {
            b.height
        };
        proof {
            assert(4 * (w2_wide as int) * (h2 as int) <= u128::MAX) by (nonlinear_arith)
                requires w2_wide <= u64::MAX, h2 <= u32::MAX;
        }
        let total: u128 = 4u128 * (w2_wide as u128) * (h2 as u128);
        proof {
            assert(total as int == 4 * (a@.width + b@.width) * (h2 as int) && 4 * (a@.width
                + b@.width) * (h2 as int) >= 0) by (nonlinear_arith)
                requires
                    total == 4u128 * (w2_wide as u128) * (h2 as u128),
                    w2_wide as int == a@.width + b@.width,
                    0 <= w2_wide <= u64::MAX,
                    0 <= h2 <= u32::MAX,
            ;
            assert(target.data.len() == 4 * (a@.width + b@.width) * (h2 as int));
        }
        if w2_wide > u32::MAX as u64 || total > usize::MAX as u128 {
            return None;
        }
        let w2: u32 = w2_wide as u32;
        let aw = a.width;
        let mut out: Vec<u8> = Vec::new();
        let mut y: u32 = 0;
        while y < h2
            invariant
                a@.wf(),
                b@.wf(),
                aw as int == a@.width,
                w2 as int == a@.width + b@.width,
                h2 as int == (if a@.height >= b@.height { a@.height } else { b@.height }),
                target == appended_h(a@, b@),
                y <= h2,
                out@.len() == 4 * ((y as int) * (w2 as int)),
                forall|j: int| 0 <= j < out@.len() ==> out@[j] == target.data[j],
            decreases h2 - y,
        {
            let mut x: u32 = 0;
            while x < w2
                invariant
                    a@.wf(),
                    b@.wf(),
                    aw as int == a@.width,
                    w2 as int == a@.width + b@.width,
                    h2 as int == (if a@.height >= b@.height { a@.height } else { b@.height }),
                    target == appended_h(a@, b@),
                    y < h2,
                    x <= w2,
                    out@.len() == 4 * ((y as int) * (w2 as int) + (x as int)),
                    forall|j: int| 0 <= j < out@.len() ==> out@[j] == target.data[j],
                decreases w2 - x,
            {
                let ghost len0 = out@.len() as int;
                if x < aw {
                    if y < a.height {
                        Self::push_px(&mut out, a, x, y);
                    } else {
                        Self::push_pad(&mut out);
                    }
                } else {
                    if y < b.height {
                        Self::push_px(&mut out, b, x - aw, y);
                    } else {
                        Self::push_pad(&mut out);
                    }
                }
                proof {
                    assert forall|j: int| len0 <= j < len0 + 4 implies #[trigger] out@[j]
                        == target.data[j] by {
                        let c = j - len0;
                        lemma_flat_recompose(w2 as int, h2 as int, x as int, y as int, c);
                        assert(j == ImgView::flat_index(w2 as int, x as int, y as int, c));
                    }
                }
                x = x + 1;
            }
            y = y + 1;
            proof {
                assert(4 * (((y - 1) as int) * (w2 as int) + (w2 as int)) == 4 * ((y as int) * (
                w2 as int))) by (nonlinear_arith);
            }
        }
        let r = Image { width: w2, height: h2, data: out };
        proof {
            assert(4 * ((h2 as int) * (w2 as int)) == 4 * (w2 as int) * (h2 as int))
                by (nonlinear_arith);
            assert(r@.data =~= target.data);
        }
        Some(r)
    }

    /// Concatenates `a` and `b` stacked, `a` on top, both anchored at the
    /// left edge, the gap beside the narrower one filled with transparent
    /// pixels; yields nothing when the combined canvas is not addressable
    /// on this machine.
    pub fn append_vertical(a: &Image, b: &Image) -> (r: Option<Image>)
        requires
            a@.wf(),
            b@.wf(),
        ensures
            r is Some <==> (appended_v(a@, b@).height <= u32::MAX && appended_v(a@, b@).data.len()
                <= usize::MAX),
            r is Some ==> r->0@ == appended_v(a@, b@) && r->0@.wf(),
    {
        let ghost target = appended_v(a@, b@);
        let h2_wide: u64 = a.height as u64 + b.height as u64;
        let w2: u32 = if a.width >= b.width {
            a.width
        } else {
            b.width
        };
        proof {
            assert(4 * (w2 as int) * (h2_wide as int) <= u128::MAX) by (nonlinear_arith)
                requires h2_wide <= u64::MAX, w2 <= u32::MAX;
        }
        let total: u128 = 4u128 * (w2 as u128) * (h2_wide as u128);
        proof {
            assert(total as int == 4 * (w2 as int) * (a@.height + b@.height) && 4 * (w2 as int) * (
            a@.height + b@.height) >= 0) by (nonlinear_arith)
                requires
                    total == 4u128 * (w2 as u128) * (h2_wide as u128),
                    h2_wide as int == a@.height + b@.height,
                    0 <= h2_wide <= u64::MAX,
                    0 <= w2 <= u32::MAX,
            ;
            assert(target.data.len() == 4 * (w2 as int) * (a@.height + b@.height));
        }
        if h2_wide > u32::MAX as u64 || total > usize::MAX as u128 {
            return None;
        }
        let h2: u32 = h2_wide as u32;
        let ah = a.height;
        let mut out: Vec<u8> = Vec::new();
        let mut y: u32 = 0;
        while y < h2
            invariant
                a@.wf(),
                b@.wf(),
                ah as int == a@.height,
                h2 as int == a@.height + b@.height,
                w2 as int == (if a@.width >= b@.width { a@.width } else { b@.width }),
                target == appended_v(a@, b@),
                y <= h2,
                out@.len() == 4 * ((y as int) * (w2 as int)),
                forall|j: int| 0 <= j < out@.len() ==> out@[j] == target.data[j],
            decreases h2 - y,
        {
            let mut x: u32 = 0;
            while x < w2
                invariant
                    a@.wf(),
                    b@.wf(),
                    ah as int == a@.height,
                    h2 as int == a@.height + b@.height,
                    w2 as int == (if a@.width >= b@.width { a@.width } else { b@.width }),
                    target == appended_v(a@, b@),
                    y < h2,
                    x <= w2,
                    out@.len() == 4 * ((y as int) * (w2 as int) + (x as int)),
                    forall|j: int| 0 <= j < out@.len() ==> out@[j] == target.data[j],
                decreases w2 - x,
            {
                let ghost len0 = out@.len() as int;
                if y < ah {
                    if x < a.width {
                        Self::push_px(&mut out, a, x, y);
                    } else {
                        Self::push_pad(&mut out);
                    }
                } else {
                    if x < b.width {
                        Self::push_px(&mut out, b, x, y - ah);
                    } else {
                        Self::push_pad(&mut out);
                    }
                }
                proof {
                    assert forall|j: int| len0 <= j < len0 + 4 implies #[trigger] out@[j]
                        == target.data[j] by {
                        let c = j - len0;
                        lemma_flat_recompose(w2 as int, h2 as int, x as int, y as int, c);
                        assert(j == ImgView::flat_index(w2 as int, x as int, y as int, c));
                    }
                }
                x = x + 1;
            }
            y = y + 1;
            proof {
                assert(4 * (((y - 1) as int) * (w2 as int) + (w2 as int)) == 4 * ((y as int) * (
                w2 as int))) by (nonlinear_arith);
            }
        }
        let r = Image { width: w2, height: h2, data: out };
        proof {
            assert(4 * ((h2 as int) * (w2 as int)) == 4 * (w2 as int) * (h2 as int))
                by (nonlinear_arith);
            assert(r@.data =~= target.data);
        }
        Some(r)
    }

    /// Per-pixel color inversion: each color channel value `v` becomes
    /// `255 - v`; alpha is untouched.
    pub fn invert(&self) -> (r: Image)
        requires
            self@.wf(),
        ensures
            r@ == inverted(self@),
            r@.wf(),
    {
        let n = self.data.len();
        let mut out: Vec<u8> = Vec::new();
        let mut i: usize = 0;
        while i < n
            invariant
                self@.wf(),
                n == self@.data.len(),
                i <= n,
                out@.len() == i as int,
                forall|j: int| 0 <= j < i as int ==> out@[j] == inverted(self@).data[j],
            decreases n - i,
        {
            let b = self.data[i];
            let nb = if i % 4 == 3 { b } else { 255 - b };
            proof {
                assert(ImgView::chan_of(i as int) == (i % 4) as int);
            }
            out.push(nb);
            i = i + 1;
        }
        let r = Image { width: self.width, height: self.height, data: out };
        proof {
            assert(r@.data =~= inverted(self@).data);
        }
        r
    }
}

} // verus!
