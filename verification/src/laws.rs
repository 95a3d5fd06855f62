use crate::raster::{
    cropped, flipped_h, flipped_v, inverted, lemma_flat_decompose, lemma_flat_recompose,
    rotated_down, rotated_left, ImgView,
};
use vstd::prelude::*;

verus! {

/// Inverting the colors of an image twice restores every pixel of the
/// original.
pub proof fn lemma_invert_involution(v: ImgView)
    requires
        v.wf(),
    ensures
        inverted(inverted(v)) == v,
{
    let a = inverted(v);
    let b = inverted(a);
    assert forall|i: int| 0 <= i < v.data.len() implies b.data[i] == v.data[i] by {
        if ImgView::chan_of(i) == 3 {
            assert(b.data[i] == a.data[i] && a.data[i] == v.data[i]);
        } else {
            assert(a.data[i] == (255 - v.data[i]) as u8);
            assert(b.data[i] == (255 - a.data[i]) as u8);
        }
    }
    assert(b.data =~= v.data);
    assert(b =~= v);
}

/// Flipping an image across the vertical axis twice restores the
/// original buffer.
pub proof fn lemma_flip_horizontal_involution(v: ImgView)
    requires
        v.wf(),
    ensures
        flipped_h(flipped_h(v)) == v,
{
    let w = v.width;
    let h = v.height;
    let a = flipped_h(v);
    let b = flipped_h(a);
    assert forall|i: int| 0 <= i < v.data.len() implies b.data[i] == v.data[i] by {
        assert(0 < w) by (nonlinear_arith)
            requires 0 <= w, 0 <= h, 0 <= i < 4 * w * h;
        lemma_flat_decompose(w, h, i);
        let x = ImgView::col_of(w, i);
        let y = ImgView::row_of(w, i);
        let c = ImgView::chan_of(i);
        assert(b.data[i] == a.pix(w - 1 - x, y, c));
        lemma_flat_recompose(w, h, w - 1 - x, y, c);
        let j = ImgView::flat_index(w, w - 1 - x, y, c);
        assert(a.pix(w - 1 - x, y, c) == a.data[j]);
        assert(a.data[j] == v.pix(x, y, c));
        assert(v.pix(x, y, c) == v.data[i]);
    }
    assert(b.data =~= v.data);
    assert(b =~= v);
}

/// Flipping an image across the horizontal axis twice restores the
/// original buffer.
pub proof fn lemma_flip_vertical_involution(v: ImgView)
    requires
        v.wf(),
    ensures
        flipped_v(flipped_v(v)) == v,
{
    let w = v.width;
    let h = v.height;
    let a = flipped_v(v);
    let b = flipped_v(a);
    assert forall|i: int| 0 <= i < v.data.len() implies b.data[i] == v.data[i] by {
        assert(0 < w) by (nonlinear_arith)
            requires 0 <= w, 0 <= h, 0 <= i < 4 * w * h;
        lemma_flat_decompose(w, h, i);
        let x = ImgView::col_of(w, i);
        let y = ImgView::row_of(w, i);
        let c = ImgView::chan_of(i);
        assert(b.data[i] == a.pix(x, h - 1 - y, c));
        lemma_flat_recompose(w, h, x, h - 1 - y, c);
        let j = ImgView::flat_index(w, x, h - 1 - y, c);
        assert(a.pix(x, h - 1 - y, c) == a.data[j]);
        assert(a.data[j] == v.pix(x, y, c));
        assert(v.pix(x, y, c) == v.data[i]);
    }
    assert(b.data =~= v.data);
    assert(b =~= v);
}

/// A quarter turn counter-clockwise applied twice is the half turn.
pub proof fn lemma_rotate_left_twice(v: ImgView)
    requires
        v.wf(),
    ensures
        rotated_left(rotated_left(v)) == rotated_down(v),
{
    let w = v.width;
    let h = v.height;
    let a = rotated_left(v);
    let b = rotated_left(a);
    let d = rotated_down(v);
    assert(4 * w * h >= 0) by (nonlinear_arith)
        requires 0 <= w, 0 <= h;
    assert(b.data.len() == 4 * w * h && d.data.len() == 4 * w * h);
    assert forall|i: int| 0 <= i < d.data.len() implies b.data[i] == d.data[i] by {
        assert(0 < w && 0 < h) by (nonlinear_arith)
            requires 0 <= w, 0 <= h, 0 <= i < 4 * w * h;
        lemma_flat_decompose(w, h, i);
        let x = ImgView::col_of(w, i);
        let y = ImgView::row_of(w, i);
        let c = ImgView::chan_of(i);
        assert(b.data[i] == a.pix(h - 1 - y, x, c));
        lemma_flat_recompose(h, w, h - 1 - y, x, c);
        let j = ImgView::flat_index(h, h - 1 - y, x, c);
        assert(a.pix(h - 1 - y, x, c) == a.data[j]);
        assert(a.data[j] == v.pix(w - 1 - x, h - 1 - y, c));
        assert(d.data[i] == v.pix(w - 1 - x, h - 1 - y, c));
    }
    assert(b.data =~= d.data);
    assert(b =~= d);
}

/// The half turn applied twice restores the original buffer.
pub proof fn lemma_rotate_down_twice(v: ImgView)
    requires
        v.wf(),
    ensures
        rotated_down(rotated_down(v)) == v,
{
    let w = v.width;
    let h = v.height;
    let a = rotated_down(v);
    let b = rotated_down(a);
    assert forall|i: int| 0 <= i < v.data.len() implies b.data[i] == v.data[i] by {
        assert(0 < w && 0 < h) by (nonlinear_arith)
            requires 0 <= w, 0 <= h, 0 <= i < 4 * w * h;
        lemma_flat_decompose(w, h, i);
        let x = ImgView::col_of(w, i);
        let y = ImgView::row_of(w, i);
        let c = ImgView::chan_of(i);
        assert(b.data[i] == a.pix(w - 1 - x, h - 1 - y, c));
        lemma_flat_recompose(w, h, w - 1 - x, h - 1 - y, c);
        let j = ImgView::flat_index(w, w - 1 - x, h - 1 - y, c);
        assert(a.pix(w - 1 - x, h - 1 - y, c) == a.data[j]);
        assert(a.data[j] == v.pix(x, y, c));
        assert(v.pix(x, y, c) == v.data[i]);
    }
    assert(b.data =~= v.data);
    assert(b =~= v);
}

/// A quarter turn counter-clockwise applied four times restores the
/// original dimensions and pixel content.
pub proof fn lemma_rotate_left_four_times(v: ImgView)
    requires
        v.wf(),
    ensures
        rotated_left(rotated_left(rotated_left(rotated_left(v)))) == v,
{
    lemma_rotate_left_twice(v);
    let d = rotated_down(v);
    assert(d.wf()) by {
        assert(4 * v.width * v.height >= 0) by (nonlinear_arith)
            requires 0 <= v.width, 0 <= v.height;
    }
    lemma_rotate_left_twice(d);
    lemma_rotate_down_twice(v);
}

/// Cropping an image at the origin to its own full extent is a no-op.
pub proof fn lemma_crop_full_extent(v: ImgView)
    requires
        v.wf(),
    ensures
        cropped(v, 0, 0, v.width, v.height) == v,
{
    let w = v.width;
    let h = v.height;
    let b = cropped(v, 0, 0, w, h);
    assert(b.width == w && b.height == h);
    assert forall|i: int| 0 <= i < v.data.len() implies b.data[i] == v.data[i] by {
        assert(0 < w) by (nonlinear_arith)
            requires 0 <= w, 0 <= h, 0 <= i < 4 * w * h;
        lemma_flat_decompose(w, h, i);
        let x = ImgView::col_of(w, i);
        let y = ImgView::row_of(w, i);
        let c = ImgView::chan_of(i);
        assert(b.data[i] == v.pix(x, y, c));
        assert(v.pix(x, y, c) == v.data[i]);
    }
    assert(b.data =~= v.data);
    assert(b =~= v);
}

} // verus!
