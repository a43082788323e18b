//! Cropping a layer's full-canvas RGBA buffer to its on-canvas bounds.

use vstd::prelude::*;

verus! {

/// The on-canvas part of a layer: offset and size in pixels.
#[derive(Debug, Clone, Copy, PartialEq, Eq, Structural)]
pub struct LayerCrop {
    /// Left edge on the canvas.
    pub x: i32,
    /// Top edge on the canvas.
    pub y: i32,
    /// Width of the visible part.
    pub width: u32,
    /// Height of the visible part.
    pub height: u32,
}

/// The bounds of a layer at (`left`, `top`) of size `width` × `height`,
/// clamped to a `canvas_w` × `canvas_h` canvas; `None` when nothing of the
/// layer lies on the canvas.
pub fn layer_crop(left: i32, top: i32, width: u32, height: u32, canvas_w: u32, canvas_h: u32) -> (r: Option<
    LayerCrop,
>)
    requires
        width <= i32::MAX,
        height <= i32::MAX,
        left + width <= i32::MAX,
        top + height <= i32::MAX,
        canvas_w <= i32::MAX,
        canvas_h <= i32::MAX,
    ensures
        ({
            let x0 = if left > 0 { left as int } else { 0 };
            let y0 = if top > 0 { top as int } else { 0 };
            let x1 = if left + width < canvas_w { left + width } else { canvas_w as int };
            let y1 = if top + height < canvas_h { top + height } else { canvas_h as int };
            if x1 <= x0 || y1 <= y0 {
                r is None
            } else {
                r == Some(LayerCrop { x: x0 as i32, y: y0 as i32, width: (x1 - x0) as u32, height: (y1 - y0) as u32 })
            }
        }),
{
    assert(width as i32 == width && height as i32 == height);
    assert(canvas_w as i32 == canvas_w && canvas_h as i32 == canvas_h);
    let cx0: i32 = if left > 0 { left } else { 0 };
    let cy0: i32 = if top > 0 { top } else { 0 };
    let right: i32 = left + width as i32;
    let bottom: i32 = top + height as i32;
    let cx1: i32 = if right < canvas_w as i32 { right } else { canvas_w as i32 };
    let cy1: i32 = if bottom < canvas_h as i32 { bottom } else { canvas_h as i32 };
    if cx1 <= cx0 || cy1 <= cy0 {
        return None;
    }
    Some(LayerCrop { x: cx0, y: cy0, width: (cx1 - cx0) as u32, height: (cy1 - cy0) as u32 })
}

/// The bytes of a `crop_w` × `crop_h` RGBA rectangle at (`x`, `y`) of a
/// canvas `canvas_w` pixels wide: row by row, each row copied where it lies
/// within `rgba` and zero where it does not.
pub open spec fn cropped_bytes(rgba: Seq<u8>, canvas_w: nat, x: nat, y: nat, crop_w: nat, crop_h: nat) -> Seq<u8> {
    let row_len = crop_w * 4;
    Seq::new(
        row_len * crop_h,
        |k: int|
            {
                let row = k / row_len as int;
                let col = k % row_len as int;
                let src = ((y + row) * canvas_w + x) * 4;
                if src + row_len <= rgba.len() {
                    rgba[src + col]
                } else {
                    0u8
                }
            },
    )
}

/// Copy a `crop_w` × `crop_h` sub-rectangle out of a full-canvas RGBA
/// buffer; rows that fall outside the buffer are left zero.
pub fn crop_rgba(rgba: &[u8], canvas_w: u32, x: u32, y: u32, crop_w: u32, crop_h: u32) -> (r: Vec<u8>)
    requires
        (crop_w as int) * 4 * (crop_h as int) <= usize::MAX,
        y as int + crop_h as int <= usize::MAX,
        ((y as int + crop_h as int) * canvas_w as int + x as int) * 4 + (crop_w as int) * 4 <= usize::MAX,
    ensures
        r@ == cropped_bytes(rgba@, canvas_w as nat, x as nat, y as nat, crop_w as nat, crop_h as nat),
{
    let row_len: usize = crop_w as usize * 4;
    let ghost total = cropped_bytes(rgba@, canvas_w as nat, x as nat, y as nat, crop_w as nat, crop_h as nat);
    let mut out: Vec<u8> = Vec::new();
    let mut row: usize = 0;
    while row < crop_h as usize
        invariant
            row_len == crop_w as int * 4,
            row <= crop_h,
            (crop_w as int) * 4 * (crop_h as int) <= usize::MAX,
            y as int + crop_h as int <= usize::MAX,
            ((y as int + crop_h as int) * canvas_w as int + x as int) * 4 + (crop_w as int) * 4 <= usize::MAX,
            total == cropped_bytes(rgba@, canvas_w as nat, x as nat, y as nat, crop_w as nat, crop_h as nat),
            out@.len() == row * row_len,
            forall|k: int| 0 <= k < out@.len() ==> out@[k] == total[k],
        decreases crop_h - row,
    {
        proof {
            assert((y as int + row as int) * canvas_w as int <= (y as int + crop_h as int) * canvas_w as int) by (nonlinear_arith)
                requires row <= crop_h;
            assert((row as int + 1) * row_len <= crop_h as int * row_len) by (nonlinear_arith)
                requires row < crop_h, row_len >= 0;
            assert(((y as int + row as int) * canvas_w as int + x as int) * 4 + row_len <= usize::MAX);
        }
        let src: usize = ((y as usize + row) * canvas_w as usize + x as usize) * 4;
        let fits = src + row_len <= rgba.len();
        let mut k: usize = 0;
        while k < row_len
            invariant
                row_len == crop_w as int * 4,
                row < crop_h,
                (row as int + 1) * row_len <= crop_h as int * row_len,
                (crop_w as int) * 4 * (crop_h as int) <= usize::MAX,
                src == ((y as int + row as int) * canvas_w as int + x as int) * 4,
                src + row_len <= usize::MAX,
                fits == (src + row_len <= rgba@.len()),
                total == cropped_bytes(rgba@, canvas_w as nat, x as nat, y as nat, crop_w as nat, crop_h as nat),
                k <= row_len,
                out@.len() == row * row_len + k,
                forall|j: int| 0 <= j < out@.len() ==> out@[j] == total[j],
            decreases row_len - k,
        {
            let b: u8 = if fits { rgba[src + k] } else { 0 };
            proof {
                let idx = row * row_len + k;
                assert(idx < crop_h as int * row_len) by (nonlinear_arith)
                    requires idx == row * row_len + k, k < row_len, (row as int + 1) * row_len <= crop_h as int * row_len;
                assert(idx / row_len as int == row as int && idx % row_len as int == k as int) by (nonlinear_arith)
                    requires idx == row * row_len + k, k < row_len, row_len > 0;
                assert(total[idx] == b);
            }
            out.push(b);
            k = k + 1;
        }
        proof {
            assert(row * row_len + row_len == (row + 1) * row_len) by (nonlinear_arith);
        }
        row = row + 1;
    }
    proof {
        assert(out@.len() == total.len()) by (nonlinear_arith)
            requires out@.len() == row * row_len, row == crop_h, total.len() == row_len * crop_h;
        assert(out@ =~= total);
    }
    out
}

} // verus!
