use vstd::prelude::*;

use vstd::arithmetic::div_mod::{lemma_fundamental_div_mod_converse, lemma_small_mod};

use crate::integral::within_gradient_range;

verus! {

/// The 8-bit intensities `p` widened to 32-bit integers.
pub open spec fn widened(p: Seq<u8>) -> Seq<i32> {
    p.map_values(|v: u8| v as i32)
}

/// Every entry of `img` is an 8-bit intensity.
pub open spec fn is_intensity_image(img: Seq<i32>) -> bool {
    forall|k: int| 0 <= k < img.len() ==> 0 <= #[trigger] img[k] <= 255
}

/// Horizontal gradient at flat index `i` of the row-major image `img` of
/// width `w`: the centered difference inside a row, twice the one-sided
/// difference in its first and last column, and zero in an image one
/// column wide.
pub open spec fn horizontal_gradient(img: Seq<i32>, w: int, i: int) -> int {
    let c = i % w;
    if w == 1 {
        0
    } else if c == 0 {
        2 * (img[i + 1] - img[i])
    } else if c == w - 1 {
        2 * (img[i] - img[i - 1])
    } else {
        img[i + 1] - img[i - 1]
    }
}

/// Vertical gradient at flat index `i` of the row-major image `img` of
/// width `w` and height `h`: the centered difference between the rows
/// above and below, twice the one-sided difference in the first and last
/// row, and zero in an image one row high.
pub open spec fn vertical_gradient(img: Seq<i32>, w: int, h: int, i: int) -> int {
    if h == 1 {
        0
    } else if i < w {
        2 * (img[i + w] - img[i])
    } else if i >= (h - 1) * w {
        2 * (img[i] - img[i - w])
    } else {
        img[i + w] - img[i - w]
    }
}

/// In an image of one row, the horizontal gradient of a pixel inside the
/// row is the difference of its right and left neighbours, and at either
/// end it is twice the difference between the end pixel and its neighbour.
pub proof fn lemma_row_gradient(img: Seq<i32>, w: int)
    requires
        w >= 2,
        img.len() == w,
    ensures
        horizontal_gradient(img, w, 0) == 2 * (img[1] - img[0]),
        horizontal_gradient(img, w, w - 1) == 2 * (img[w - 1] - img[w - 2]),
        forall|c: int|
            1 <= c < w - 1 ==> #[trigger] horizontal_gradient(img, w, c) == img[c + 1] - img[c - 1],
{
    lemma_small_mod(0, w as nat);
    lemma_small_mod((w - 1) as nat, w as nat);
    assert forall|c: int| 1 <= c < w - 1 implies #[trigger] horizontal_gradient(img, w, c) == img[c
        + 1] - img[c - 1] by {
        lemma_small_mod(c as nat, w as nat);
    }
}

/// Copies 8-bit intensities into 32-bit integers.
pub fn widen(pixels: &[u8]) -> (img: Vec<i32>)
    ensures
        img@ == widened(pixels@),
        is_intensity_image(img@),
{
    let mut img: Vec<i32> = Vec::with_capacity(pixels.len());
    let mut i: usize = 0;
    while i < pixels.len()
        invariant
            i <= pixels@.len(),
            img@ =~= widened(pixels@).subrange(0, i as int),
        decreases pixels@.len() - i,
    {
        img.push(pixels[i] as i32);
        i += 1;
    }
    img
}

/// The horizontal gradient of every pixel of `img`.
pub fn compute_grad_x(img: &Vec<i32>, width: usize, height: usize) -> (dx: Vec<i32>)
    requires
        width > 0,
        height > 0,
        img@.len() == width * height,
        is_intensity_image(img@),
    ensures
        dx@.len() == img@.len(),
        forall|i: int| 0 <= i < dx@.len() ==> #[trigger] dx@[i] == horizontal_gradient(img@, width as int, i),
        within_gradient_range(dx@),
{
    let len = img.len();
    let mut dx: Vec<i32> = Vec::with_capacity(len);
    let mut r: usize = 0;
    while r < height
        invariant
            width > 0,
            len == img@.len() == width * height,
            is_intensity_image(img@),
            r <= height,
            dx@.len() == r * width,
            forall|i: int| 0 <= i < dx@.len() ==> #[trigger] dx@[i] == horizontal_gradient(img@, width as int, i),
            within_gradient_range(dx@),
        decreases height - r,
    {
        assert(r * width + width <= width * height && (r + 1) * width == r * width + width)
            by (nonlinear_arith)
            requires
                r < height,
        ;
        let base = r * width;
        let mut c: usize = 0;
        while c < width
            invariant
                width > 0,
                len == img@.len() == width * height,
                is_intensity_image(img@),
                base == r * width,
                base + width <= len,
                c <= width,
                dx@.len() == base + c,
                forall|i: int| 0 <= i < dx@.len() ==> #[trigger] dx@[i] == horizontal_gradient(img@, width as int, i),
                within_gradient_range(dx@),
            decreases width - c,
        {
            let i = base + c;
            proof {
                lemma_fundamental_div_mod_converse(i as int, width as int, r as int, c as int);
            }
            let v = if width == 1 {
                0
            } else if c == 0 {
                (img[i + 1] - img[i]) * 2
            } else if c == width - 1 {
                (img[i] - img[i - 1]) * 2
            } else {
                img[i + 1] - img[i - 1]
            };
            dx.push(v);
            c += 1;
        }
        r += 1;
    }
    assert(dx@.len() == img@.len()) by (nonlinear_arith)
        requires
            dx@.len() == r * width,
            r == height,
            img@.len() == width * height,
    ;
    dx
}

/// The vertical gradient of every pixel of `img`.
pub fn compute_grad_y(img: &Vec<i32>, width: usize, height: usize) -> (dy: Vec<i32>)
    requires
        width > 0,
        height > 0,
        img@.len() == width * height,
        is_intensity_image(img@),
    ensures
        dy@.len() == img@.len(),
        forall|i: int|
            0 <= i < dy@.len() ==> #[trigger] dy@[i] == vertical_gradient(img@, width as int, height as int, i),
        within_gradient_range(dy@),
{
    let len = img.len();
    assert((height - 1) * width + width == len && (height - 1) * width >= 0) by (nonlinear_arith)
        requires
            len == width * height,
            height > 0,
    ;
    assert(height == 1 || (height - 1) * width >= width) by (nonlinear_arith)
        requires
            height > 0,
            width > 0,
    ;
    let last_row = (height - 1) * width;
    let mut dy: Vec<i32> = Vec::with_capacity(len);
    let mut i: usize = 0;
    while i < len
        invariant
            len == img@.len() == width * height,
            is_intensity_image(img@),
            last_row == (height - 1) * width,
            last_row + width == len,
            height == 1 || last_row >= width,
            i <= len,
            dy@.len() == i,
            forall|k: int|
                0 <= k < dy@.len() ==> #[trigger] dy@[k] == vertical_gradient(img@, width as int, height as int, k),
            within_gradient_range(dy@),
        decreases len - i,
    {
        let v = if height == 1 {
            0
        } else if i < width {
            (img[i + width] - img[i]) * 2
        } else if i >= last_row {
            (img[i] - img[i - width]) * 2
        } else {
            img[i + width] - img[i - width]
        };
        dy.push(v);
        i += 1;
    }
    dy
}

} // verus!
