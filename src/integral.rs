use vstd::prelude::*;

use vstd::arithmetic::div_mod::{
    lemma_div_pos_is_pos,
    lemma_fundamental_div_mod,
    lemma_fundamental_div_mod_converse,
    lemma_mod_pos_bound,
};

verus! {

/// Largest magnitude of a gradient of 8-bit intensities: twice the full
/// intensity range.
pub const MAX_ABS_GRADIENT: i32 = 510;

/// Channel `ch` of an interleaved eight-channel image of width `w`, as a
/// function of row and column.
pub open spec fn channel_plane(m: Seq<i32>, w: int, ch: int) -> spec_fn(int, int) -> int {
    |r: int, c: int| m[(r * w + c) * 8 + ch] as int
}

/// The sum of `f(r, c)` over the columns `c0 ..= c1` of row `r`.
pub open spec fn row_sum(f: spec_fn(int, int) -> int, r: int, c0: int, c1: int) -> int
    decreases c1 - c0 + 1,
{
    if c1 < c0 {
        0
    } else {
        row_sum(f, r, c0, c1 - 1) + f(r, c1)
    }
}

/// The sum of `f` over the rectangle of rows `r0 ..= r1` and columns
/// `c0 ..= c1`, row by row.
pub open spec fn rect_sum(f: spec_fn(int, int) -> int, r0: int, r1: int, c0: int, c1: int) -> int
    decreases r1 - r0 + 1,
{
    if r1 < r0 {
        0
    } else {
        rect_sum(f, r0, r1 - 1, c0, c1) + row_sum(f, r1, c0, c1)
    }
}

/// The value of channel `ch` at (`r`, `c`) of an interleaved integral image
/// of width `w`; zero left of the first column and above the first row.
pub open spec fn integral_at(s: Seq<i32>, w: int, r: int, c: int, ch: int) -> int {
    if r < 0 || c < 0 {
        0
    } else {
        s[(r * w + c) * 8 + ch] as int
    }
}

/// `s` is the integral image of the interleaved eight-channel image `m` of
/// size `w` x `h`: each entry is the sum of its channel over the rectangle
/// from the origin to it, both included.
pub open spec fn is_integral_of(s: Seq<i32>, m: Seq<i32>, w: int, h: int) -> bool {
    &&& s.len() == m.len()
    &&& forall|r: int, c: int, ch: int|
        0 <= r < h && 0 <= c < w && 0 <= ch < 8 ==> #[trigger] integral_at(s, w, r, c, ch)
            == rect_sum(channel_plane(m, w, ch), 0, r, 0, c)
}

/// Every entry of `m` is a possible gradient value.
pub open spec fn within_gradient_range(m: Seq<i32>) -> bool {
    forall|k: int| 0 <= k < m.len() ==> -MAX_ABS_GRADIENT <= #[trigger] m[k] <= MAX_ABS_GRADIENT
}

/// The flat entry `j` after the downward pass over rows of `s` entries.
spec fn down(m: Seq<i32>, s: int, j: int) -> int
    decreases j,
{
    if s <= 0 || j < s {
        m[j] as int
    } else {
        down(m, s, j - s) + m[j]
    }
}

/// The flat entry `j` after the downward pass and then the rightward pass,
/// which stays within rows of `s` entries and steps over eight channels.
spec fn across(m: Seq<i32>, s: int, j: int) -> int
    decreases j,
{
    if j < 8 || j % s < 8 {
        down(m, s, j)
    } else {
        across(m, s, j - 8) + down(m, s, j)
    }
}

proof fn lemma_row_split(f: spec_fn(int, int) -> int, r: int, ca: int, cb: int, c1: int)
    requires
        ca <= cb <= c1 + 1,
    ensures
        row_sum(f, r, ca, c1) == row_sum(f, r, ca, cb - 1) + row_sum(f, r, cb, c1),
    decreases c1 - cb + 1,
{
    if c1 >= cb {
        lemma_row_split(f, r, ca, cb, c1 - 1);
    }
}

proof fn lemma_rect_split_cols(
    f: spec_fn(int, int) -> int,
    r0: int,
    r1: int,
    ca: int,
    cb: int,
    c1: int,
)
    requires
        ca <= cb <= c1 + 1,
    ensures
        rect_sum(f, r0, r1, ca, c1) == rect_sum(f, r0, r1, ca, cb - 1) + rect_sum(
            f,
            r0,
            r1,
            cb,
            c1,
        ),
    decreases r1 - r0 + 1,
{
    if r1 >= r0 {
        lemma_rect_split_cols(f, r0, r1 - 1, ca, cb, c1);
        lemma_row_split(f, r1, ca, cb, c1);
    }
}

proof fn lemma_rect_split_rows(
    f: spec_fn(int, int) -> int,
    ra: int,
    rb: int,
    r1: int,
    c0: int,
    c1: int,
)
    requires
        ra <= rb <= r1 + 1,
    ensures
        rect_sum(f, ra, r1, c0, c1) == rect_sum(f, ra, rb - 1, c0, c1) + rect_sum(
            f,
            rb,
            r1,
            c0,
            c1,
        ),
    decreases r1 - rb + 1,
{
    if r1 >= rb {
        lemma_rect_split_rows(f, ra, rb, r1 - 1, c0, c1);
    }
}

proof fn lemma_row_sum_bound(f: spec_fn(int, int) -> int, r: int, c0: int, c1: int, b: int)
    requires
        c0 <= c1 + 1,
        forall|c: int| c0 <= c <= c1 ==> -b <= #[trigger] f(r, c) <= b,
    ensures
        -(b * (c1 - c0 + 1)) <= row_sum(f, r, c0, c1) <= b * (c1 - c0 + 1),
    decreases c1 - c0 + 1,
{
    if c1 >= c0 {
        lemma_row_sum_bound(f, r, c0, c1 - 1, b);
        assert(b * (c1 - c0) + b == b * (c1 - c0 + 1)) by (nonlinear_arith);
        assert(-b <= f(r, c1) <= b);
        assert(row_sum(f, r, c0, c1) == row_sum(f, r, c0, c1 - 1) + f(r, c1));
    } else {
        assert(b * (c1 - c0 + 1) == 0) by (nonlinear_arith)
            requires
                c1 - c0 + 1 == 0,
        ;
    }
}

proof fn lemma_rect_sum_bound(
    f: spec_fn(int, int) -> int,
    r0: int,
    r1: int,
    c0: int,
    c1: int,
    b: int,
)
    requires
        r0 <= r1 + 1,
        c0 <= c1 + 1,
        forall|r: int, c: int| r0 <= r <= r1 && c0 <= c <= c1 ==> -b <= #[trigger] f(r, c) <= b,
    ensures
        -(b * (c1 - c0 + 1) * (r1 - r0 + 1)) <= rect_sum(f, r0, r1, c0, c1) <= b * (c1 - c0 + 1)
            * (r1 - r0 + 1),
    decreases r1 - r0 + 1,
{
    if r1 >= r0 {
        lemma_rect_sum_bound(f, r0, r1 - 1, c0, c1, b);
        assert forall|c: int| c0 <= c <= c1 implies -b <= #[trigger] f(r1, c) <= b by {
            assert(-b <= f(r1, c) <= b);
        }
        lemma_row_sum_bound(f, r1, c0, c1, b);
        let n = c1 - c0 + 1;
        let k = r1 - r0;
        assert(b * n * k + b * n == b * n * (k + 1)) by (nonlinear_arith);
        assert(rect_sum(f, r0, r1, c0, c1) == rect_sum(f, r0, r1 - 1, c0, c1) + row_sum(
            f,
            r1,
            c0,
            c1,
        ));
    } else {
        assert(b * (c1 - c0 + 1) * (r1 - r0 + 1) == 0) by (nonlinear_arith)
            requires
                r1 - r0 + 1 == 0,
        ;
    }
}

/// The sum of a function over a rectangle on which it is zero is zero.
pub proof fn lemma_zero_rect_sum(f: spec_fn(int, int) -> int, r0: int, r1: int, c0: int, c1: int)
    requires
        forall|r: int, c: int| r0 <= r <= r1 && c0 <= c <= c1 ==> #[trigger] f(r, c) == 0,
    ensures
        rect_sum(f, r0, r1, c0, c1) == 0,
    decreases r1 - r0 + 1,
{
    if r1 >= r0 {
        lemma_zero_rect_sum(f, r0, r1 - 1, c0, c1);
        if c0 <= c1 + 1 {
            assert forall|c: int| c0 <= c <= c1 implies -0 <= #[trigger] f(r1, c) <= 0 by {
                assert(f(r1, c) == 0);
            }
            lemma_row_sum_bound(f, r1, c0, c1, 0);
        }
    }
}

/// The flat index `j` of an interleaved image of size `w` x `h` splits into
/// row, column and channel.
proof fn lemma_decompose(j: int, w: int, h: int) -> (rcc: (int, int, int))
    requires
        w > 0,
        h > 0,
        0 <= j < w * h * 8,
    ensures
        0 <= rcc.0 < h,
        0 <= rcc.1 < w,
        0 <= rcc.2 < 8,
        j == (rcc.0 * w + rcc.1) * 8 + rcc.2,
{
    let s = w * 8;
    assert(s > 0);
    lemma_fundamental_div_mod(j, s);
    lemma_mod_pos_bound(j, s);
    lemma_div_pos_is_pos(j, s);
    let r = j / s;
    let rem = j % s;
    let c = rem / 8;
    let ch = rem % 8;
    assert(rem == 8 * c + ch);
    assert(0 <= c < w);
    assert(r < h) by (nonlinear_arith)
        requires
            s * r <= j,
            j < w * h * 8,
            s == w * 8,
            w > 0,
    ;
    assert(j == (r * w + c) * 8 + ch) by (nonlinear_arith)
        requires
            j == s * r + rem,
            rem == 8 * c + ch,
            s == w * 8,
    ;
    (r, c, ch)
}

/// The flat index of (`r`, `c`, `ch`) lies in the image.
proof fn lemma_index_in_range(w: int, h: int, r: int, c: int, ch: int)
    requires
        0 <= r < h,
        0 <= c < w,
        0 <= ch < 8,
    ensures
        0 <= (r * w + c) * 8 + ch < w * h * 8,
{
    assert(0 <= r * w) by (nonlinear_arith)
        requires
            0 <= r,
            0 <= c < w,
    ;
    assert(r * w + c < w * h) by (nonlinear_arith)
        requires
            0 <= r < h,
            0 <= c < w,
    ;
}

proof fn lemma_down(m: Seq<i32>, w: int, h: int, r: int, c: int, ch: int)
    requires
        w > 0,
        m.len() == w * h * 8,
        0 <= r < h,
        0 <= c < w,
        0 <= ch < 8,
    ensures
        down(m, w * 8, (r * w + c) * 8 + ch) == rect_sum(channel_plane(m, w, ch), 0, r, c, c),
    decreases r,
{
    let f = channel_plane(m, w, ch);
    let j = (r * w + c) * 8 + ch;
    lemma_index_in_range(w, h, r, c, ch);
    assert(row_sum(f, r, c, c - 1) == 0);
    assert(row_sum(f, r, c, c) == f(r, c));
    if r == 0 {
        assert(j == c * 8 + ch) by (nonlinear_arith)
            requires
                j == (r * w + c) * 8 + ch,
                r == 0,
        ;
        assert(rect_sum(f, 0, -1, c, c) == 0);
    } else {
        assert(j - w * 8 == ((r - 1) * w + c) * 8 + ch && j >= w * 8) by (nonlinear_arith)
            requires
                j == (r * w + c) * 8 + ch,
                r >= 1,
                w > 0,
                c >= 0,
                ch >= 0,
        ;
        lemma_down(m, w, h, r - 1, c, ch);
    }
}

proof fn lemma_across(m: Seq<i32>, w: int, h: int, r: int, c: int, ch: int)
    requires
        w > 0,
        m.len() == w * h * 8,
        0 <= r < h,
        0 <= c < w,
        0 <= ch < 8,
    ensures
        across(m, w * 8, (r * w + c) * 8 + ch) == rect_sum(channel_plane(m, w, ch), 0, r, 0, c),
    decreases c,
{
    let f = channel_plane(m, w, ch);
    let s = w * 8;
    let j = (r * w + c) * 8 + ch;
    assert(j == r * s + (c * 8 + ch)) by (nonlinear_arith)
        requires
            j == (r * w + c) * 8 + ch,
            s == w * 8,
    ;
    lemma_fundamental_div_mod_converse(j, s, r, c * 8 + ch);
    lemma_down(m, w, h, r, c, ch);
    if c == 0 {
        assert(rect_sum(f, 0, r, 0, 0) == rect_sum(f, 0, r, c, c));
    } else {
        assert(r * w >= 0) by (nonlinear_arith)
            requires
                r >= 0,
                w > 0,
        ;
        assert(j - 8 == (r * w + (c - 1)) * 8 + ch);
        lemma_across(m, w, h, r, c - 1, ch);
        lemma_rect_split_cols(f, 0, r, 0, c, c);
    }
}

/// Each channel of `m` stays within the gradient range, over the whole image.
proof fn lemma_plane_bound(m: Seq<i32>, w: int, h: int, ch: int)
    requires
        m.len() == w * h * 8,
        within_gradient_range(m),
        0 <= ch < 8,
    ensures
        forall|r: int, c: int|
            0 <= r < h && 0 <= c < w ==> -MAX_ABS_GRADIENT <= #[trigger] channel_plane(m, w, ch)(
                r,
                c,
            ) <= MAX_ABS_GRADIENT,
{
    assert forall|r: int, c: int| 0 <= r < h && 0 <= c < w implies -MAX_ABS_GRADIENT
        <= #[trigger] channel_plane(m, w, ch)(r, c) <= MAX_ABS_GRADIENT by {
        lemma_index_in_range(w, h, r, c, ch);
        assert(-MAX_ABS_GRADIENT <= m[(r * w + c) * 8 + ch] <= MAX_ABS_GRADIENT);
    }
}

/// The value that the rightward pass writes at flat index `j` fits in an
/// `i32`, and so does the one that the downward pass writes there.
proof fn lemma_sums_fit(m: Seq<i32>, w: int, h: int, j: int)
    requires
        w > 0,
        h > 0,
        m.len() == w * h * 8,
        w * h * MAX_ABS_GRADIENT <= i32::MAX,
        within_gradient_range(m),
        0 <= j < m.len(),
    ensures
        i32::MIN <= down(m, w * 8, j) <= i32::MAX,
        i32::MIN <= across(m, w * 8, j) <= i32::MAX,
{
    let (r, c, ch) = lemma_decompose(j, w, h);
    let f = channel_plane(m, w, ch);
    let b = MAX_ABS_GRADIENT as int;
    lemma_down(m, w, h, r, c, ch);
    lemma_across(m, w, h, r, c, ch);
    lemma_plane_bound(m, w, h, ch);
    lemma_rect_sum_bound(f, 0, r, c, c, b);
    lemma_rect_sum_bound(f, 0, r, 0, c, b);
    assert(b * (c + 1) * (r + 1) <= w * h * b) by (nonlinear_arith)
        requires
            0 <= r < h,
            0 <= c < w,
            b >= 0,
    ;
    assert(b * 1 * (r + 1) <= w * h * b) by (nonlinear_arith)
        requires
            0 <= r < h,
            1 <= w,
            b >= 0,
    ;
}

/// Turns the interleaved eight-channel image `buf` of size `width` x
/// `height` into its integral image, in place: first each row is added to
/// the one below it, top to bottom; then, within each row, each pixel's
/// channels are added to those of the pixel right of it, left to right.
pub fn integral(buf: &mut Vec<i32>, width: usize, height: usize)
    requires
        width > 0,
        height > 0,
        old(buf)@.len() == width * height * 8,
        width * height * MAX_ABS_GRADIENT <= i32::MAX,
        within_gradient_range(old(buf)@),
    ensures
        is_integral_of(final(buf)@, old(buf)@, width as int, height as int),
{
    let ghost m = buf@;
    let ghost w = width as int;
    let ghost h = height as int;
    let len = buf.len();
    assert(width * 8 <= len) by (nonlinear_arith)
        requires
            len == width * height * 8,
            height >= 1,
    ;
    let s = width * 8;
    let mut j: usize = s;
    while j < len
        invariant
            len == buf@.len() == m.len() == w * h * 8,
            w == width,
            h == height,
            width > 0,
            height > 0,
            w * h * MAX_ABS_GRADIENT <= i32::MAX,
            within_gradient_range(m),
            s == width * 8,
            s <= j <= len,
            forall|k: int| 0 <= k < j ==> #[trigger] buf@[k] == down(m, s as int, k),
            forall|k: int| j <= k < len ==> #[trigger] buf@[k] == m[k],
        decreases len - j,
    {
        proof {
            lemma_sums_fit(m, w, h, j as int);
        }
        let v = buf[j] + buf[j - s];
        buf.set(j, v);
        j += 1;
    }
    let mut j: usize = 0;
    while j < len
        invariant
            len == buf@.len() == m.len() == w * h * 8,
            w == width,
            h == height,
            width > 0,
            height > 0,
            w * h * MAX_ABS_GRADIENT <= i32::MAX,
            within_gradient_range(m),
            s == width * 8,
            j <= len,
            forall|k: int| 0 <= k < j ==> #[trigger] buf@[k] == across(m, s as int, k),
            forall|k: int| j <= k < len ==> #[trigger] buf@[k] == down(m, s as int, k),
        decreases len - j,
    {
        if j % s >= 8 {
            proof {
                lemma_sums_fit(m, w, h, j as int);
                lemma_fundamental_div_mod(j as int, s as int);
                lemma_div_pos_is_pos(j as int, s as int);
                let q = j as int / s as int;
                assert(s * q >= 0) by (nonlinear_arith)
                    requires
                        s > 0,
                        q >= 0,
                ;
            }
            let v = buf[j] + buf[j - 8];
            buf.set(j, v);
        }
        j += 1;
    }
    assert forall|r: int, c: int, ch: int| 0 <= r < h && 0 <= c < w && 0 <= ch < 8 implies #[trigger] integral_at(
        buf@,
        w,
        r,
        c,
        ch,
    ) == rect_sum(channel_plane(m, w, ch), 0, r, 0, c) by {
        lemma_index_in_range(w, h, r, c, ch);
        lemma_across(m, w, h, r, c, ch);
    }
}

/// Four-corner rule: in the integral image `s` of `m`, the sum of a channel
/// over any rectangle of the image equals the value at its bottom-right
/// corner, minus those just above it and just left of it, plus the one
/// diagonally above-left of it.
pub proof fn lemma_four_corner_sum(
    s: Seq<i32>,
    m: Seq<i32>,
    w: int,
    h: int,
    ch: int,
    r0: int,
    r1: int,
    c0: int,
    c1: int,
)
    requires
        is_integral_of(s, m, w, h),
        0 <= ch < 8,
        0 <= r0 <= r1 < h,
        0 <= c0 <= c1 < w,
    ensures
        integral_at(s, w, r1, c1, ch) - integral_at(s, w, r0 - 1, c1, ch) - integral_at(
            s,
            w,
            r1,
            c0 - 1,
            ch,
        ) + integral_at(s, w, r0 - 1, c0 - 1, ch) == rect_sum(
            channel_plane(m, w, ch),
            r0,
            r1,
            c0,
            c1,
        ),
{
    let f = channel_plane(m, w, ch);
    lemma_rect_split_rows(f, 0, r0, r1, 0, c1);
    lemma_rect_split_rows(f, 0, r0, r1, 0, c0 - 1);
    lemma_rect_split_cols(f, r0, r1, 0, c0, c1);
    assert(integral_at(s, w, r1, c1, ch) == rect_sum(f, 0, r1, 0, c1));
    if r0 > 0 {
        assert(integral_at(s, w, r0 - 1, c1, ch) == rect_sum(f, 0, r0 - 1, 0, c1));
    } else {
        assert(rect_sum(f, 0, r0 - 1, 0, c1) == 0);
        assert(rect_sum(f, 0, r0 - 1, 0, c0 - 1) == 0);
    }
    if c0 > 0 {
        assert(integral_at(s, w, r1, c0 - 1, ch) == rect_sum(f, 0, r1, 0, c0 - 1));
        if r0 > 0 {
            assert(integral_at(s, w, r0 - 1, c0 - 1, ch) == rect_sum(f, 0, r0 - 1, 0, c0 - 1));
        }
    } else {
        lemma_rect_split_cols(f, 0, r1, 0, 0, -1);
        lemma_rect_split_cols(f, 0, r0 - 1, 0, 0, -1);
    }
}

} // verus!
