use vstd::prelude::*;

use crate::integral::{within_gradient_range, MAX_ABS_GRADIENT};

verus! {

pub open spec fn abs_value(v: int) -> int {
    if v < 0 {
        -v
    } else {
        v
    }
}

/// Channel `ch` of a pixel with horizontal gradient `gx` and vertical
/// gradient `gy`. Before routing the channels are `gx, |gx|, gx, |gx|, gy,
/// |gy|, gy, |gy|`. The sign of `gy` routes the horizontal pair: to
/// channels 0 and 1 when it is not negative, else to 2 and 3. The sign of
/// `gx` routes the vertical pair: to 4 and 5 when it is not negative, else
/// to 6 and 7. The channels not routed to are zero.
pub open spec fn masked_value(gx: int, gy: int, ch: int) -> int {
    if ch == 0 {
        if gy >= 0 { gx } else { 0 }
    } else if ch == 1 {
        if gy >= 0 { abs_value(gx) } else { 0 }
    } else if ch == 2 {
        if gy < 0 { gx } else { 0 }
    } else if ch == 3 {
        if gy < 0 { abs_value(gx) } else { 0 }
    } else if ch == 4 {
        if gx >= 0 { gy } else { 0 }
    } else if ch == 5 {
        if gx >= 0 { abs_value(gy) } else { 0 }
    } else if ch == 6 {
        if gx < 0 { gy } else { 0 }
    } else {
        if gx < 0 { abs_value(gy) } else { 0 }
    }
}

/// The interleaved eight-channel image of the gradients `gx` and `gy`: the
/// channels of pixel `i` are the entries `8 * i .. 8 * i + 8`.
pub open spec fn masked_channels(gx: Seq<i32>, gy: Seq<i32>) -> Seq<i32> {
    Seq::new(gx.len() * 8, |j: int| masked_value(gx[j / 8] as int, gy[j / 8] as int, j % 8) as i32)
}

/// Sign routing is exclusive. Of the two pairs of channels that carry the
/// horizontal gradient, the sign of the vertical gradient keeps exactly one
/// and forces the other to zero; of the two pairs that carry the vertical
/// gradient, the sign of the horizontal gradient does the same.
pub proof fn lemma_sign_routing_exclusive(gx: int, gy: int)
    ensures
        gy >= 0 ==> masked_value(gx, gy, 0) == gx && masked_value(gx, gy, 1) == abs_value(gx)
            && masked_value(gx, gy, 2) == 0 && masked_value(gx, gy, 3) == 0,
        gy < 0 ==> masked_value(gx, gy, 0) == 0 && masked_value(gx, gy, 1) == 0 && masked_value(
            gx,
            gy,
            2,
        ) == gx && masked_value(gx, gy, 3) == abs_value(gx),
        gx >= 0 ==> masked_value(gx, gy, 4) == gy && masked_value(gx, gy, 5) == abs_value(gy)
            && masked_value(gx, gy, 6) == 0 && masked_value(gx, gy, 7) == 0,
        gx < 0 ==> masked_value(gx, gy, 4) == 0 && masked_value(gx, gy, 5) == 0 && masked_value(
            gx,
            gy,
            6,
        ) == gy && masked_value(gx, gy, 7) == abs_value(gy),
{
}

/// Builds the sign-routed eight-channel image of the gradients.
pub fn fill_masked_channels(grad_x: &Vec<i32>, grad_y: &Vec<i32>) -> (m: Vec<i32>)
    requires
        grad_x@.len() == grad_y@.len(),
        grad_x@.len() * 8 <= usize::MAX,
        within_gradient_range(grad_x@),
        within_gradient_range(grad_y@),
    ensures
        m@ == masked_channels(grad_x@, grad_y@),
        within_gradient_range(m@),
{
    let len = grad_x.len();
    let mut m: Vec<i32> = Vec::with_capacity(len * 8);
    let mut i: usize = 0;
    while i < len
        invariant
            len == grad_x@.len() == grad_y@.len(),
            len * 8 <= usize::MAX,
            within_gradient_range(grad_x@),
            within_gradient_range(grad_y@),
            i <= len,
            m@.len() == i * 8,
            forall|j: int| 0 <= j < i * 8 ==> #[trigger] m@[j] == masked_channels(grad_x@, grad_y@)[j],
            within_gradient_range(m@),
        decreases len - i,
    {
        let gx = grad_x[i];
        let gy = grad_y[i];
        let ax = if gx < 0 { -gx } else { gx };
        let ay = if gy < 0 { -gy } else { gy };
        let keep_x = gy >= 0;
        let keep_y = gx >= 0;
        m.push(if keep_x { gx } else { 0 });
        m.push(if keep_x { ax } else { 0 });
        m.push(if keep_x { 0 } else { gx });
        m.push(if keep_x { 0 } else { ax });
        m.push(if keep_y { gy } else { 0 });
        m.push(if keep_y { ay } else { 0 });
        m.push(if keep_y { 0 } else { gy });
        m.push(if keep_y { 0 } else { ay });
        assert forall|j: int| i * 8 <= j < i * 8 + 8 implies #[trigger] m@[j] == masked_channels(
            grad_x@,
            grad_y@,
        )[j] by {
            assert(j / 8 == i);
            assert(j % 8 == j - i * 8);
        }
        i += 1;
    }
    assert(m@ =~= masked_channels(grad_x@, grad_y@));
    m
}

} // verus!
