use vstd::prelude::*;

use vstd::arithmetic::div_mod::{
    lemma_div_pos_is_pos,
    lemma_fundamental_div_mod,
    lemma_mod_pos_bound,
};

use crate::channels::{fill_masked_channels, masked_channels, masked_value};
use crate::error::FeatureMapError;
use crate::feature_pool::{catalog, FeaturePool, PatchFormat, SamplingParams};
use crate::gradient::{
    compute_grad_x,
    compute_grad_y,
    horizontal_gradient,
    vertical_gradient,
    widen,
    widened,
};
use crate::integral::{
    channel_plane,
    integral,
    integral_at,
    is_integral_of,
    lemma_four_corner_sum,
    lemma_zero_rect_sum,
    rect_sum,
    within_gradient_range,
    MAX_ABS_GRADIENT,
};

verus! {

/// The sampling of the 40 x 40 detection window that the engine's catalog
/// is built with.
pub open spec fn default_sampling() -> SamplingParams {
    SamplingParams {
        sample_width: 40,
        sample_height: 40,
        patch_move_step_x: 16,
        patch_move_step_y: 16,
        patch_size_inc_step: 1,
        patch_min_width: 16,
        patch_min_height: 16,
    }
}

pub open spec fn patch_format(w: u32, h: u32, cells_row: u32, cells_col: u32) -> PatchFormat {
    PatchFormat { width: w, height: h, num_cell_per_row: cells_row, num_cell_per_col: cells_col }
}

/// The patch formats of the engine's catalog, in catalog order: squares,
/// 1:2, 2:1, 2:3 and 3:2 patches, each of 2 x 2 cells.
pub open spec fn default_formats() -> Seq<PatchFormat> {
    seq![
        patch_format(1, 1, 2, 2),
        patch_format(1, 2, 2, 2),
        patch_format(2, 1, 2, 2),
        patch_format(2, 3, 2, 2),
        patch_format(3, 2, 2, 2),
    ]
}

/// The gradient feature map of one grayscale window: its gradients and the
/// sign-routed eight-channel integral image over them, with per-feature
/// storage sized from the catalog of candidate patches.
pub struct SurfMlpFeatureMap {
    width: u32,
    height: u32,
    length: usize,
    feature_pool: FeaturePool,
    feature_vectors: Vec<Vec<i32>>,
    feature_valid_indicators: Vec<bool>,
    grad_x: Vec<i32>,
    grad_y: Vec<i32>,
    int_img: Vec<i32>,
    img_buf: Vec<i32>,
}

impl SurfMlpFeatureMap {
    pub closed spec fn spec_width(&self) -> u32 {
        self.width
    }

    pub closed spec fn spec_height(&self) -> u32 {
        self.height
    }

    pub closed spec fn spec_length(&self) -> usize {
        self.length
    }

    pub closed spec fn spec_pool(&self) -> FeaturePool {
        self.feature_pool
    }

    pub closed spec fn spec_feature_vectors(&self) -> Seq<Vec<i32>> {
        self.feature_vectors@
    }

    pub closed spec fn spec_feature_valid_indicators(&self) -> Seq<bool> {
        self.feature_valid_indicators@
    }

    pub closed spec fn spec_grad_x(&self) -> Seq<i32> {
        self.grad_x@
    }

    pub closed spec fn spec_grad_y(&self) -> Seq<i32> {
        self.grad_y@
    }

    pub closed spec fn spec_int_img(&self) -> Seq<i32> {
        self.int_img@
    }

    pub closed spec fn spec_img_buf(&self) -> Seq<i32> {
        self.img_buf@
    }

    /// The catalog is built, and there is one storage slot per feature.
    pub open spec fn wf(&self) -> bool {
        &&& self.spec_pool().wf()
        &&& self.spec_pool().is_created()
        &&& self.spec_feature_vectors().len() == self.spec_pool().spec_features().len()
        &&& self.spec_feature_valid_indicators().len() == self.spec_pool().spec_features().len()
    }

    /// The buffers hold the result for the `width` x `height` image
    /// `pixels`: the widened intensities, their horizontal and vertical
    /// gradients, and the integral image of the sign-routed channels of
    /// those gradients.
    pub open spec fn is_computed_from(&self, pixels: Seq<u8>) -> bool {
        let w = self.spec_width() as int;
        let h = self.spec_height() as int;
        &&& w > 0
        &&& h > 0
        &&& self.spec_length() == w * h
        &&& pixels.len() == w * h
        &&& self.spec_img_buf() == widened(pixels)
        &&& self.spec_grad_x().len() == w * h
        &&& self.spec_grad_y().len() == w * h
        &&& forall|i: int|
            0 <= i < w * h ==> #[trigger] self.spec_grad_x()[i] == horizontal_gradient(
                widened(pixels),
                w,
                i,
            )
        &&& forall|i: int|
            0 <= i < w * h ==> #[trigger] self.spec_grad_y()[i] == vertical_gradient(
                widened(pixels),
                w,
                h,
                i,
            )
        &&& is_integral_of(
            self.spec_int_img(),
            masked_channels(self.spec_grad_x(), self.spec_grad_y()),
            w,
            h,
        )
    }

    /// A feature map with empty buffers and the catalog of the 40 x 40
    /// window.
    pub fn new() -> (m: Self)
        ensures
            m.wf(),
            m.spec_pool().spec_params() == default_sampling(),
            m.spec_pool().spec_formats() == default_formats(),
            m.spec_pool().spec_features() == catalog(default_sampling(), default_formats()),
            m.spec_width() == 0,
            m.spec_height() == 0,
            m.spec_length() == 0,
            m.spec_grad_x().len() == 0,
            m.spec_grad_y().len() == 0,
            m.spec_int_img().len() == 0,
            m.spec_img_buf().len() == 0,
            forall|i: int|
                0 <= i < m.spec_feature_vectors().len() ==> (#[trigger] m.spec_feature_vectors()[i])@.len()
                    == 0,
            forall|i: int|
                0 <= i < m.spec_feature_valid_indicators().len()
                    ==> !#[trigger] m.spec_feature_valid_indicators()[i],
    {
        let feature_pool = SurfMlpFeatureMap::create_feature_pool();
        let feature_pool_size = feature_pool.size();
        let mut feature_vectors: Vec<Vec<i32>> = Vec::with_capacity(feature_pool_size);
        let mut feature_valid_indicators: Vec<bool> = Vec::with_capacity(feature_pool_size);
        let mut feature_id: usize = 0;
        while feature_id < feature_pool_size
            invariant
                feature_pool.wf(),
                feature_pool_size == feature_pool.spec_features().len(),
                feature_id <= feature_pool_size,
                feature_vectors@.len() == feature_id,
                feature_valid_indicators@.len() == feature_id,
                forall|i: int| 0 <= i < feature_id ==> (#[trigger] feature_vectors@[i])@.len() == 0,
                forall|i: int| 0 <= i < feature_id ==> !#[trigger] feature_valid_indicators@[i],
            decreases feature_pool_size - feature_id,
        {
            let dim = feature_pool.get_feature_vector_dim(feature_id).unwrap();
            feature_vectors.push(Vec::with_capacity(dim));
            feature_valid_indicators.push(false);
            feature_id += 1;
        }
        SurfMlpFeatureMap {
            width: 0,
            height: 0,
            length: 0,
            feature_pool,
            feature_vectors,
            feature_valid_indicators,
            grad_x: Vec::new(),
            grad_y: Vec::new(),
            int_img: Vec::new(),
            img_buf: Vec::new(),
        }
    }

    fn create_feature_pool() -> (pool: FeaturePool)
        ensures
            pool.wf(),
            pool.is_created(),
            pool.spec_params() == default_sampling(),
            pool.spec_formats() == default_formats(),
            pool.spec_features() == catalog(default_sampling(), default_formats()),
    {
        let params = SamplingParams {
            sample_width: 40,
            sample_height: 40,
            patch_move_step_x: 16,
            patch_move_step_y: 16,
            patch_size_inc_step: 1,
            patch_min_width: 16,
            patch_min_height: 16,
        };
        let mut feature_pool = FeaturePool::new(params);
        feature_pool.add_patch_format(1, 1, 2, 2);
        feature_pool.add_patch_format(1, 2, 2, 2);
        feature_pool.add_patch_format(2, 1, 2, 2);
        feature_pool.add_patch_format(2, 3, 2, 2);
        feature_pool.add_patch_format(3, 2, 2, 2);
        assert(feature_pool.spec_formats() =~= default_formats());
        feature_pool.create();
        feature_pool
    }

    /// Computes the gradients and the sign-routed integral image of the
    /// `width` x `height` grayscale image `pixels`, given row by row. An
    /// empty image is refused, and leaves the feature map as it was. The
    /// image must be small enough that a channel summed over all of it, at
    /// the largest gradient, fits in the `i32` entries of the integral image.
    pub fn compute(&mut self, pixels: &[u8], width: u32, height: u32) -> (r: Result<
        (),
        FeatureMapError,
    >)
        requires
            old(self).wf(),
            width * height * MAX_ABS_GRADIENT <= i32::MAX,
            width == 0 || height == 0 || pixels@.len() == width * height,
        ensures
            final(self).wf(),
            width == 0 || height == 0 ==> r == Err::<(), FeatureMapError>(
                FeatureMapError::InvalidArgument,
            ) && *final(self) == *old(self),
            width > 0 && height > 0 ==> {
                &&& r == Ok::<(), FeatureMapError>(())
                &&& final(self).spec_width() == width
                &&& final(self).spec_height() == height
                &&& final(self).spec_length() == width * height
                &&& final(self).spec_grad_x().len() == width * height
                &&& final(self).spec_grad_y().len() == width * height
                &&& final(self).spec_img_buf().len() == width * height
                &&& final(self).spec_int_img().len() == width * height * 8
                &&& final(self).is_computed_from(pixels@)
            },
            final(self).spec_pool() == old(self).spec_pool(),
            final(self).spec_feature_vectors() == old(self).spec_feature_vectors(),
            final(self).spec_feature_valid_indicators() == old(
                self,
            ).spec_feature_valid_indicators(),
    {
        if width == 0 || height == 0 {
            return Err(FeatureMapError::InvalidArgument);
        }
        self.reshape(width, height);
        self.compute_gradient_images(pixels);
        self.compute_integral_images();
        Ok(())
    }

    /// Takes the new image size.
    fn reshape(&mut self, width: u32, height: u32)
        requires
            width > 0,
            height > 0,
            width * height * MAX_ABS_GRADIENT <= i32::MAX,
        ensures
            final(self).width == width,
            final(self).height == height,
            final(self).length == width * height,
            final(self).feature_pool == old(self).feature_pool,
            final(self).feature_vectors == old(self).feature_vectors,
            final(self).feature_valid_indicators == old(self).feature_valid_indicators,
    {
        assert(width * height <= i32::MAX) by (nonlinear_arith)
            requires
                width * height * MAX_ABS_GRADIENT <= i32::MAX,
                MAX_ABS_GRADIENT == 510,
        ;
        self.width = width;
        self.height = height;
        self.length = (width as usize) * (height as usize);
    }

    /// Widens the pixels and computes both gradients.
    fn compute_gradient_images(&mut self, pixels: &[u8])
        requires
            old(self).width > 0,
            old(self).height > 0,
            old(self).length == old(self).width * old(self).height,
            pixels@.len() == old(self).length,
        ensures
            final(self).width == old(self).width,
            final(self).height == old(self).height,
            final(self).length == old(self).length,
            final(self).feature_pool == old(self).feature_pool,
            final(self).feature_vectors == old(self).feature_vectors,
            final(self).feature_valid_indicators == old(self).feature_valid_indicators,
            final(self).img_buf@ == widened(pixels@),
            final(self).grad_x@.len() == old(self).length,
            final(self).grad_y@.len() == old(self).length,
            forall|i: int|
                0 <= i < old(self).length ==> #[trigger] final(self).grad_x@[i]
                    == horizontal_gradient(widened(pixels@), old(self).width as int, i),
            forall|i: int|
                0 <= i < old(self).length ==> #[trigger] final(self).grad_y@[i] == vertical_gradient(
                    widened(pixels@),
                    old(self).width as int,
                    old(self).height as int,
                    i,
                ),
            within_gradient_range(final(self).grad_x@),
            within_gradient_range(final(self).grad_y@),
    {
        let w = self.width as usize;
        let h = self.height as usize;
        self.img_buf = widen(pixels);
        self.grad_x = compute_grad_x(&self.img_buf, w, h);
        self.grad_y = compute_grad_y(&self.img_buf, w, h);
    }

    /// Fills the sign-routed channels and integrates them.
    fn compute_integral_images(&mut self)
        requires
            old(self).width > 0,
            old(self).height > 0,
            old(self).length == old(self).width * old(self).height,
            old(self).width * old(self).height * MAX_ABS_GRADIENT <= i32::MAX,
            old(self).grad_x@.len() == old(self).length,
            old(self).grad_y@.len() == old(self).length,
            within_gradient_range(old(self).grad_x@),
            within_gradient_range(old(self).grad_y@),
        ensures
            final(self).width == old(self).width,
            final(self).height == old(self).height,
            final(self).length == old(self).length,
            final(self).feature_pool == old(self).feature_pool,
            final(self).feature_vectors == old(self).feature_vectors,
            final(self).feature_valid_indicators == old(self).feature_valid_indicators,
            final(self).img_buf == old(self).img_buf,
            final(self).grad_x == old(self).grad_x,
            final(self).grad_y == old(self).grad_y,
            final(self).int_img@.len() == old(self).length * 8,
            is_integral_of(
                final(self).int_img@,
                masked_channels(old(self).grad_x@, old(self).grad_y@),
                old(self).width as int,
                old(self).height as int,
            ),
    {
        assert(self.length * 8 <= i32::MAX) by (nonlinear_arith)
            requires
                self.length == self.width * self.height,
                self.width * self.height * MAX_ABS_GRADIENT <= i32::MAX,
                MAX_ABS_GRADIENT == 510,
        ;
        let mut int_img = fill_masked_channels(&self.grad_x, &self.grad_y);
        integral(&mut int_img, self.width as usize, self.height as usize);
        self.int_img = int_img;
    }

    pub fn width(&self) -> (r: u32)
        ensures
            r == self.spec_width(),
    {
        self.width
    }

    pub fn height(&self) -> (r: u32)
        ensures
            r == self.spec_height(),
    {
        self.height
    }

    /// Number of pixels of the current image.
    pub fn length(&self) -> (r: usize)
        ensures
            r == self.spec_length(),
    {
        self.length
    }

    pub fn feature_pool(&self) -> (r: &FeaturePool)
        ensures
            *r == self.spec_pool(),
    {
        &self.feature_pool
    }

    pub fn grad_x(&self) -> (r: &Vec<i32>)
        ensures
            r@ == self.spec_grad_x(),
    {
        &self.grad_x
    }

    pub fn grad_y(&self) -> (r: &Vec<i32>)
        ensures
            r@ == self.spec_grad_y(),
    {
        &self.grad_y
    }

    /// The integral image: for pixel `i`, channel `ch` at `8 * i + ch`.
    pub fn int_img(&self) -> (r: &Vec<i32>)
        ensures
            r@ == self.spec_int_img(),
    {
        &self.int_img
    }

    /// The widened intensities of the current image.
    pub fn img_buf(&self) -> (r: &Vec<i32>)
        ensures
            r@ == self.spec_img_buf(),
    {
        &self.img_buf
    }

    /// Per-feature raw vectors, one per catalog entry, filled by the stage
    /// that reads features from the integral image.
    pub fn feature_vectors(&self) -> (r: &Vec<Vec<i32>>)
        ensures
            r@ == self.spec_feature_vectors(),
    {
        &self.feature_vectors
    }

    /// Per-feature validity flags, one per catalog entry.
    pub fn feature_valid_indicators(&self) -> (r: &Vec<bool>)
        ensures
            r@ == self.spec_feature_valid_indicators(),
    {
        &self.feature_valid_indicators
    }
}

/// After `compute`, the sum of any sign-routed gradient channel over any
/// rectangle of the image (rows `r0 ..= r1`, columns `c0 ..= c1`) is read
/// from four entries of the integral image, by inclusion and exclusion.
pub proof fn lemma_rectangle_sum(
    m: &SurfMlpFeatureMap,
    pixels: Seq<u8>,
    ch: int,
    r0: int,
    r1: int,
    c0: int,
    c1: int,
)
    requires
        m.is_computed_from(pixels),
        0 <= ch < 8,
        0 <= r0 <= r1 < m.spec_height(),
        0 <= c0 <= c1 < m.spec_width(),
    ensures
        ({
            let s = m.spec_int_img();
            let w = m.spec_width() as int;
            integral_at(s, w, r1, c1, ch) - integral_at(s, w, r0 - 1, c1, ch) - integral_at(
                s,
                w,
                r1,
                c0 - 1,
                ch,
            ) + integral_at(s, w, r0 - 1, c0 - 1, ch) == rect_sum(
                channel_plane(masked_channels(m.spec_grad_x(), m.spec_grad_y()), w, ch),
                r0,
                r1,
                c0,
                c1,
            )
        }),
{
    lemma_four_corner_sum(
        m.spec_int_img(),
        masked_channels(m.spec_grad_x(), m.spec_grad_y()),
        m.spec_width() as int,
        m.spec_height() as int,
        ch,
        r0,
        r1,
        c0,
        c1,
    );
}

/// A flat image, all of whose pixels have one intensity, has zero
/// gradients everywhere, and so an integral image that is zero in every
/// channel: the sign routing adds nothing of its own.
pub proof fn lemma_flat_image(m: &SurfMlpFeatureMap, pixels: Seq<u8>)
    requires
        m.is_computed_from(pixels),
        forall|i: int| 0 <= i < pixels.len() ==> #[trigger] pixels[i] == pixels[0],
    ensures
        forall|i: int| 0 <= i < m.spec_length() ==> #[trigger] m.spec_grad_x()[i] == 0,
        forall|i: int| 0 <= i < m.spec_length() ==> #[trigger] m.spec_grad_y()[i] == 0,
        forall|r: int, c: int, ch: int|
            0 <= r < m.spec_height() && 0 <= c < m.spec_width() && 0 <= ch < 8
                ==> #[trigger] integral_at(m.spec_int_img(), m.spec_width() as int, r, c, ch) == 0,
{
    let w = m.spec_width() as int;
    let h = m.spec_height() as int;
    let img = widened(pixels);
    let gx = m.spec_grad_x();
    let gy = m.spec_grad_y();
    let channels = masked_channels(gx, gy);
    assert forall|k: int| 0 <= k < w * h implies #[trigger] img[k] == img[0] by {
        assert(pixels[k] == pixels[0]);
    }
    assert(h >= 2 ==> 2 * w <= w * h && (h - 1) * w >= w && (h - 1) * w + w == w * h)
        by (nonlinear_arith)
        requires
            w > 0,
    ;
    assert forall|i: int| 0 <= i < w * h implies #[trigger] gx[i] == 0 && gy[i] == 0 by {
        lemma_fundamental_div_mod(i, w);
        lemma_mod_pos_bound(i, w);
        lemma_div_pos_is_pos(i, w);
        let q = i / w;
        assert(q < h && w * q >= 0) by (nonlinear_arith)
            requires
                w * q <= i,
                i < w * h,
                w > 0,
                q >= 0,
        ;
        assert(w * q + w <= w * h) by (nonlinear_arith)
            requires
                q < h,
                w > 0,
        ;
        assert(horizontal_gradient(img, w, i) == 0);
        assert(vertical_gradient(img, w, h, i) == 0);
    }
    assert forall|j: int| 0 <= j < channels.len() implies #[trigger] channels[j] == 0 by {
        assert(gx[j / 8] == 0 && gy[j / 8] == 0);
        assert(masked_value(0, 0, j % 8) == 0);
    }
    assert forall|r: int, c: int, ch: int|
        0 <= r < h && 0 <= c < w && 0 <= ch < 8 implies #[trigger] integral_at(
        m.spec_int_img(),
        w,
        r,
        c,
        ch,
    ) == 0 by {
        let f = channel_plane(channels, w, ch);
        assert forall|rr: int, cc: int| 0 <= rr <= r && 0 <= cc <= c implies #[trigger] f(rr, cc)
            == 0 by {
            assert(0 <= (rr * w + cc) * 8 + ch < w * h * 8) by (nonlinear_arith)
                requires
                    0 <= rr <= r < h,
                    0 <= cc <= c < w,
                    0 <= ch < 8,
            ;
        }
        lemma_zero_rect_sum(f, 0, r, 0, c);
    }
}

} // verus!
