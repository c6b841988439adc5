use vstd::prelude::*;

use crate::error::FeatureMapError;
use crate::geometry::Rectangle;
use crate::NUM_INT_CHANNEL;

verus! {

/// A family of candidate patches: an aspect ratio (`width` : `height`) and
/// the grid of cells each patch is divided into.
#[derive(Debug, Clone, Copy, PartialEq, Eq, Structural)]
pub struct PatchFormat {
    pub width: u32,
    pub height: u32,
    pub num_cell_per_row: u32,
    pub num_cell_per_col: u32,
}

impl PatchFormat {
    /// All four numbers are positive, and the vector dimension of a feature
    /// of this format fits in a `usize`.
    pub open spec fn wf(self) -> bool {
        &&& self.width > 0
        &&& self.height > 0
        &&& self.num_cell_per_row > 0
        &&& self.num_cell_per_col > 0
        &&& self.num_cell_per_row * self.num_cell_per_col * NUM_INT_CHANNEL <= usize::MAX
    }
}

/// One catalog entry: a placed patch and its cell grid.
#[derive(Debug, Clone, Copy, PartialEq, Eq, Structural)]
pub struct Feature {
    pub patch: Rectangle,
    pub num_cell_per_row: u32,
    pub num_cell_per_col: u32,
}

/// How candidate patches are sampled inside the detection window.
#[derive(Debug, Clone, Copy, PartialEq, Eq, Structural)]
pub struct SamplingParams {
    pub sample_width: u32,
    pub sample_height: u32,
    pub patch_move_step_x: u32,
    pub patch_move_step_y: u32,
    pub patch_size_inc_step: u32,
    pub patch_min_width: u32,
    pub patch_min_height: u32,
}

impl SamplingParams {
    /// The three steps are positive, so that every sweep advances.
    pub open spec fn wf(self) -> bool {
        &&& self.patch_move_step_x > 0
        &&& self.patch_move_step_y > 0
        &&& self.patch_size_inc_step > 0
    }

    /// Sizes are swept along the height when its admissible range is not
    /// larger than that of the width.
    pub open spec fn height_primary(self) -> bool {
        self.sample_height - self.patch_min_height <= self.sample_width - self.patch_min_width
    }
}

pub open spec fn feature_at(x: int, y: int, w: int, h: int, cells_row: u32, cells_col: u32) -> Feature {
    Feature {
        patch: Rectangle { x: x as u32, y: y as u32, width: w as u32, height: h as u32 },
        num_cell_per_row: cells_row,
        num_cell_per_col: cells_col,
    }
}

/// The features of one row of placements: `x` from the given value up to
/// `sample_width - w`, in steps of `patch_move_step_x`.
pub open spec fn row_features(
    p: SamplingParams,
    x: int,
    y: int,
    w: int,
    h: int,
    cells_row: u32,
    cells_col: u32,
) -> Seq<Feature>
    decreases p.sample_width - w - x + p.patch_move_step_x,
{
    if p.patch_move_step_x == 0 || x > p.sample_width - w {
        seq![]
    } else {
        seq![feature_at(x, y, w, h, cells_row, cells_col)] + row_features(
            p,
            x + p.patch_move_step_x,
            y,
            w,
            h,
            cells_row,
            cells_col,
        )
    }
}

/// All placements of a `w` x `h` patch from row `y` on: `y` up to
/// `sample_height - h` in steps of `patch_move_step_y`, each a full row.
pub open spec fn placements(
    p: SamplingParams,
    y: int,
    w: int,
    h: int,
    cells_row: u32,
    cells_col: u32,
) -> Seq<Feature>
    decreases p.sample_height - h - y + p.patch_move_step_y,
{
    if p.patch_move_step_y == 0 || y > p.sample_height - h {
        seq![]
    } else {
        row_features(p, 0, y, w, h, cells_row, cells_col) + placements(
            p,
            y + p.patch_move_step_y,
            w,
            h,
            cells_row,
            cells_col,
        )
    }
}

/// The length of the vector of feature `f`: eight values per cell.
pub open spec fn vector_dim(f: Feature) -> int {
    f.num_cell_per_row * f.num_cell_per_col * NUM_INT_CHANNEL
}

/// Every feature of `s` has a vector dimension that fits in a `usize`.
pub open spec fn dims_fit(s: Seq<Feature>) -> bool {
    forall|i: int| 0 <= i < s.len() ==> vector_dim(#[trigger] s[i]) <= usize::MAX
}

/// The width that goes with height `h` in format `f` (truncating division).
pub open spec fn width_for(f: PatchFormat, h: int) -> int {
    h / (f.height as int) * f.width
}

/// The height that goes with width `w` in format `f` (truncating division).
pub open spec fn height_for(f: PatchFormat, w: int) -> int {
    w / (f.width as int) * f.height
}

pub open spec fn accepts_height(p: SamplingParams, f: PatchFormat, h: int) -> bool {
    let w = width_for(f, h);
    &&& h % (f.num_cell_per_col as int) == 0
    &&& h % (f.height as int) == 0
    &&& w % (f.num_cell_per_row as int) == 0
    &&& p.patch_min_width <= w <= p.sample_width
}

pub open spec fn accepts_width(p: SamplingParams, f: PatchFormat, w: int) -> bool {
    let h = height_for(f, w);
    &&& w % (f.num_cell_per_row as int) == 0
    &&& w % (f.width as int) == 0
    &&& h % (f.num_cell_per_col as int) == 0
    &&& p.patch_min_height <= h <= p.sample_height
}

/// The features of format `f` for the heights from `h` up to
/// `sample_height` in steps of `patch_size_inc_step`.
pub open spec fn sweep_heights(p: SamplingParams, f: PatchFormat, h: int) -> Seq<Feature>
    decreases p.sample_height - h + p.patch_size_inc_step,
{
    if p.patch_size_inc_step == 0 || h > p.sample_height {
        seq![]
    } else {
        let here = if accepts_height(p, f, h) {
            placements(p, 0, width_for(f, h), h, f.num_cell_per_row, f.num_cell_per_col)
        } else {
            seq![]
        };
        here + sweep_heights(p, f, h + p.patch_size_inc_step)
    }
}

/// The features of format `f` for the widths from `w` up to
/// `sample_width` in steps of `patch_size_inc_step`.
pub open spec fn sweep_widths(p: SamplingParams, f: PatchFormat, w: int) -> Seq<Feature>
    decreases p.sample_width - w + p.patch_size_inc_step,
{
    if p.patch_size_inc_step == 0 || w > p.sample_width {
        seq![]
    } else {
        let here = if accepts_width(p, f, w) {
            placements(p, 0, w, height_for(f, w), f.num_cell_per_row, f.num_cell_per_col)
        } else {
            seq![]
        };
        here + sweep_widths(p, f, w + p.patch_size_inc_step)
    }
}

/// The features that one format contributes, sizes ascending.
pub open spec fn format_features(p: SamplingParams, f: PatchFormat) -> Seq<Feature> {
    if p.height_primary() {
        sweep_heights(p, f, p.patch_min_height as int)
    } else {
        sweep_widths(p, f, p.patch_min_width as int)
    }
}

/// The whole catalog: format by format in the given order, then size,
/// then `y`, then `x`. A feature's position in it is its id.
pub open spec fn catalog(p: SamplingParams, formats: Seq<PatchFormat>) -> Seq<Feature>
    decreases formats.len(),
{
    if formats.len() == 0 {
        seq![]
    } else {
        catalog(p, formats.drop_last()) + format_features(p, formats.last())
    }
}

/// Builds, once, the ordered catalog of candidate features.
pub struct FeaturePool {
    params: SamplingParams,
    patch_formats: Vec<PatchFormat>,
    features: Vec<Feature>,
    created: bool,
}

impl FeaturePool {
    pub closed spec fn spec_params(&self) -> SamplingParams {
        self.params
    }

    pub closed spec fn spec_formats(&self) -> Seq<PatchFormat> {
        self.patch_formats@
    }

    pub closed spec fn spec_features(&self) -> Seq<Feature> {
        self.features@
    }

    /// Whether `create` has run; the catalog is frozen from then on.
    pub closed spec fn is_created(&self) -> bool {
        self.created
    }

    /// Valid parameters and formats; no feature before `create`, and the
    /// catalog of the parameters and formats after it.
    pub open spec fn wf(&self) -> bool {
        &&& self.spec_params().wf()
        &&& forall|i: int|
            0 <= i < self.spec_formats().len() ==> (#[trigger] self.spec_formats()[i]).wf()
        &&& !self.is_created() ==> self.spec_features().len() == 0
        &&& dims_fit(self.spec_features())
        &&& self.is_created() ==> self.spec_features() == catalog(
            self.spec_params(),
            self.spec_formats(),
        )
    }

    pub fn new(params: SamplingParams) -> (r: FeaturePool)
        requires
            params.wf(),
        ensures
            r.wf(),
            r.spec_params() == params,
            r.spec_formats().len() == 0,
            !r.is_created(),
    {
        FeaturePool { params, patch_formats: Vec::new(), features: Vec::new(), created: false }
    }

    /// Appends a format; formats keep the order in which they were added.
    pub fn add_patch_format(
        &mut self,
        width: u32,
        height: u32,
        num_cell_per_row: u32,
        num_cell_per_col: u32,
    )
        requires
            old(self).wf(),
            !old(self).is_created(),
            (PatchFormat { width, height, num_cell_per_row, num_cell_per_col }).wf(),
        ensures
            final(self).wf(),
            !final(self).is_created(),
            final(self).spec_params() == old(self).spec_params(),
            final(self).spec_formats() == old(self).spec_formats().push(
                PatchFormat { width, height, num_cell_per_row, num_cell_per_col },
            ),
    {
        self.patch_formats.push(PatchFormat { width, height, num_cell_per_row, num_cell_per_col });
        assert forall|i: int| 0 <= i < self.spec_formats().len() implies (
        #[trigger] self.spec_formats()[i]).wf() by {
            if i < old(self).spec_formats().len() {
                assert(self.spec_formats()[i] == old(self).spec_formats()[i]);
            }
        }
    }

    pub fn params(&self) -> (r: SamplingParams)
        ensures
            r == self.spec_params(),
    {
        self.params
    }

    pub fn patch_formats(&self) -> (r: &Vec<PatchFormat>)
        ensures
            r@ == self.spec_formats(),
    {
        &self.patch_formats
    }

    pub fn features(&self) -> (r: &Vec<Feature>)
        ensures
            r@ == self.spec_features(),
    {
        &self.features
    }

    /// Number of features in the catalog.
    pub fn size(&self) -> (r: usize)
        ensures
            r == self.spec_features().len(),
    {
        self.features.len()
    }

    /// Builds the catalog from the parameters and the formats added so far.
    /// It runs once; the catalog is frozen afterwards.
    pub fn create(&mut self)
        requires
            old(self).wf(),
            !old(self).is_created(),
        ensures
            final(self).wf(),
            final(self).is_created(),
            final(self).spec_params() == old(self).spec_params(),
            final(self).spec_formats() == old(self).spec_formats(),
            final(self).spec_features() == catalog(old(self).spec_params(), old(self).spec_formats()),
    {
        let p = self.params;
        let height_primary = (p.sample_height as i64) - (p.patch_min_height as i64) <= (
        p.sample_width as i64) - (p.patch_min_width as i64);
        let mut feature_vecs: Vec<Feature> = Vec::new();
        let mut k: usize = 0;
        while k < self.patch_formats.len()
            invariant
                self.wf(),
                !self.is_created(),
                p == self.spec_params(),
                height_primary == p.height_primary(),
                0 <= k <= self.spec_formats().len(),
                feature_vecs@ == catalog(p, self.spec_formats().subrange(0, k as int)),
                dims_fit(feature_vecs@),
            decreases self.spec_formats().len() - k,
        {
            let f = self.patch_formats[k];
            assert(f.wf());
            if height_primary {
                self.collect_by_height(f, &mut feature_vecs);
            } else {
                self.collect_by_width(f, &mut feature_vecs);
            }
            assert(self.spec_formats().subrange(0, k + 1).drop_last() =~= self.spec_formats().subrange(
                0,
                k as int,
            ));
            k += 1;
        }
        assert(self.spec_formats().subrange(0, k as int) =~= self.spec_formats());
        self.features = feature_vecs;
        self.created = true;
    }

    /// Appends, for format `f`, the features of every accepted height, in
    /// ascending order of height.
    fn collect_by_height(&self, f: PatchFormat, dest: &mut Vec<Feature>)
        requires
            self.wf(),
            f.wf(),
            dims_fit(old(dest)@),
        ensures
            final(dest)@ == old(dest)@ + sweep_heights(
                self.spec_params(),
                f,
                self.spec_params().patch_min_height as int,
            ),
            dims_fit(final(dest)@),
    {
        let p = self.params;
        let ghost start = dest@;
        let mut h: u64 = p.patch_min_height as u64;
        while h <= p.sample_height as u64
            invariant
                p == self.spec_params(),
                p.wf(),
                f.wf(),
                h <= p.sample_height + p.patch_size_inc_step || h == p.patch_min_height,
                dest@ + sweep_heights(p, f, h as int) == start + sweep_heights(
                    p,
                    f,
                    p.patch_min_height as int,
                ),
                dims_fit(dest@),
            decreases p.sample_height + p.patch_size_inc_step - h,
        {
            let ghost before = dest@;
            let q = h / (f.height as u64);
            assert(q <= u32::MAX);
            assert(q * f.width <= u32::MAX * u32::MAX) by (nonlinear_arith)
                requires
                    q <= u32::MAX,
                    f.width <= u32::MAX,
            ;
            let w: u64 = q * (f.width as u64);
            if h % (f.num_cell_per_col as u64) == 0 && h % (f.height as u64) == 0 && w % (
            f.num_cell_per_row as u64) == 0 && w >= p.patch_min_width as u64 && w
                <= p.sample_width as u64 {
                self.collect_features(
                    w as u32,
                    h as u32,
                    f.num_cell_per_row,
                    f.num_cell_per_col,
                    dest,
                );
            }
            assert(dest@ + sweep_heights(p, f, h + p.patch_size_inc_step) =~= before
                + sweep_heights(p, f, h as int));
            h += p.patch_size_inc_step as u64;
        }
    }

    /// Appends, for format `f`, the features of every accepted width, in
    /// ascending order of width.
    fn collect_by_width(&self, f: PatchFormat, dest: &mut Vec<Feature>)
        requires
            self.wf(),
            f.wf(),
            dims_fit(old(dest)@),
        ensures
            final(dest)@ == old(dest)@ + sweep_widths(
                self.spec_params(),
                f,
                self.spec_params().patch_min_width as int,
            ),
            dims_fit(final(dest)@),
    {
        let p = self.params;
        let ghost start = dest@;
        let mut w: u64 = p.patch_min_width as u64;
        while w <= p.sample_width as u64
            invariant
                p == self.spec_params(),
                p.wf(),
                f.wf(),
                w <= p.sample_width + p.patch_size_inc_step || w == p.patch_min_width,
                dest@ + sweep_widths(p, f, w as int) == start + sweep_widths(
                    p,
                    f,
                    p.patch_min_width as int,
                ),
                dims_fit(dest@),
            decreases p.sample_width + p.patch_size_inc_step - w,
        {
            let ghost before = dest@;
            let q = w / (f.width as u64);
            assert(q <= u32::MAX);
            assert(q * f.height <= u32::MAX * u32::MAX) by (nonlinear_arith)
                requires
                    q <= u32::MAX,
                    f.height <= u32::MAX,
            ;
            let h: u64 = q * (f.height as u64);
            if w % (f.num_cell_per_row as u64) == 0 && w % (f.width as u64) == 0 && h % (
            f.num_cell_per_col as u64) == 0 && h >= p.patch_min_height as u64 && h
                <= p.sample_height as u64 {
                self.collect_features(
                    w as u32,
                    h as u32,
                    f.num_cell_per_row,
                    f.num_cell_per_col,
                    dest,
                );
            }
            assert(dest@ + sweep_widths(p, f, w + p.patch_size_inc_step) =~= before
                + sweep_widths(p, f, w as int));
            w += p.patch_size_inc_step as u64;
        }
    }

    /// Appends one feature per placement of a `width` x `height` patch, on
    /// the grid of move steps, row by row.
    fn collect_features(
        &self,
        width: u32,
        height: u32,
        num_cell_per_row: u32,
        num_cell_per_col: u32,
        dest: &mut Vec<Feature>,
    )
        requires
            self.spec_params().wf(),
            width <= self.spec_params().sample_width,
            height <= self.spec_params().sample_height,
            num_cell_per_row * num_cell_per_col * NUM_INT_CHANNEL <= usize::MAX,
            dims_fit(old(dest)@),
        ensures
            final(dest)@ == old(dest)@ + placements(
                self.spec_params(),
                0,
                width as int,
                height as int,
                num_cell_per_row,
                num_cell_per_col,
            ),
            dims_fit(final(dest)@),
    {
        let p = self.params;
        let ghost start = dest@;
        let y_lim: u64 = (p.sample_height - height) as u64;
        let x_lim: u64 = (p.sample_width - width) as u64;
        let mut y: u64 = 0;
        while y <= y_lim
            invariant
                p == self.spec_params(),
                p.wf(),
                y_lim == p.sample_height - height,
                x_lim == p.sample_width - width,
                y <= y_lim + p.patch_move_step_y,
                num_cell_per_row * num_cell_per_col * NUM_INT_CHANNEL <= usize::MAX,
                dest@ + placements(
                    p,
                    y as int,
                    width as int,
                    height as int,
                    num_cell_per_row,
                    num_cell_per_col,
                ) == start + placements(
                    p,
                    0,
                    width as int,
                    height as int,
                    num_cell_per_row,
                    num_cell_per_col,
                ),
                dims_fit(dest@),
            decreases y_lim + p.patch_move_step_y - y,
        {
            let ghost row_start = dest@;
            let mut x: u64 = 0;
            while x <= x_lim
                invariant
                    p == self.spec_params(),
                    p.wf(),
                    x_lim == p.sample_width - width,
                    y <= y_lim,
                    y_lim <= u32::MAX,
                    x <= x_lim + p.patch_move_step_x,
                    num_cell_per_row * num_cell_per_col * NUM_INT_CHANNEL <= usize::MAX,
                    dest@ + row_features(
                        p,
                        x as int,
                        y as int,
                        width as int,
                        height as int,
                        num_cell_per_row,
                        num_cell_per_col,
                    ) == row_start + row_features(
                        p,
                        0,
                        y as int,
                        width as int,
                        height as int,
                        num_cell_per_row,
                        num_cell_per_col,
                    ),
                    dims_fit(dest@),
                decreases x_lim + p.patch_move_step_x - x,
            {
                let ghost before = dest@;
                let feature = Feature {
                    patch: Rectangle::new(x as u32, y as u32, width, height),
                    num_cell_per_row,
                    num_cell_per_col,
                };
                assert(feature == feature_at(
                    x as int,
                    y as int,
                    width as int,
                    height as int,
                    num_cell_per_row,
                    num_cell_per_col,
                ));
                dest.push(feature);
                assert(dest@ + row_features(
                    p,
                    x + p.patch_move_step_x,
                    y as int,
                    width as int,
                    height as int,
                    num_cell_per_row,
                    num_cell_per_col,
                ) =~= before + row_features(
                    p,
                    x as int,
                    y as int,
                    width as int,
                    height as int,
                    num_cell_per_row,
                    num_cell_per_col,
                ));
                x += p.patch_move_step_x as u64;
            }
            assert(dest@ =~= dest@ + row_features(
                p,
                x as int,
                y as int,
                width as int,
                height as int,
                num_cell_per_row,
                num_cell_per_col,
            ));
            assert(dest@ + placements(
                p,
                y + p.patch_move_step_y,
                width as int,
                height as int,
                num_cell_per_row,
                num_cell_per_col,
            ) =~= row_start + placements(
                p,
                y as int,
                width as int,
                height as int,
                num_cell_per_row,
                num_cell_per_col,
            ));
            y += p.patch_move_step_y as u64;
        }
        assert(dest@ =~= dest@ + placements(
            p,
            y as int,
            width as int,
            height as int,
            num_cell_per_row,
            num_cell_per_col,
        ));
    }

    /// Length of the vector of feature `feature_id`: eight values per cell
    /// of its grid.
    pub fn get_feature_vector_dim(&self, feature_id: usize) -> (r: Result<usize, FeatureMapError>)
        requires
            self.wf(),
        ensures
            feature_id < self.spec_features().len() ==> r == Ok::<usize, FeatureMapError>(
                vector_dim(self.spec_features()[feature_id as int]) as usize,
            ),
            feature_id >= self.spec_features().len() ==> r == Err::<usize, FeatureMapError>(
                FeatureMapError::OutOfRange,
            ),
    {
        if feature_id >= self.features.len() {
            return Err(FeatureMapError::OutOfRange);
        }
        let feature = self.features[feature_id];
        assert(vector_dim(self.spec_features()[feature_id as int]) <= usize::MAX);
        Ok((feature.num_cell_per_row as usize) * (feature.num_cell_per_col as usize)
            * NUM_INT_CHANNEL)
    }
}

/// The catalog depends on nothing but the sampling parameters and the
/// formats: two pools built from equal parameters and the same formats in
/// the same order hold, once created, catalogs of the same length with the
/// same features in the same order.
pub proof fn lemma_catalog_deterministic(a: &FeaturePool, b: &FeaturePool)
    requires
        a.wf(),
        b.wf(),
        a.is_created(),
        b.is_created(),
        a.spec_params() == b.spec_params(),
        a.spec_formats() == b.spec_formats(),
    ensures
        a.spec_features().len() == b.spec_features().len(),
        forall|i: int|
            0 <= i < a.spec_features().len() ==> #[trigger] a.spec_features()[i]
                == b.spec_features()[i],
{
}

} // verus!
