use surf_featmap::error::FeatureMapError;
use surf_featmap::feature_pool::{Feature, FeaturePool, SamplingParams};
use surf_featmap::geometry::Rectangle;

fn small_params() -> SamplingParams {
    SamplingParams {
        sample_width: 20,
        sample_height: 20,
        patch_move_step_x: 4,
        patch_move_step_y: 4,
        patch_size_inc_step: 4,
        patch_min_width: 4,
        patch_min_height: 4,
    }
}

fn small_pool() -> FeaturePool {
    let mut pool = FeaturePool::new(small_params());
    pool.add_patch_format(1, 1, 2, 2);
    pool.add_patch_format(1, 2, 2, 2);
    pool.add_patch_format(2, 1, 2, 2);
    pool.create();
    pool
}

fn feature(x: u32, y: u32, width: u32, height: u32) -> Feature {
    Feature { patch: Rectangle::new(x, y, width, height), num_cell_per_row: 2, num_cell_per_col: 2 }
}

#[test]
fn catalog_is_deterministic() {
    let a = small_pool();
    let b = small_pool();
    assert_eq!(a.size(), 126);
    assert_eq!(a.size(), b.size());
    assert_eq!(a.features(), b.features());
}

#[test]
fn catalog_order_is_format_size_y_x() {
    let pool = small_pool();
    let f = pool.features();
    assert_eq!(f[0], feature(0, 0, 4, 4));
    assert_eq!(f[1], feature(4, 0, 4, 4));
    assert_eq!(f[5], feature(0, 4, 4, 4));
    assert_eq!(f[25], feature(0, 0, 8, 8));
    assert_eq!(f[55], feature(0, 0, 4, 8));
    assert_eq!(f[98], feature(0, 0, 8, 4));
    assert_eq!(f[125], feature(4, 12, 16, 8));
}

#[test]
fn feature_vector_dim_of_two_by_two_cells() {
    let pool = small_pool();
    assert_eq!(pool.get_feature_vector_dim(0), Ok(32));
    assert_eq!(pool.get_feature_vector_dim(125), Ok(32));
}

#[test]
fn feature_vector_dim_out_of_range() {
    let pool = small_pool();
    assert_eq!(pool.get_feature_vector_dim(126), Err(FeatureMapError::OutOfRange));
    assert_eq!(pool.get_feature_vector_dim(usize::MAX), Err(FeatureMapError::OutOfRange));
}

#[test]
fn feature_vector_dim_follows_cell_grid() {
    let mut pool = FeaturePool::new(small_params());
    pool.add_patch_format(1, 1, 4, 1);
    pool.create();
    assert_eq!(pool.size(), 25 + 16 + 9 + 4 + 1);
    assert_eq!(pool.get_feature_vector_dim(0), Ok(32));
    assert_eq!(pool.features()[0].num_cell_per_row, 4);
}

#[test]
fn format_never_accepted_contributes_nothing() {
    let mut pool = FeaturePool::new(small_params());
    pool.add_patch_format(1, 1, 7, 7);
    pool.create();
    assert_eq!(pool.size(), 0);
    assert_eq!(pool.get_feature_vector_dim(0), Err(FeatureMapError::OutOfRange));
}

#[test]
fn width_primary_sweep() {
    let params = SamplingParams {
        sample_width: 10,
        sample_height: 30,
        patch_move_step_x: 5,
        patch_move_step_y: 5,
        patch_size_inc_step: 5,
        patch_min_width: 5,
        patch_min_height: 5,
    };
    let mut pool = FeaturePool::new(params);
    pool.add_patch_format(1, 1, 1, 1);
    pool.create();
    let f = pool.features();
    assert_eq!(f.len(), 17);
    let cell = |x, y, w, h| Feature {
        patch: Rectangle::new(x, y, w, h),
        num_cell_per_row: 1,
        num_cell_per_col: 1,
    };
    assert_eq!(f[0], cell(0, 0, 5, 5));
    assert_eq!(f[1], cell(5, 0, 5, 5));
    assert_eq!(f[2], cell(0, 5, 5, 5));
    assert_eq!(f[12], cell(0, 0, 10, 10));
    assert_eq!(f[16], cell(0, 20, 10, 10));
    assert_eq!(pool.get_feature_vector_dim(16), Ok(8));
}

#[test]
fn formats_keep_insertion_order() {
    let mut pool = FeaturePool::new(small_params());
    pool.add_patch_format(2, 1, 2, 2);
    pool.add_patch_format(1, 1, 2, 2);
    assert_eq!(pool.patch_formats().len(), 2);
    assert_eq!(pool.patch_formats()[0].width, 2);
    pool.create();
    assert_eq!(pool.size(), 28 + 55);
    assert_eq!(pool.features()[0], feature(0, 0, 8, 4));
    assert_eq!(pool.features()[28], feature(0, 0, 4, 4));
    assert_eq!(pool.params(), small_params());
}

#[test]
fn rectangle_new_keeps_fields() {
    let r = Rectangle::new(1, 2, 3, 4);
    assert_eq!((r.x, r.y, r.width, r.height), (1, 2, 3, 4));
}
