use surf_featmap::error::FeatureMapError;
use surf_featmap::feature_map::SurfMlpFeatureMap;
use surf_featmap::gradient::{compute_grad_x, compute_grad_y, widen};
use surf_featmap::integral::integral;
use surf_featmap::channels::fill_masked_channels;

fn computed(pixels: &[u8], width: u32, height: u32) -> SurfMlpFeatureMap {
    let mut m = SurfMlpFeatureMap::new();
    assert_eq!(m.compute(pixels, width, height), Ok(()));
    m
}

fn abs(v: i32) -> i32 {
    if v < 0 { -v } else { v }
}

/// The eight routed channel values of a pixel, written out directly.
fn routed(gx: i32, gy: i32) -> [i32; 8] {
    let (a, b) = if gy >= 0 { ([gx, abs(gx)], [0, 0]) } else { ([0, 0], [gx, abs(gx)]) };
    let (c, d) = if gx >= 0 { ([gy, abs(gy)], [0, 0]) } else { ([0, 0], [gy, abs(gy)]) };
    [a[0], a[1], b[0], b[1], c[0], c[1], d[0], d[1]]
}

fn at(m: &SurfMlpFeatureMap, r: i64, c: i64, ch: usize) -> i64 {
    if r < 0 || c < 0 {
        return 0;
    }
    let w = m.width() as i64;
    m.int_img()[((r * w + c) as usize) * 8 + ch] as i64
}

/// Checks every rectangle and channel: the four-corner sum equals a direct
/// double loop over the routed gradient values.
fn check_all_rectangles(m: &SurfMlpFeatureMap) {
    let w = m.width() as i64;
    let h = m.height() as i64;
    for ch in 0..8 {
        for r0 in 0..h {
            for r1 in r0..h {
                for c0 in 0..w {
                    for c1 in c0..w {
                        let corner = at(m, r1, c1, ch) - at(m, r0 - 1, c1, ch) - at(m, r1, c0 - 1, ch)
                            + at(m, r0 - 1, c0 - 1, ch);
                        let mut direct: i64 = 0;
                        for r in r0..=r1 {
                            for c in c0..=c1 {
                                let i = (r * w + c) as usize;
                                direct += routed(m.grad_x()[i], m.grad_y()[i])[ch] as i64;
                            }
                        }
                        assert_eq!(corner, direct, "channel {} rows {}..={} cols {}..={}", ch, r0, r1, c0, c1);
                    }
                }
            }
        }
    }
}

#[test]
fn buffer_sizes_follow_image_size() {
    let pixels: Vec<u8> = (0..15).map(|v| (v * 7) as u8).collect();
    let m = computed(&pixels, 5, 3);
    assert_eq!(m.width(), 5);
    assert_eq!(m.height(), 3);
    assert_eq!(m.length(), 15);
    assert_eq!(m.grad_x().len(), 15);
    assert_eq!(m.grad_y().len(), 15);
    assert_eq!(m.img_buf().len(), 15);
    assert_eq!(m.int_img().len(), 120);
}

#[test]
fn buffers_are_resized_between_images() {
    let mut m = computed(&[9u8; 64], 8, 8);
    assert_eq!(m.int_img().len(), 512);
    assert_eq!(m.compute(&[1u8, 2, 3, 4, 5, 6], 3, 2), Ok(()));
    assert_eq!(m.grad_x().len(), 6);
    assert_eq!(m.int_img().len(), 48);
    assert_eq!(m.img_buf(), &vec![1, 2, 3, 4, 5, 6]);
}

#[test]
fn zero_width_is_rejected_and_state_kept() {
    let pixels: Vec<u8> = (0..16).map(|v| (v * 13 % 256) as u8).collect();
    let mut m = computed(&pixels, 4, 4);
    let grad_x = m.grad_x().clone();
    let grad_y = m.grad_y().clone();
    let int_img = m.int_img().clone();
    assert_eq!(m.compute(&[], 0, 4), Err(FeatureMapError::InvalidArgument));
    assert_eq!(m.width(), 4);
    assert_eq!(m.height(), 4);
    assert_eq!(m.grad_x(), &grad_x);
    assert_eq!(m.grad_y(), &grad_y);
    assert_eq!(m.int_img(), &int_img);
}

#[test]
fn zero_height_is_rejected() {
    let mut m = SurfMlpFeatureMap::new();
    assert_eq!(m.compute(&[], 7, 0), Err(FeatureMapError::InvalidArgument));
    assert_eq!(m.compute(&[], 0, 0), Err(FeatureMapError::InvalidArgument));
    assert_eq!(m.width(), 0);
    assert_eq!(m.int_img().len(), 0);
}

#[test]
fn row_gradient_doubles_at_the_ends() {
    // one row of N + 1 values 0, 10, ..., 10N with N = 5
    let pixels: Vec<u8> = (0..6).map(|v| (v * 10) as u8).collect();
    let m = computed(&pixels, 6, 1);
    assert_eq!(m.grad_x(), &vec![20, 20, 20, 20, 20, 20]);
    assert_eq!(m.grad_y(), &vec![0, 0, 0, 0, 0, 0]);
}

#[test]
fn row_gradient_uneven_steps() {
    let m = computed(&[0u8, 10, 30, 60], 4, 1);
    assert_eq!(m.grad_x(), &vec![20, 30, 50, 60]);
}

#[test]
fn column_gradient_doubles_at_the_ends() {
    let m = computed(&[5u8, 7, 12, 40], 1, 4);
    assert_eq!(m.grad_y(), &vec![4, 7, 33, 56]);
    assert_eq!(m.grad_x(), &vec![0, 0, 0, 0]);
}

#[test]
fn gradients_of_small_image() {
    // 3 x 3, rows [1 2 4] [8 16 32] [64 128 255]
    let m = computed(&[1u8, 2, 4, 8, 16, 32, 64, 128, 255], 3, 3);
    assert_eq!(m.grad_x(), &vec![2, 3, 4, 16, 24, 32, 128, 191, 254]);
    assert_eq!(m.grad_y(), &vec![14, 28, 56, 63, 126, 251, 112, 224, 446]);
}

#[test]
fn negative_gradients_are_routed() {
    // falling row: gx < 0 everywhere, gy = 0
    let m = computed(&[200u8, 100, 0], 3, 1);
    assert_eq!(m.grad_x(), &vec![-200, -200, -200]);
    // pixel 0, channels 0..8: gy = 0 keeps gx in 0 and 1; gx < 0 sends gy to 6 and 7
    assert_eq!(&m.int_img()[0..8], &[-200, 200, 0, 0, 0, 0, 0, 0]);
    assert_eq!(&m.int_img()[16..24], &[-600, 600, 0, 0, 0, 0, 0, 0]);
}

#[test]
fn integral_matches_direct_sums_zero_image() {
    let m = computed(&[0u8; 16], 4, 4);
    check_all_rectangles(&m);
    assert!(m.int_img().iter().all(|&v| v == 0));
}

#[test]
fn integral_matches_direct_sums_constant_image() {
    let m = computed(&[77u8; 16], 4, 4);
    check_all_rectangles(&m);
}

#[test]
fn integral_matches_direct_sums_checkerboard() {
    let pixels: Vec<u8> = (0..16).map(|i| if (i / 4 + i % 4) % 2 == 0 { 255 } else { 0 }).collect();
    let m = computed(&pixels, 4, 4);
    check_all_rectangles(&m);
    assert!(m.grad_x().iter().any(|&v| v < 0));
    assert!(m.grad_y().iter().any(|&v| v < 0));
}

#[test]
fn integral_matches_direct_sums_pseudo_random() {
    let mut state: u32 = 12345;
    let mut pixels = Vec::new();
    for _ in 0..20 {
        state = state.wrapping_mul(1103515245).wrapping_add(12345);
        pixels.push((state >> 16) as u8);
    }
    let m = computed(&pixels, 5, 4);
    check_all_rectangles(&m);
}

#[test]
fn sign_routing_is_exclusive() {
    let mut state: u32 = 777;
    let mut pixels = Vec::new();
    for _ in 0..36 {
        state = state.wrapping_mul(1103515245).wrapping_add(12345);
        pixels.push((state >> 16) as u8);
    }
    let m = computed(&pixels, 6, 6);
    for r in 0..6i64 {
        for c in 0..6i64 {
            let value = |ch| at(&m, r, c, ch) - at(&m, r - 1, c, ch) - at(&m, r, c - 1, ch) + at(&m, r - 1, c - 1, ch);
            let i = (r * 6 + c) as usize;
            let (gx, gy) = (m.grad_x()[i] as i64, m.grad_y()[i] as i64);
            assert!((value(0) == 0 && value(1) == 0) || (value(2) == 0 && value(3) == 0));
            assert!((value(4) == 0 && value(5) == 0) || (value(6) == 0 && value(7) == 0));
            if gy >= 0 {
                assert_eq!((value(0), value(1), value(2), value(3)), (gx, gx.abs(), 0, 0));
            } else {
                assert_eq!((value(0), value(1), value(2), value(3)), (0, 0, gx, gx.abs()));
            }
            if gx >= 0 {
                assert_eq!((value(4), value(5), value(6), value(7)), (gy, gy.abs(), 0, 0));
            } else {
                assert_eq!((value(4), value(5), value(6), value(7)), (0, 0, gy, gy.abs()));
            }
        }
    }
}

#[test]
fn constant_image_gives_zero_everywhere() {
    let m = computed(&[128u8; 64], 8, 8);
    assert!(m.grad_x().iter().all(|&v| v == 0));
    assert!(m.grad_y().iter().all(|&v| v == 0));
    assert_eq!(m.int_img().len(), 512);
    assert!(m.int_img().iter().all(|&v| v == 0));
}

#[test]
fn single_pixel_image() {
    let m = computed(&[42u8], 1, 1);
    assert_eq!(m.grad_x(), &vec![0]);
    assert_eq!(m.grad_y(), &vec![0]);
    assert_eq!(m.int_img(), &vec![0; 8]);
}

#[test]
fn largest_gradient_accumulates() {
    // a vertical edge 0 | 255 in 2 x 2: gx = 510 at every pixel, gy = 0
    let m = computed(&[0u8, 255, 0, 255], 2, 2);
    assert_eq!(m.grad_x(), &vec![510, 510, 510, 510]);
    // bottom-right pixel: channel 0 sums gx over all four pixels
    assert_eq!(m.int_img()[3 * 8], 2040);
    assert_eq!(m.int_img()[3 * 8 + 1], 2040);
    check_all_rectangles(&m);
}

#[test]
fn new_engine_sizes_storage_from_catalog() {
    let m = SurfMlpFeatureMap::new();
    let pool = m.feature_pool();
    assert_eq!(pool.size(), 56);
    assert_eq!(m.feature_vectors().len(), 56);
    assert_eq!(m.feature_valid_indicators().len(), 56);
    assert!(m.feature_vectors().iter().all(|v| v.is_empty()));
    assert!(m.feature_valid_indicators().iter().all(|&v| !v));
    assert_eq!(pool.get_feature_vector_dim(55), Ok(32));
    assert_eq!(pool.features()[0].patch.width, 16);
    assert_eq!(pool.patch_formats().len(), 5);
}

#[test]
fn pipeline_pieces_compose() {
    let img = widen(&[3u8, 1, 4, 1, 5, 9]);
    assert_eq!(img, vec![3, 1, 4, 1, 5, 9]);
    let gx = compute_grad_x(&img, 3, 2);
    let gy = compute_grad_y(&img, 3, 2);
    assert_eq!(gx, vec![-4, 1, 6, 8, 8, 8]);
    assert_eq!(gy, vec![-4, 8, 10, -4, 8, 10]);
    let mut buf = fill_masked_channels(&gx, &gy);
    assert_eq!(&buf[0..8], &[0, 0, -4, 4, 0, 0, -4, 4]);
    integral(&mut buf, 3, 2);
    let m = computed(&[3u8, 1, 4, 1, 5, 9], 3, 2);
    assert_eq!(&buf, m.int_img());
}
