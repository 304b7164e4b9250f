use eyedetect::convolve::{apply_post, convolve, grey_to_float, Post};
use eyedetect::detect::{detect_edges, detect_eyes, detect_feature, edges, positive_weight};
use eyedetect::kernel::{build_ring, gradient_kernel, template_kernel, Orientation};
use eyedetect::raster::{to_gray_image, to_grayscale, GrayImage, RgbImage, UnitImage};

fn gray(width: u32, height: u32, data: Vec<u8>) -> GrayImage {
    GrayImage { width, height, data }
}

#[test]
fn edges_keep_dimensions() {
    let data: Vec<u8> = (0..28u32).map(|i| (i * 9 % 256) as u8).collect();
    let img = gray(7, 4, data);
    let e = detect_edges(&img);
    assert_eq!(e.width, 7);
    assert_eq!(e.height, 4);
    assert_eq!(e.data.len(), 28);
}

#[test]
fn flat_black_gives_no_edges() {
    let img = gray(10, 10, vec![0; 100]);
    let e = detect_edges(&img);
    assert_eq!(e.data, vec![0u8; 100]);
}

#[test]
fn top_band_edge_values() {
    let img = gray(3, 3, vec![10, 10, 10, 0, 0, 0, 0, 0, 0]);
    let e = detect_edges(&img);
    assert_eq!(e.data, vec![40, 40, 40, 40, 40, 40, 0, 0, 0]);
    let bright = gray(3, 3, vec![255, 255, 255, 0, 0, 0, 0, 0, 0]);
    let e = detect_edges(&bright);
    assert_eq!(e.data, vec![255, 255, 255, 255, 255, 255, 0, 0, 0]);
}

#[test]
fn edges_are_repeatable() {
    let data: Vec<u8> = (0..64u32).map(|i| (i * 37 % 251) as u8).collect();
    let img = gray(8, 8, data);
    let a = detect_edges(&img);
    let b = detect_edges(&img);
    assert_eq!(a.data, b.data);
    assert_eq!((a.width, a.height), (b.width, b.height));
}

#[test]
fn single_bright_pixel_response() {
    let mut data = vec![0u8; 25];
    data[2 * 5 + 2] = 255;
    let f = grey_to_float(&gray(5, 5, data), Post::Identity);
    let r = convolve(&f, &gradient_kernel(Orientation::Deg0), Post::Identity);
    let mut expected = vec![0i64; 25];
    expected[1 * 5 + 1] = -255;
    expected[1 * 5 + 2] = -510;
    expected[1 * 5 + 3] = -255;
    expected[3 * 5 + 1] = 255;
    expected[3 * 5 + 2] = 510;
    expected[3 * 5 + 3] = 255;
    assert_eq!(r.data, expected);
}

#[test]
fn convolution_replicates_border() {
    let f = UnitImage { width: 2, height: 1, data: vec![10, 20] };
    let k = eyedetect::kernel::Kernel { width: 3, height: 1, data: vec![1, 0, 0] };
    let r = convolve(&f, &k, Post::Identity);
    assert_eq!(r.data, vec![10, 10]);
    let k = eyedetect::kernel::Kernel { width: 3, height: 1, data: vec![0, 0, 1] };
    let r = convolve(&f, &k, Post::Identity);
    assert_eq!(r.data, vec![20, 20]);
}

#[test]
fn post_processing_rules() {
    assert_eq!(apply_post(Post::Identity, -7), -7);
    assert_eq!(apply_post(Post::Clamp, -7), 0);
    assert_eq!(apply_post(Post::Clamp, 400), 255);
    assert_eq!(apply_post(Post::Clamp, 100), 100);
    // 76/255 is below 0.3, 77/255 above
    assert_eq!(apply_post(Post::Threshold { num: 3, den: 10 }, 76), 0);
    assert_eq!(apply_post(Post::Threshold { num: 3, den: 10 }, 77), 255);
}

#[test]
fn threshold_conditioning() {
    let f = grey_to_float(&gray(2, 2, vec![0, 76, 77, 255]), Post::Threshold { num: 3, den: 10 });
    assert_eq!(f.data, vec![0, 0, 255, 255]);
}

#[test]
fn rgb_goes_through_luma() {
    let rgb = RgbImage { width: 2, height: 1, data: vec![10, 200, 30, 255, 255, 255] };
    let g = to_grayscale(&rgb);
    assert_eq!(g.width, 2);
    assert_eq!(g.height, 1);
    assert_eq!(g.data, vec![147, 255]);
}

#[test]
fn rgb_edges_match_gray_edges() {
    let rgb = RgbImage {
        width: 3,
        height: 3,
        data: vec![10, 10, 10, 10, 10, 10, 10, 10, 10, 0, 0, 0, 0, 0, 0, 0, 0, 0, 0, 0, 0, 0, 0, 0, 0, 0, 0],
    };
    let e = edges(&rgb);
    assert_eq!(e.data, vec![40, 40, 40, 40, 40, 40, 0, 0, 0]);
}

#[test]
fn unit_image_back_to_samples() {
    let u = UnitImage { width: 3, height: 1, data: vec![-5, 100, 300] };
    let g = to_gray_image(&u);
    assert_eq!(g.data, vec![0, 100, 255]);
}

#[test]
fn disk_positive_mass() {
    assert_eq!(positive_weight(&build_ring(64, 0, 0, 40)), 42);
}

fn disk_blob(size: u32, cx: i32, cy: i32) -> GrayImage {
    let mut data = vec![0u8; (size * size) as usize];
    for dy in -2i32..=2 {
        for dx in -2i32..=2 {
            if dx.abs() == 2 && dy.abs() == 2 {
                continue;
            }
            data[((cy + dy) as u32 * size + (cx + dx) as u32) as usize] = 200;
        }
    }
    gray(size, size, data)
}

#[test]
fn feature_found_on_matching_blob() {
    let img = disk_blob(16, 8, 8);
    let template = template_kernel(&gray(1, 1, vec![255]));
    let d = detect_eyes(&img, &template);
    assert!(d.found);
    assert_eq!(d.coarse.data[8 * 16 + 8], 255);
    assert_eq!(d.coarse.data[0], 0);
    assert_eq!(d.smooth.data[8 * 16 + 8], 255 * 42);
}

#[test]
fn feature_not_found_on_flat_images() {
    let template = template_kernel(&gray(3, 3, vec![255; 9]));
    let bright = detect_eyes(&gray(8, 8, vec![255; 64]), &template);
    assert!(!bright.found);
    assert!(bright.coarse.data.iter().all(|v| *v == 255));
    assert!(bright.smooth.data.iter().all(|v| *v == 255 * (42 - 2 * 4075)));
    let dark = detect_eyes(&gray(8, 8, vec![0; 64]), &build_ring(32, 300, 400, 50));
    assert!(!dark.found);
    assert!(dark.coarse.data.iter().all(|v| *v == 0));
}

#[test]
fn feature_with_reference_pattern() {
    let img = disk_blob(16, 8, 8);
    let pattern = gray(1, 1, vec![255]);
    let d = detect_feature(&img, Some(&pattern));
    assert!(d.found);
    assert_eq!(d.smooth.data[8 * 16 + 8], 255 * 42);
}

#[test]
fn feature_with_procedural_ring() {
    let d = detect_feature(&gray(8, 8, vec![255; 64]), None);
    let ring = build_ring(32, 300, 400, 50);
    let plus = ring.data.iter().filter(|w| **w == 2).count() as i64;
    // every pixel is bright, so the coarse sum is the ring's total weight
    let total = 2 * plus - 2 * (1024 - plus);
    let expected = if 6 * total > 1024 { 255 } else { 0 };
    assert!(d.coarse.data.iter().all(|v| *v == expected));
    assert!(!d.found);
}
