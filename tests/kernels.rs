use eyedetect::kernel::{build_ring, gradient_kernel, template_kernel, Orientation};
use eyedetect::raster::GrayImage;

#[test]
fn gradient_kernels_sum_to_zero() {
    for o in [Orientation::Deg0, Orientation::Deg90, Orientation::Deg45, Orientation::Deg135] {
        let k = gradient_kernel(o);
        assert_eq!(k.width, 3);
        assert_eq!(k.height, 3);
        assert_eq!(k.data.iter().sum::<i64>(), 0);
    }
    assert_eq!(gradient_kernel(Orientation::Deg45).data, vec![0, 1, 2, -1, 0, 1, -2, -1, 0]);
}

#[test]
fn ring_center_takes_dot() {
    for size in [2u32, 8, 32, 64] {
        let k = build_ring(size, 300, 400, 50);
        let c = (size / 2) as usize;
        assert_eq!(k.data[c * size as usize + c], 2);
    }
    // without a dot the center of a ring with a hole is negative
    let k = build_ring(8, 300, 400, 0);
    assert_eq!(k.data[4 * 8 + 4], -2);
}

#[test]
fn ring_is_symmetric_under_half_turn() {
    for size in [5u32, 9, 16] {
        let k = build_ring(size, 200, 400, 50);
        let s = size as usize;
        for x in 1..s {
            for y in 1..s {
                assert_eq!(k.data[x * s + y], k.data[(s - x) * s + (s - y)]);
            }
        }
    }
}

#[test]
fn ring_of_four_by_hand() {
    // Squared distances are ((x - 2)^2 + (y - 2)^2) / 16; only the corner
    // (0, 0), at 8 / 16, reaches 0.6^2 = 0.36, and all lie within 1.5.
    let k = build_ring(4, 600, 1500, 0);
    let mut expected = vec![-2i64; 16];
    expected[0] = 2;
    assert_eq!(k.data, expected);
}

#[test]
fn small_disk_has_twenty_one_cells() {
    let k = build_ring(64, 0, 0, 40);
    assert_eq!(k.data.len(), 64 * 64);
    assert_eq!(k.data.iter().filter(|w| **w == 2).count(), 21);
}

#[test]
fn template_weights_follow_cut() {
    let t = GrayImage { width: 2, height: 2, data: vec![0, 76, 77, 255] };
    let k = template_kernel(&t);
    assert_eq!(k.width, 2);
    assert_eq!(k.height, 2);
    assert_eq!(k.data, vec![0, 0, 3, 3]);
}
