use eyedetect::codec::{from_signed_unit, from_unit, to_signed_unit, to_unit, UNIT};

#[test]
fn convert_0_1() {
    for u in 0..=255u8 {
        let f = to_unit(u);
        assert!(f >= 0);
        assert!(f <= UNIT);
        assert!(from_unit(f) == u);
    }
}

#[test]
fn convert_n1_1() {
    for u in 0..=255u8 {
        let f = to_signed_unit(u);
        if u < 128 {
            assert!(f >= -UNIT);
            assert!(f <= 0);
        } else {
            assert!(f >= 0);
            assert!(f <= UNIT);
        }
        assert!(from_signed_unit(f) == u);
    }
}

#[test]
fn unit_is_monotone_with_fixed_ends() {
    assert_eq!(to_unit(0), 0);
    assert_eq!(to_unit(255), UNIT);
    for u in 0..255u8 {
        assert!(to_unit(u) <= to_unit(u + 1));
    }
}

#[test]
fn from_unit_caps_out_of_range() {
    assert_eq!(from_unit(-40), 0);
    assert_eq!(from_unit(300), 255);
    assert_eq!(from_unit(77), 77);
}

#[test]
fn signed_unit_rounds_half_to_even() {
    assert_eq!(to_signed_unit(0), -255);
    assert_eq!(to_signed_unit(255), 255);
    // 0.0 maps to 127.5, rounded to the even 128.
    assert_eq!(from_signed_unit(0), 128);
    // 2/255 maps to 128.5, rounded to the even 128.
    assert_eq!(from_signed_unit(2), 128);
    assert_eq!(from_signed_unit(4), 130);
    assert_eq!(from_signed_unit(-1000), 0);
    assert_eq!(from_signed_unit(1000), 255);
}
