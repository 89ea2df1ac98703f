use wayland_client::fixed::Fixed;

fn fixed_from_f64(v: f64) -> Fixed {
    Fixed::from_bits((v * 256.0).round() as i32)
}

fn fixed_from_f32(v: f32) -> Fixed {
    Fixed::from_bits((v * 256.0).round() as i32)
}

fn f64_of(f: Fixed) -> f64 {
    f.to_bits() as f64 / 256.0
}

fn f32_of(f: Fixed) -> f32 {
    f.to_bits() as f32 / 256.0
}

#[test]
fn ints() {
    let fix = fixed_from_f64(54.34);

    assert_eq!(54_i8, fix.into());
    assert_eq!(54_i16, fix.into());
    assert_eq!(54_i32, fix.into());
    assert_eq!(54_i64, fix.into());
    assert_eq!(54_i128, fix.into());
    assert_eq!(54_isize, fix.into());

    assert_eq!(54_u8, fix.into());
    assert_eq!(54_u16, fix.into());
    assert_eq!(54_u32, fix.into());
    assert_eq!(54_u64, fix.into());
    assert_eq!(54_u128, fix.into());
    assert_eq!(54_usize, fix.into());
}

#[test]
fn negative_ints() {
    let fix = Fixed::from(-23);

    assert_eq!(-23_i8, fix.into());
    assert_eq!(-23_i16, fix.into());
    assert_eq!(-23_i32, fix.into());
    assert_eq!(-23_i64, fix.into());
    assert_eq!(-23_i128, fix.into());
    assert_eq!(-23_isize, fix.into());
}

#[test]
fn floats() {
    let fix = fixed_from_f64(20.456);

    assert!((f32_of(fix) - 20.456_f32).abs() < 0.01);
    assert!((f64_of(fix) - 20.456_f64).abs() < 0.01);
    assert!((f32_of(fixed_from_f32(20.456_f32)) - 20.456_f32).abs() < 0.01);
}

#[test]
fn negative_floats() {
    let fix = fixed_from_f64(-10.2);

    assert!((f32_of(fix) + 10.2_f32).abs() < 0.01);
    assert!((f64_of(fix) + 10.2_f64).abs() < 0.01);
    assert!((f32_of(fixed_from_f32(-10.2_f32)) + 10.2_f32).abs() < 0.01);
}

#[test]
fn add_sub() {
    let mut fix1 = fixed_from_f64(12.5);
    let fix2 = fixed_from_f64(7.5);

    assert_eq!(20, (fix1 + fix2).into()); // add
    assert_eq!(5, (fix1 - fix2).into()); // sub

    fix1 += fix2;
    assert_eq!(20, fix1.into()); // add assign
    fix1 -= fix2;
    assert_eq!(12.5, f64_of(fix1)); // sub assign
}

#[test]
fn mul_div() {
    let mut fix1 = Fixed::from(10);
    let fix2 = Fixed::from(2);

    assert_eq!(20, (fix1 * fix2).into());
    assert_eq!(5, (fix1 / fix2).into());

    fix1 *= fix2;
    assert_eq!(20, fix1.into());
    fix1 /= fix2;
    assert_eq!(10, fix1.into());
}

#[test]
fn neg_abs() {
    let fix = fixed_from_f64(12.5);
    assert_eq!(12.5, f64_of(fix));
    assert_eq!(-12.5, f64_of(-fix));
    assert_eq!(12.5, f64_of((-fix).abs()));
}

#[test]
fn sums_and_products_of_whole_numbers() {
    assert_eq!(fixed_from_f64(12.5) + fixed_from_f64(7.5), Fixed::from(20));
    assert_eq!(Fixed::from(10) * Fixed::from(2), Fixed::from(20));
    assert_eq!(-fixed_from_f64(12.5), fixed_from_f64(-12.5));
}

#[test]
fn integer_part_rounds_toward_zero() {
    let half = fixed_from_f64(-0.5);
    assert_eq!(half.to_bits(), -128);
    assert_eq!(0_i32, half.into());
    assert_eq!(0_i64, half.into());
    assert_eq!(-1_i32, fixed_from_f64(-1.5).into());
    assert_eq!(1_i32, fixed_from_f64(1.99).into());
}

#[test]
fn whole_numbers_round_trip() {
    for n in [-8_388_608_i32, -1, 0, 1, 255, 8_388_607] {
        let back: i32 = Fixed::from(n).into();
        assert_eq!(back, n);
        let back64: i64 = Fixed::from(n as i64).into();
        assert_eq!(back64, n as i64);
    }
    for n in [0_u16, 1, 65535] {
        let back: u16 = Fixed::from(n).into();
        assert_eq!(back, n);
    }
    assert_eq!(Fixed::from(3_u8).to_bits(), 768);
}

#[test]
fn float_conversion_error_is_within_one_unit() {
    for f in [0.0_f64, 0.001, -0.001, 3.14159, -1234.5678, 8000.99] {
        let back = f64_of(fixed_from_f64(f));
        assert!((back - f).abs() <= 1.0 / 256.0);
    }
}

#[test]
fn division_truncates_toward_zero() {
    let q = Fixed::from(-1) / Fixed::from(3);
    assert_eq!(q.to_bits(), -85);
    let p = Fixed::from_bits(-1) * Fixed::from_bits(1);
    assert_eq!(p.to_bits(), -1);
}
