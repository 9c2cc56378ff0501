use nspray::fixed::FixedI32;
use nspray::literal::MalformedLiteral;
use nspray::rng::Rng;

#[test]
fn mul() {
    let v1 = FixedI32::from_components(0b0000101000000000, 0b0000100000000000);
    let v2 = FixedI32::from_components(0b0000000000000010, 0b0000000000000000);
    let rs = FixedI32::from_components(0b0001010000000000, 0b0001000000000000);

    assert_eq!(v1 * v2, rs);

    let v1 = FixedI32::from_components(0b0000101000000000, 0b0000100000000000);
    let v2 = FixedI32::from_components(0b0000000000001011, 0b0000001000000000);
    let rs = FixedI32::from_components(0b0110111000010100, 0b0101100000010000);

    assert_eq!(v1 * v2, rs);

    let v1 = FixedI32::from_components(0b0111110000100110, 0b1100000100100101);
    let v2 = FixedI32::from_components(0b0000000000000000, 0b1111111111111000);
    let rs = FixedI32::from_components(0b0111110000100010, 0b1101111111101110);

    assert_eq!(v1 * v2, rs);
}

#[test]
fn div() {
    let v1 = FixedI32::from_components(0b0000000000000001, 0b0000000000000000);
    let v2 = FixedI32::from_components(0b0000000000000111, 0b0000000000000000);
    let rs = FixedI32::from_components(0b0000000000000000, 0b0010010010010010);

    assert_eq!(v1 / v2, rs);

    let v1 = FixedI32::from_components(0b0000001011011100, 0b1000111101011100);
    let v2 = FixedI32::from_components(0b0000000000000000, 0b1100110011001100);
    let rs = FixedI32::from_components(0b0000001110010011, 0b1011011011000110);

    assert_eq!(v1 / v2, rs);
}

#[test]
fn from_str() {
    let c1 = FixedI32::try_from("1.625").unwrap();
    let c2 = FixedI32::from_components(0b0000000000000001, 0b1010000000000000);

    assert_eq!(c1, c2);

    let c1 = FixedI32::try_from("1.2").unwrap();
    let c2 = FixedI32::from_components(0b0000000000000001, 0b0011001100110011);

    assert_eq!(c1, c2);

    let c1 = FixedI32::try_from("3921.47215").unwrap();
    let c2 = FixedI32::from_components(0b0000111101010001, 0b0111100011011110);

    assert_eq!(c1, c2);
}

fn reference_mul(a: i32, b: i32) -> i32 {
    ((a as i64 * b as i64) >> 16) as i32
}

fn reference_div(a: i32, b: i32) -> i32 {
    (((a as i64) << 16) / b as i64) as i32
}

#[test]
fn mul_matches_reference_on_signed_and_wrapping_values() {
    let cases = [
        (0, 0),
        (65536, -65536),
        (-98304, 32768),
        (i32::MAX, i32::MAX),
        (i32::MIN, i32::MIN),
        (i32::MIN, 65536),
        (123456789, -987654),
        (-1, 1),
    ];
    for (a, b) in cases {
        let r = FixedI32 { value: a } * FixedI32 { value: b };
        assert_eq!(r.value, reference_mul(a, b), "{} * {}", a, b);
    }
}

#[test]
fn div_matches_reference_on_signed_and_wrapping_values() {
    let cases = [
        (65536, 3 * 65536),
        (-65536, 3 * 65536),
        (65536, -3 * 65536),
        (-65536, -3 * 65536),
        (i32::MAX, 1),
        (i32::MIN, 1),
        (7, -2),
        (123456789, 4321),
    ];
    for (a, b) in cases {
        let r = FixedI32 { value: a } / FixedI32 { value: b };
        assert_eq!(r.value, reference_div(a, b), "{} / {}", a, b);
    }
}

#[test]
fn parse_matches_components() {
    assert_eq!(FixedI32::parse("1.625"), Some(FixedI32::from_components(1, 0b1010_0000_0000_0000)));
    assert_eq!(FixedI32::parse("-1.5"), Some(FixedI32::from_components(-1, 0x8000)));
    assert_eq!(FixedI32::parse("+7"), Some(FixedI32::from_components(7, 0)));
    assert_eq!(FixedI32::parse("2."), Some(FixedI32::from_components(2, 0)));
    assert_eq!(FixedI32::parse("0.0000152587890625"), Some(FixedI32::from_components(0, 1)));
    assert_eq!(FixedI32::parse("0.99999999999999"), Some(FixedI32::from_components(0, 0xffff)));
    assert_eq!(FixedI32::parse("-2147483648"), Some(FixedI32 { value: 0 }));
}

#[test]
fn parse_rejects_malformed_literals() {
    for s in ["", ".5", "-", "+.5", "1.2.3", "1.+5", "abc", "1e5", "2147483648", "12 "] {
        assert_eq!(FixedI32::parse(s), None, "{:?}", s);
    }
    assert_eq!(FixedI32::try_from("abc"), Err(MalformedLiteral));
    assert_eq!(FixedI32::try_from("1.x"), Err(MalformedLiteral));
}

#[test]
fn constructors() {
    assert_eq!(FixedI32::new(3).value, 3 << 16);
    assert_eq!(FixedI32::new(-1).value, -65536);
    assert_eq!(FixedI32::new(40000).value, 40000i32.wrapping_shl(16));
    assert_eq!(FixedI32::from_dec(3, 14159, 5).value, 205887);
    assert_eq!(FixedI32::from(5u16).value, 5 << 16);
    assert_eq!(FixedI32::from(-2i8).value, -2 << 16);
    assert_eq!(FixedI32::default().value, 0);
    assert_eq!(i32::from(FixedI32 { value: -1 }), -1);
    assert_eq!(FixedI32 { value: 0x28000 }.to_int(), 2);
}

#[test]
fn integer_operands() {
    let x = FixedI32::new(5);
    assert_eq!((x + 2).value, 7 << 16);
    assert_eq!((x - 7).value, -2 << 16);
    assert_eq!((x * 3).value, 15 << 16);
    assert_eq!((x / 2).value, (5 << 16) / 2);
    assert_eq!((-x).value, -5 << 16);
    assert_eq!((FixedI32 { value: i32::MAX } + FixedI32 { value: 1 }).value, i32::MIN);
}

#[test]
fn modulo_abs_and_clamp() {
    let a = FixedI32::new(-5);
    assert_eq!(a.modulo(FixedI32::new(2)).value, -65536);
    assert_eq!(a.abs().value, 5 << 16);
    assert_eq!(FixedI32 { value: i32::MIN }.abs().value, i32::MIN);
    assert_eq!(FixedI32::new(7).clamp(0, 5).value, 5 << 16);
    assert_eq!(FixedI32 { value: -1 }.clamp(0, 5).value, 0);
    assert_eq!(FixedI32 { value: 0x18000 }.clamp(0, 5).value, 0x18000);
}

#[test]
fn pow_and_sqrt() {
    assert_eq!(FixedI32::new(3).pow(0).value, 65536);
    assert_eq!(FixedI32::new(3).pow(3).value, 27 << 16);
    assert_eq!(FixedI32::new(1).sqrt().value, 65536);
    let r = FixedI32::new(4).sqrt().value;
    assert!((r - 2 * 65536).abs() < 200, "{}", r);
    let r = FixedI32::new(2).sqrt().value;
    assert!((r - 92682).abs() < 200, "{}", r);
}

#[test]
fn trigonometry() {
    let pi = FixedI32 { value: nspray::fixed::PI_RAW };
    assert_eq!(FixedI32::new(0).sin().value, 0);
    let s = (pi / 2).sin().value;
    assert!((s - 65536).abs() < 400, "{}", s);
    let s = (pi / 6).sin().value;
    assert!((s - 32768).abs() < 200, "{}", s);
    let s = (-(pi / 6)).sin().value;
    assert!((s + 32768).abs() < 200, "{}", s);
    let c = FixedI32::new(0).cos().value;
    assert!((c - 65536).abs() < 400, "{}", c);
    let t = (pi / 4).tan().value;
    assert!((t - 65536).abs() < 400, "{}", t);
}

#[test]
fn random_numbers_lie_in_unit_interval() {
    let mut rng = Rng::new(7);
    let mut seen_nonzero = false;
    for _ in 0..100 {
        let v = FixedI32::rand(&mut rng).value;
        assert!((0..65536).contains(&v));
        seen_nonzero |= v != 0;
    }
    assert!(seen_nonzero);
}

#[test]
fn generator_follows_oorandom() {
    let mut ours = Rng::new(42);
    let mut theirs = oorandom::Rand32::new(42);
    let start = ours;
    for _ in 0..20 {
        assert_eq!(ours.rand_u32(), theirs.rand_u32());
    }
    assert_ne!(ours, start);
    let mut a = Rng::new(42);
    let mut theirs = oorandom::Rand32::new(42);
    for _ in 0..20 {
        let expected = (theirs.rand_u32() & 0xffff) as i32;
        assert_eq!(FixedI32::rand(&mut a).value, expected);
    }
}

#[test]
fn negative_literals_count_the_fraction_upwards() {
    assert_eq!(FixedI32::parse("-1.5").unwrap().value, -32768);
    assert_eq!(FixedI32::parse("-12.375").unwrap().value, -12 * 65536 + 24576);
}
