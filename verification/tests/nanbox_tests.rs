use memory_pool_system::nanbox::{invert_non_negative, NanBox};

const TAG_DOUBLE_MIN: u16 = 0x0007;
const TAG_DOUBLE_MAX: u16 = 0xFFF8;

fn round_trip(x: f64) {
    let mut cell = NanBox::new();
    cell.store_double_bits(x.to_bits());
    assert!(cell.is_double());
    assert!(!cell.is_nil());
    assert!(!cell.is_ptr());
    let tag = cell.tag();
    assert!(TAG_DOUBLE_MIN <= tag && tag <= TAG_DOUBLE_MAX);
    let back = f64::from_bits(cell.load_double_bits());
    assert_eq!(back.to_bits(), x.to_bits());
}

#[test]
fn double_round_trip_finite_values() {
    round_trip(0.0);
    round_trip(-0.0);
    round_trip(1.0);
    round_trip(-1.0);
    round_trip(3.141592653589793);
    round_trip(-2.5e307);
    round_trip(f64::MAX);
    round_trip(f64::MIN);
    round_trip(f64::MIN_POSITIVE);
    round_trip(f64::from_bits(1)); // smallest subnormal
    round_trip(1234.5678);
}

#[test]
fn transform_is_involution_on_raw_patterns() {
    for &b in &[
        0u64,
        1,
        0x3FF0_0000_0000_0000,
        0xBFF0_0000_0000_0000,
        0x7FFF_FFFF_FFFF_FFFF,
        0x8000_0000_0000_0000,
        0xFFFF_FFFF_FFFF_FFFF,
        0xDEAD_BEEF_CAFE_F00D,
    ] {
        assert_eq!(invert_non_negative(invert_non_negative(b)), b);
    }
}

#[test]
fn transform_exact_values() {
    // a clear sign bit flips the low 63 bits; a set sign bit passes through
    assert_eq!(invert_non_negative(1.0f64.to_bits()), 0x400F_FFFF_FFFF_FFFF);
    assert_eq!(invert_non_negative((-1.0f64).to_bits()), 0xBFF0_0000_0000_0000);
    assert_eq!(invert_non_negative(0), 0x7FFF_FFFF_FFFF_FFFF);
}

#[test]
fn nil_precedence() {
    // the all-zero word is nil even though its tag equals the low pointer tag
    let cell = NanBox::new();
    assert_eq!(cell.tag(), 0x0000);
    assert!(cell.is_nil());
    assert!(!cell.is_ptr());
    assert!(!cell.is_double());
}

#[test]
fn store_nil_overwrites() {
    let mut cell = NanBox::new();
    cell.store_double_bits(2.5f64.to_bits());
    assert!(cell.is_double());
    cell.store_nil();
    assert!(cell.is_nil());
    assert_eq!(cell.bits(), 0);
}

#[test]
fn pointer_classification() {
    let cell = NanBox::from_ptr_bits(8);
    assert!(cell.is_ptr());
    assert!(!cell.is_nil());
    assert!(!cell.is_double());
    assert_eq!(cell.tag(), 0x0000);
    assert_eq!(cell.bits(), 8);
}

#[test]
fn copy_from_takes_source_value() {
    let mut a = NanBox::new();
    let mut b = NanBox::new();
    b.store_double_bits(6.25f64.to_bits());
    a.copy_from(&b);
    assert_eq!(a.bits(), b.bits());
    let mut c = NanBox::new();
    c.store_ptr(&NanBox::from_ptr_bits(64));
    assert_eq!(c.bits(), 64);
    assert!(c.is_ptr());
}
