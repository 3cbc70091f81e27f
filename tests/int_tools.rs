use fennec_gfx::int_tools::{u64_is_power_of_2, IntTools};

#[test]
fn unsigned_powers_of_two() {
    assert!(1u8.is_power_of_2());
    assert!(128u8.is_power_of_2());
    assert!(!0u8.is_power_of_2());
    assert!(!255u8.is_power_of_2());
    assert!(256u16.is_power_of_2());
    assert!(!384u16.is_power_of_2());
    assert!(1024u32.is_power_of_2());
    assert!(!1000u32.is_power_of_2());
    assert!((1u64 << 63).is_power_of_2());
    assert!(!u64::MAX.is_power_of_2());
    assert!(u64_is_power_of_2(64));
    assert!(!u64_is_power_of_2(96));
}

#[test]
fn signed_powers_of_two() {
    assert!(64i8.is_power_of_2());
    assert!(!(-64i8).is_power_of_2());
    assert!(!0i16.is_power_of_2());
    assert!(16384i16.is_power_of_2());
    assert!(!(-2i32).is_power_of_2());
    assert!(2i32.is_power_of_2());
    assert!(!6i64.is_power_of_2());
    assert!((1i64 << 40).is_power_of_2());
}
