use geometric_algebra::Coefficient;

#[test]
fn zero_is_the_additive_identity() {
    assert_eq!(<i8 as Coefficient>::zero(), 0);
    assert_eq!(<i16 as Coefficient>::zero(), 0);
    assert_eq!(<i32 as Coefficient>::zero(), 0);
    assert_eq!(<i64 as Coefficient>::zero(), 0);
    assert_eq!(<i128 as Coefficient>::zero(), 0);
    assert_eq!(<isize as Coefficient>::zero(), 0);
    assert_eq!(<u8 as Coefficient>::zero(), 0);
    assert_eq!(<u16 as Coefficient>::zero(), 0);
    assert_eq!(<u32 as Coefficient>::zero(), 0);
    assert_eq!(<u64 as Coefficient>::zero(), 0);
    assert_eq!(<u128 as Coefficient>::zero(), 0);
    assert_eq!(<usize as Coefficient>::zero(), 0);
}

#[test]
fn is_zero_is_exact() {
    assert!(0i32.is_zero());
    assert!(!1i32.is_zero());
    assert!(!(-1i32).is_zero());
    assert!(0u64.is_zero());
    assert!(!u64::MAX.is_zero());
    assert!(!i128::MIN.is_zero());
}

#[test]
fn plus_and_minus() {
    assert_eq!(5i32.plus(-7), -2);
    assert_eq!(5i32.minus(-7), 12);
    assert_eq!(200u8.plus(55), 255);
    assert_eq!(200u8.minus(200), 0);
    assert_eq!(i64::MAX.plus(i64::MIN), -1);
    assert_eq!((-1i8).minus(127), i8::MIN);
    assert_eq!(7usize.plus(0), 7);
    assert_eq!(3i16.plus(4).minus(4), 3);
}
