use fee_router::wide::{widening_mul, U256};

#[test]
fn widening_mul_exact() {
    let r = widening_mul(u128::MAX, u128::MAX);
    // (2^128 - 1)^2 = 2^256 - 2^129 + 1
    assert_eq!(r.lo, 1);
    assert_eq!(r.hi, u128::MAX - 1);

    let r = widening_mul(0, 12345);
    assert_eq!((r.lo, r.hi), (0, 0));

    let r = widening_mul(1 << 127, 4);
    assert_eq!((r.lo, r.hi), (0, 2));

    let r = widening_mul(340_282_366_920_938_463_463, 1_000_000_000_000);
    assert_eq!(r.hi, 0);
    assert_eq!(r.lo, 340_282_366_920_938_463_463_000_000_000_000);
}

#[test]
fn div_rem_basic() {
    let n = widening_mul(1_000_000_007, 998_244_353);
    let (q, rem) = n.div_rem(U256::from_u128(998_244_353));
    assert_eq!(q.try_to_u128(), Some(1_000_000_007));
    assert_eq!(rem.try_to_u128(), Some(0));

    let (q, rem) = U256::from_u128(1000).div_rem(U256::from_u128(7));
    assert_eq!(q.try_to_u128(), Some(142));
    assert_eq!(rem.try_to_u128(), Some(6));
}

#[test]
fn div_rem_large_divisor() {
    // dividend and divisor both beyond 128 bits
    let n = widening_mul(u128::MAX, 12345);
    let d = widening_mul(u128::MAX, 5);
    let (q, rem) = n.div_rem(d);
    assert_eq!(q.try_to_u128(), Some(2469));
    assert_eq!(rem.try_to_u128(), Some(0));
}

#[test]
fn isqrt_values() {
    assert_eq!(U256::from_u128(0).isqrt(), 0);
    assert_eq!(U256::from_u128(1).isqrt(), 1);
    assert_eq!(U256::from_u128(3).isqrt(), 1);
    assert_eq!(U256::from_u128(4).isqrt(), 2);
    assert_eq!(U256::from_u128(60000).isqrt(), 244);
    assert_eq!(U256::from_u128(18_000_000_000_000).isqrt(), 4_242_640);
    // sqrt of (2^128 - 1)^2 is exactly 2^128 - 1
    assert_eq!(widening_mul(u128::MAX, u128::MAX).isqrt(), u128::MAX);
    // one less than a perfect square rounds down
    let near = widening_mul(1 << 100, 1 << 100).sub(U256::from_u128(1));
    assert_eq!(near.isqrt(), (1u128 << 100) - 1);
}

#[test]
fn add_sub_roundtrip() {
    let a = widening_mul(u128::MAX, 777);
    let b = widening_mul(u128::MAX, 111);
    let sum = a.add_checked(b).unwrap();
    let back = sum.sub(b);
    assert_eq!((back.lo, back.hi), (a.lo, a.hi));
    // overflow is reported, not wrapped
    let top = widening_mul(u128::MAX, u128::MAX);
    assert!(top.add_checked(top).is_none());
}

#[test]
fn compare_and_narrow() {
    let a = U256::from_u128(5);
    let b = widening_mul(1 << 80, 1 << 80);
    assert!(a.lt(b));
    assert!(!b.lt(a));
    assert!(a.le(a));
    assert_eq!(a.try_to_u128(), Some(5));
    assert_eq!(b.try_to_u128(), None);
    assert!(b.mul_u128_checked(2).is_some());
    assert!(b.mul_u128_checked(u128::MAX).is_none());
}
