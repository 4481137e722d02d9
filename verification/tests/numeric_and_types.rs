use wasmic::numeric::SupportedInteger;
use wasmic::types::{Limits, Mem as MemType, Table as TableType};
use wasmic::validation::Context;
use wasmic::validation::Validable;

fn empty_context() -> Context {
    Context {
        types: vec![],
        funcs: vec![],
        tables: vec![],
        mems: vec![],
        globals: vec![],
        elems: vec![],
        data: vec![],
        locals: vec![],
        labels: vec![],
        ret: None,
        references: vec![],
    }
}

#[test]
fn counting_laws_on_values() {
    // clz(a) + popcnt(a) <= 32 on sample values.
    for a in [0u32, 1, 2, 0x8000_0000, 0xffff_ffff, 0x00f0_0f00] {
        let sum = a.clz() as u64 + a.popcnt() as u64;
        assert!(sum <= 32);
    }
    assert_eq!(0u32.clz(), 32);
    assert_eq!(0u32.ctz(), 32);
    assert_eq!(0u32.popcnt(), 0);
    assert_eq!(0xffff_ffffu32.popcnt(), 32);
    assert_eq!(0u64.clz(), 64);
    assert_eq!(1u64.ctz(), 0);
    assert_eq!(0x8000_0000_0000_0000u64.ctz(), 63);
}

#[test]
fn rotation_roundtrip_on_values() {
    for a in [0u32, 1, 0x8000_0001, 0xdead_beef] {
        for k in [0u32, 1, 7, 31, 32, 45] {
            let there = SupportedInteger::rotl(a, k);
            let back = SupportedInteger::rotr(there, k);
            assert_eq!(back, a);
        }
    }
    let a: u64 = 0x0123_4567_89ab_cdef;
    let r = SupportedInteger::rotr(SupportedInteger::rotl(a, 17), 17);
    assert_eq!(r, a);
    assert_eq!(SupportedInteger::rotl(0x8000_0001u32, 1), 3);
}

#[test]
fn shifts_reduce_modulo_width() {
    // shl(a, k) == shl(a, k mod 32).
    assert_eq!(SupportedInteger::shl(1u32, 33), SupportedInteger::shl(1u32, 1));
    assert_eq!(SupportedInteger::shl(1u32, 33), 2);
    assert_eq!(SupportedInteger::shr_u(8u32, 35), 1);
    assert_eq!(SupportedInteger::shl(1u64, 65), 2);
    // Arithmetic shift keeps the sign: -16 >> 2 == -4.
    assert_eq!(SupportedInteger::shr_s(0xffff_fff0u32, 2), 0xffff_fffc);
    assert_eq!(SupportedInteger::shr_u(0xffff_fff0u32, 2), 0x3fff_fffc);
    assert_eq!(
        SupportedInteger::shr_s(0xffff_ffff_ffff_fff0u64, 2),
        0xffff_ffff_ffff_fffc
    );
}

#[test]
fn signed_division_and_remainder() {
    // -7 / 2 truncates toward zero: -3 remainder -1.
    assert_eq!(SupportedInteger::div_s(0xffff_fff9u32, 2), 0xffff_fffd);
    assert_eq!(SupportedInteger::rem_s(0xffff_fff9u32, 2), 0xffff_ffff);
    // 7 / -2 == -3 remainder 1.
    assert_eq!(SupportedInteger::div_s(7u32, 0xffff_fffeu32), 0xffff_fffd);
    assert_eq!(SupportedInteger::rem_s(7u32, 0xffff_fffeu32), 1);
    // -7 / -2 == 3 remainder -1.
    assert_eq!(SupportedInteger::div_s(0xffff_fff9u32, 0xffff_fffeu32), 3);
    assert_eq!(SupportedInteger::rem_s(0xffff_fff9u32, 0xffff_fffeu32), 0xffff_ffff);
    // The same on the 64-bit lane.
    assert_eq!(
        SupportedInteger::div_s(0xffff_ffff_ffff_fff9u64, 2),
        0xffff_ffff_ffff_fffdu64
    );
    // min_signed % -1 is 0 (no trap at the operator level).
    assert_eq!(SupportedInteger::rem_s(0x8000_0000u32, 0xffff_ffffu32), 0);
}

#[test]
fn signed_comparisons() {
    // -1 < 1 signed; the unsigned reading flips it.
    assert!(SupportedInteger::lts(0xffff_ffffu32, 1));
    assert!(SupportedInteger::gtu(0xffff_ffffu32, 1));
    assert!(SupportedInteger::ges(5u32, 5));
    assert!(SupportedInteger::les(0x8000_0000u32, 0x7fff_ffff));
    assert!(SupportedInteger::lts(0x8000_0000_0000_0000u64, 0));
    assert!(!SupportedInteger::lts(0u64, 0x8000_0000_0000_0000u64));
}

#[test]
fn conversions_between_signed_and_unsigned() {
    assert_eq!(0xffff_ffffu32.to_signed(), -1i32);
    assert_eq!(0x8000_0000u32.to_signed(), i32::MIN);
    assert_eq!(<u32 as SupportedInteger<i32>>::from_signed(-1), 0xffff_ffff);
    assert_eq!(<u64 as SupportedInteger<i64>>::from_signed(-2), 0xffff_ffff_ffff_fffe);
    assert_eq!(<u32 as SupportedInteger<i32>>::zero(), 0);
    assert_eq!(<u32 as SupportedInteger<i32>>::one(), 1);
    assert_eq!(<u32 as SupportedInteger<i32>>::len(), 32);
    assert_eq!(<u64 as SupportedInteger<i64>>::len(), 64);
    assert_eq!(<u32 as SupportedInteger<i32>>::max_value(), u32::MAX);
    assert!(2u32.eqz() == false);
    assert!(0u64.eqz());
    assert!(<u32 as SupportedInteger<i32>>::eq_(4, 4));
    assert!(<u32 as SupportedInteger<i32>>::ne_(4, 5));
}

#[test]
fn limit_subtyping_reflexive_transitive_cases() {
    let a = Limits { min: 5, max: Some(8) };
    let b = Limits { min: 3, max: Some(10) };
    let c = Limits { min: 1, max: None };
    // Reflexivity on samples.
    assert!(a.is_subtype(&a));
    assert!(b.is_subtype(&b));
    assert!(c.is_subtype(&c));
    // a <= b and b <= c, hence a <= c.
    assert!(a.is_subtype(&b));
    assert!(b.is_subtype(&c));
    assert!(a.is_subtype(&c));
    // A missing maximum is not usable where a bounded one is expected.
    assert!(!c.is_subtype(&a));
    // A smaller minimum is not usable where a larger one is expected.
    assert!(!b.is_subtype(&a));
}

#[test]
fn limits_validity_against_caps() {
    let ctx = empty_context();
    assert!(Limits { min: 1, max: Some(2) }.is_valid(&ctx, None));
    assert!(!Limits { min: 3, max: Some(2) }.is_valid(&ctx, None));
    assert!(Limits { min: 1, max: None }.is_valid(&ctx, Some(10)));
    assert!(!Limits { min: 11, max: None }.is_valid(&ctx, Some(10)));
    // Memory limits are capped at 65536 pages.
    assert!(MemType { limits: Limits { min: 65536, max: Some(65536) } }.is_valid(&ctx, None));
    assert!(!MemType { limits: Limits { min: 65537, max: None } }.is_valid(&ctx, None));
    // Table limits are capped at 2^32 - 1 entries.
    assert!(TableType { limits: Limits { min: 0, max: Some(0xffff_ffff) } }.is_valid(&ctx, None));
}
