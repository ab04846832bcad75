use rvemu_core::utils::{
    round_down, round_up, sext, sign_extend, u16_from_le, u16_to_le, u32_from_le, u32_to_le,
    u64_from_le, u64_to_le, zero_extend,
};

#[test]
fn test_round_up() {
    assert_eq!(round_up(5, 4), 8);
    assert_eq!(round_up(8, 4), 8);
    assert_eq!(round_up(9, 4), 12);
}

#[test]
fn test_round_down() {
    assert_eq!(round_down(5, 4), 4);
    assert_eq!(round_down(8, 4), 8);
    assert_eq!(round_down(9, 4), 8);
}

#[test]
fn test_sign_extend() {
    assert_eq!(sign_extend(0b00000001, 1), -1);
    assert_eq!(sign_extend(0b11111111, 8), -1);
    assert_eq!(sign_extend(0b00000000_00000000_00000000_00000001, 32), 1);
    assert_eq!(sign_extend(0b11111111_11111111_11111111_11111111, 32), -1);
    assert_eq!(sign_extend(0b100000000011111111000, 21), -1046536);
}

#[test]
fn test_zero_extend() {
    assert_eq!(zero_extend(0b00000001, 1), 1);
    assert_eq!(zero_extend(0b11111111, 8), 255);
    assert_eq!(zero_extend(0b00000000_00000000_00000000_00000001, 32), 1);
    assert_eq!(zero_extend(0b11111111_11111111_11111111_11111111, 32), 4294967295);
}

#[test]
fn round_up_to_a_page() {
    assert_eq!(round_up(0, 4096), 0);
    assert_eq!(round_up(1, 4096), 4096);
    assert_eq!(round_up(4095, 4096), 4096);
    assert_eq!(round_up(4096, 4096), 4096);
    assert_eq!(round_up(4097, 4096), 8192);
    assert_eq!(round_up(0x11001, 4096), 0x12000);
    for n in 0..20000u64 {
        let r = round_up(n, 4096);
        assert_eq!(r == n, n % 4096 == 0);
        assert_eq!(r % 4096, 0);
        assert!(r >= n && r - n < 4096);
    }
}

#[test]
fn round_down_to_a_page() {
    assert_eq!(round_down(0, 4096), 0);
    assert_eq!(round_down(4095, 4096), 0);
    assert_eq!(round_down(4096, 4096), 4096);
    assert_eq!(round_down(0x10fff, 4096), 0x10000);
    assert_eq!(round_down(u64::MAX, 4096), 0xffff_ffff_ffff_f000);
}

#[test]
fn round_to_an_alignment_that_is_no_power_of_two() {
    assert_eq!(round_up(10, 3), 12);
    assert_eq!(round_up(12, 3), 12);
    assert_eq!(round_down(10, 3), 9);
}

#[test]
fn sign_extend_keeps_the_low_bits() {
    assert_eq!(sign_extend(0x7ff, 12), 2047);
    assert_eq!(sign_extend(0x800, 12), -2048);
    assert_eq!(sign_extend(0xfff, 12), -1);
    assert_eq!(sign_extend(0xffff_f800, 12), -2048);
    assert_eq!(sign_extend(0x1ffe, 13), -2);
    assert_eq!(sign_extend(0x8000_0000, 32), -2147483648);
    assert_eq!(sign_extend(u64::MAX, 64), -1);
    assert_eq!(sign_extend(5, 64), 5);
}

#[test]
fn sext_is_the_twos_complement_word() {
    assert_eq!(sext(0xfff, 12), u64::MAX);
    assert_eq!(sext(0x8000_0000, 32), 0xffff_ffff_8000_0000);
    assert_eq!(sext(0x7f, 8), 0x7f);
    assert_eq!(sext(0x80, 8), 0xffff_ffff_ffff_ff80);
}

#[test]
fn zero_extend_clears_the_high_bits() {
    assert_eq!(zero_extend(u64::MAX, 5), 31);
    assert_eq!(zero_extend(u64::MAX, 0), 0);
    assert_eq!(zero_extend(0x1234_5678_9abc_def0, 63), 0x1234_5678_9abc_def0);
    assert_eq!(zero_extend(u64::MAX, 63), u64::MAX >> 1);
}

#[test]
fn little_endian_bytes_of_numbers() {
    assert_eq!(u16_to_le(0x1234), [0x34, 0x12]);
    assert_eq!(u32_to_le(0x12345678), [0x78, 0x56, 0x34, 0x12]);
    assert_eq!(
        u64_to_le(0x9abcdef012345678),
        [0x78, 0x56, 0x34, 0x12, 0xf0, 0xde, 0xbc, 0x9a]
    );
    assert_eq!(u16_from_le(0x34, 0x12), 0x1234);
    assert_eq!(u32_from_le(&[0x78, 0x56, 0x34, 0x12]), 0x12345678);
    assert_eq!(
        u64_from_le(&[0x78, 0x56, 0x34, 0x12, 0xf0, 0xde, 0xbc, 0x9a]),
        0x9abcdef012345678
    );
}

#[test]
fn little_endian_round_trips() {
    for v in [0u64, 1, 0xff, 0x100, 0xffff, 0x1_0000, u32::MAX as u64, u64::MAX, 0x0102030405060708] {
        assert_eq!(u64_from_le(&u64_to_le(v)), v);
        assert_eq!(u64::from_le_bytes(u64_to_le(v)), v);
        let w = v as u32;
        assert_eq!(u32_from_le(&u32_to_le(w)), w);
        assert_eq!(u32::from_le_bytes(u32_to_le(w)), w);
        let h = v as u16;
        let b = u16_to_le(h);
        assert_eq!(u16_from_le(b[0], b[1]), h);
    }
}
