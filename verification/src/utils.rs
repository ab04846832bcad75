//! Rounding to an alignment, and sign and zero extension of bit fields.
use vstd::prelude::*;
use vstd::arithmetic::div_mod::{
    lemma_fundamental_div_mod, lemma_mod_bound, lemma_mod_decreases, lemma_mod_multiples_basic,
};

verus! {

/// The greatest multiple of `align` that is at most `val`.
pub open spec fn round_down_spec(val: int, align: int) -> int {
    val - val % align
}

/// The least multiple of `align` that is at least `val`.
pub open spec fn round_up_spec(val: int, align: int) -> int {
    if val % align == 0 {
        val
    } else {
        val - val % align + align
    }
}

/// `val` read as a two's complement number of `bits` bits: the low `bits`
/// bits of `val`, less `2^bits` when the highest of them is set.
pub open spec fn sign_extend_spec(val: u64, bits: u32) -> int {
    let low = zero_extend_spec(val, bits);
    if bits >= 64 {
        val as i64 as int
    } else if low & (1u64 << ((bits - 1) as u32)) != 0 {
        low - (1u64 << bits)
    } else {
        low as int
    }
}

/// The 64-bit word that holds `val`, read as a two's complement number of
/// `bits` bits, in two's complement.
pub open spec fn sext_spec(val: u64, bits: u32) -> u64 {
    (sign_extend_spec(val, bits) as i64) as u64
}

/// The low `bits` bits of `val`.
pub open spec fn zero_extend_spec(val: u64, bits: u32) -> u64 {
    val & (((1u64 << bits) - 1) as u64)
}

pub fn round_down(val: u64, align: u64) -> (r: u64)
    requires
        align > 0,
    ensures
        r == round_down_spec(val as int, align as int),
{
    proof {
        lemma_mod_decreases(val as nat, align as nat);
    }
    val - val % align
}

pub fn round_up(val: u64, align: u64) -> (r: u64)
    requires
        align > 0,
        round_up_spec(val as int, align as int) <= u64::MAX,
    ensures
        r == round_up_spec(val as int, align as int),
{
    let rem = val % align;
    proof {
        lemma_mod_decreases(val as nat, align as nat);
    }
    if rem == 0 {
        val
    } else {
        val - rem + align
    }
}

/// Sign-extends the low `bits` bits of `val` to 64 bits.
pub fn sign_extend(val: u64, bits: u32) -> (r: i64)
    requires
        1 <= bits <= 64,
    ensures
        r == sign_extend_spec(val, bits),
{
    let shift: u32 = 64 - bits;
    let r = ((val as i64) << shift) >> shift;
    assert(((val as i64) << shift) >> shift == sign_extend_spec(val, bits)) by (bit_vector)
        requires
            1 <= bits <= 64,
            shift == 64 - bits,
    ;
    r
}

/// Sign-extends the low `bits` bits of `val` to a 64-bit word.
#[verifier::when_used_as_spec(sext_spec)]
pub fn sext(val: u64, bits: u32) -> (r: u64)
    requires
        1 <= bits <= 64,
    ensures
        r == sext_spec(val, bits),
{
    sign_extend(val, bits) as u64
}

/// Clears every bit of `val` from bit `bits` upwards.
pub fn zero_extend(val: u64, bits: u32) -> (r: u64)
    requires
        bits < 64,
    ensures
        r == zero_extend_spec(val, bits),
{
    assert((1u64 << bits) >= 1) by (bit_vector)
        requires
            bits < 64,
    ;
    val & ((1u64 << bits) - 1)
}

/// The weight of byte `i` in a little-endian number: `256^i`, for the
/// eight bytes of a doubleword.
pub open spec fn le_weight(i: int) -> int {
    if i == 0 {
        1
    } else if i == 1 {
        0x100
    } else if i == 2 {
        0x1_0000
    } else if i == 3 {
        0x100_0000
    } else if i == 4 {
        0x1_0000_0000
    } else if i == 5 {
        0x100_0000_0000
    } else if i == 6 {
        0x1_0000_0000_0000
    } else {
        0x100_0000_0000_0000
    }
}

/// Byte `i` of the little-endian encoding of `v`.
pub open spec fn le_byte(v: int, i: int) -> u8 {
    ((v / le_weight(i)) % 256) as u8
}

/// The first `n` bytes of the little-endian encoding of `v`.
pub open spec fn le_bytes(v: int, n: nat) -> Seq<u8> {
    Seq::new(n, |i: int| le_byte(v, i))
}

/// The number that the two bytes from `at` encode, low byte first.
pub open spec fn le_u16(b: Seq<u8>, at: int) -> int {
    b[at] + 0x100 * b[at + 1]
}

/// The number that the four bytes from `at` encode, low byte first.
pub open spec fn le_u32(b: Seq<u8>, at: int) -> int {
    le_u16(b, at) + 0x1_0000 * le_u16(b, at + 2)
}

/// The number that the eight bytes from `at` encode, low byte first.
pub open spec fn le_u64(b: Seq<u8>, at: int) -> int {
    le_u32(b, at) + 0x1_0000_0000 * le_u32(b, at + 4)
}

/// Two bytes, low byte first, as a halfword.
pub fn u16_from_le(b0: u8, b1: u8) -> (r: u16)
    ensures
        r == le_u16(seq![b0, b1], 0),
{
    b0 as u16 + 0x100 * (b1 as u16)
}

/// Four bytes, low byte first, as a word.
pub fn u32_from_le(b: &[u8; 4]) -> (r: u32)
    ensures
        r == le_u32(b@, 0),
{
    b[0] as u32 + 0x100 * (b[1] as u32) + 0x1_0000 * (b[2] as u32 + 0x100 * (b[3] as u32))
}

/// Eight bytes, low byte first, as a doubleword.
pub fn u64_from_le(b: &[u8; 8]) -> (r: u64)
    ensures
        r == le_u64(b@, 0),
{
    let lo: u64 = b[0] as u64 + 0x100 * (b[1] as u64) + 0x1_0000 * (b[2] as u64 + 0x100 * (b[3] as u64));
    let hi: u64 = b[4] as u64 + 0x100 * (b[5] as u64) + 0x1_0000 * (b[6] as u64 + 0x100 * (b[7] as u64));
    lo + 0x1_0000_0000 * hi
}

/// Reads the halfword at `at`, low byte first.
pub fn read_le_u16(src: &[u8], at: usize) -> (r: u16)
    requires
        at + 2 <= src@.len(),
    ensures
        r == le_u16(src@, at as int),
{
    u16_from_le(src[at], src[at + 1])
}

/// Reads the word at `at`, low byte first.
pub fn read_le_u32(src: &[u8], at: usize) -> (r: u32)
    requires
        at + 4 <= src@.len(),
    ensures
        r == le_u32(src@, at as int),
{
    let word = [src[at], src[at + 1], src[at + 2], src[at + 3]];
    u32_from_le(&word)
}

/// Reads the doubleword at `at`, low byte first.
pub fn read_le_u64(src: &[u8], at: usize) -> (r: u64)
    requires
        at + 8 <= src@.len(),
    ensures
        r == le_u64(src@, at as int),
{
    let word = [
        src[at],
        src[at + 1],
        src[at + 2],
        src[at + 3],
        src[at + 4],
        src[at + 5],
        src[at + 6],
        src[at + 7],
    ];
    u64_from_le(&word)
}

/// The two bytes of a halfword, low byte first.
pub fn u16_to_le(v: u16) -> (b: [u8; 2])
    ensures
        b@ == le_bytes(v as int, 2),
{
    let b = [(v % 0x100) as u8, (v / 0x100) as u8];
    assert(b@ =~= le_bytes(v as int, 2));
    b
}

/// The four bytes of a word, low byte first.
pub fn u32_to_le(v: u32) -> (b: [u8; 4])
    ensures
        b@ == le_bytes(v as int, 4),
{
    let b = [
        (v % 0x100) as u8,
        ((v / 0x100) % 0x100) as u8,
        ((v / 0x1_0000) % 0x100) as u8,
        (v / 0x100_0000) as u8,
    ];
    assert(b@ =~= le_bytes(v as int, 4));
    b
}

/// The eight bytes of a doubleword, low byte first.
pub fn u64_to_le(v: u64) -> (b: [u8; 8])
    ensures
        b@ == le_bytes(v as int, 8),
{
    let b = [
        (v % 0x100) as u8,
        ((v / 0x100) % 0x100) as u8,
        ((v / 0x1_0000) % 0x100) as u8,
        ((v / 0x100_0000) % 0x100) as u8,
        ((v / 0x1_0000_0000) % 0x100) as u8,
        ((v / 0x100_0000_0000) % 0x100) as u8,
        ((v / 0x1_0000_0000_0000) % 0x100) as u8,
        (v / 0x100_0000_0000_0000) as u8,
    ];
    assert(b@ =~= le_bytes(v as int, 8));
    b
}

/// Decoding the little-endian bytes of a halfword gives the halfword.
pub proof fn lemma_le_u16_round_trip(v: u16)
    ensures
        le_u16(le_bytes(v as int, 2), 0) == v,
{
}

/// Decoding the little-endian bytes of a word gives the word.
pub proof fn lemma_le_u32_round_trip(v: u32)
    ensures
        le_u32(le_bytes(v as int, 4), 0) == v,
{
}

/// Decoding the little-endian bytes of a doubleword gives the doubleword.
pub proof fn lemma_le_u64_round_trip(v: u64)
    ensures
        le_u64(le_bytes(v as int, 8), 0) == v,
{
    let b = le_bytes(v as int, 8);
    assert(b[0] == (v % 0x100) as u8);
    assert(b[1] == ((v / 0x100) % 0x100) as u8);
    assert(b[2] == ((v / 0x1_0000) % 0x100) as u8);
    assert(b[3] == ((v / 0x100_0000) % 0x100) as u8);
    assert(b[4] == ((v / 0x1_0000_0000) % 0x100) as u8);
    assert(b[5] == ((v / 0x100_0000_0000) % 0x100) as u8);
    assert(b[6] == ((v / 0x1_0000_0000_0000) % 0x100) as u8);
    assert(b[7] == ((v / 0x100_0000_0000_0000) % 0x100) as u8);
    assert((v % 0x100) + 0x100 * ((v / 0x100) % 0x100) + 0x1_0000 * (((v / 0x1_0000) % 0x100) + 0x100
        * ((v / 0x100_0000) % 0x100)) + 0x1_0000_0000 * (((v / 0x1_0000_0000) % 0x100) + 0x100 * ((v
        / 0x100_0000_0000) % 0x100) + 0x1_0000 * (((v / 0x1_0000_0000_0000) % 0x100) + 0x100 * ((v
        / 0x100_0000_0000_0000) % 0x100))) == v) by (bit_vector);
}

/// The sign extension of a field of 8, 12, 13, 16, 21 or 32 bits as a
/// number: the field itself where it is below half of its range, and
/// the field less its range where it is not.
pub proof fn lemma_sign_extend_value(val: u64, bits: u32)
    requires
        bits == 8 || bits == 12 || bits == 13 || bits == 16 || bits == 21 || bits == 32,
    ensures
        sign_extend_spec(val, bits) == if val % field_range(bits) < field_range(bits) / 2 {
            (val % field_range(bits)) as int
        } else {
            val % field_range(bits) - field_range(bits)
        },
{
    if bits == 8 {
        assert(sign_extend_spec(val, 8) == if val % 0x100 < 0x80 {
            (val % 0x100) as int
        } else {
            val % 0x100 - 0x100
        }) by (bit_vector);
    } else if bits == 12 {
        assert(sign_extend_spec(val, 12) == if val % 0x1000 < 0x800 {
            (val % 0x1000) as int
        } else {
            val % 0x1000 - 0x1000
        }) by (bit_vector);
    } else if bits == 13 {
        assert(sign_extend_spec(val, 13) == if val % 0x2000 < 0x1000 {
            (val % 0x2000) as int
        } else {
            val % 0x2000 - 0x2000
        }) by (bit_vector);
    } else if bits == 16 {
        assert(sign_extend_spec(val, 16) == if val % 0x1_0000 < 0x8000 {
            (val % 0x1_0000) as int
        } else {
            val % 0x1_0000 - 0x1_0000
        }) by (bit_vector);
    } else if bits == 21 {
        assert(sign_extend_spec(val, 21) == if val % 0x20_0000 < 0x10_0000 {
            (val % 0x20_0000) as int
        } else {
            val % 0x20_0000 - 0x20_0000
        }) by (bit_vector);
    } else {
        assert(sign_extend_spec(val, 32) == if val % 0x1_0000_0000 < 0x8000_0000 {
            (val % 0x1_0000_0000) as int
        } else {
            val % 0x1_0000_0000 - 0x1_0000_0000
        }) by (bit_vector);
    }
}

/// The number of values of a field of 8, 12, 13, 16, 21 or 32 bits.
pub open spec fn field_range(bits: u32) -> u64 {
    if bits == 8 {
        0x100
    } else if bits == 12 {
        0x1000
    } else if bits == 13 {
        0x2000
    } else if bits == 16 {
        0x1_0000
    } else if bits == 21 {
        0x20_0000
    } else {
        0x1_0000_0000
    }
}

/// Rounding down gives the greatest multiple of the alignment that does not
/// exceed the value.
pub proof fn lemma_round_down(val: int, align: int)
    requires
        val >= 0,
        align > 0,
    ensures
        round_down_spec(val, align) % align == 0,
        round_down_spec(val, align) <= val < round_down_spec(val, align) + align,
        round_down_spec(val, align) == val <==> val % align == 0,
{
    lemma_fundamental_div_mod(val, align);
    lemma_mod_bound(val, align);
    lemma_mod_multiples_basic(val / align, align);
    assert(round_down_spec(val, align) == align * (val / align));
    assert(align * (val / align) == (val / align) * align) by (nonlinear_arith);
}

/// Rounding up leaves a multiple of the alignment where it is and takes
/// every other value to the next multiple.
pub proof fn lemma_round_up(val: int, align: int)
    requires
        val >= 0,
        align > 0,
    ensures
        round_up_spec(val, align) % align == 0,
        val <= round_up_spec(val, align) < val + align,
        round_up_spec(val, align) == val <==> val % align == 0,
{
    lemma_fundamental_div_mod(val, align);
    lemma_mod_bound(val, align);
    lemma_mod_multiples_basic(val / align, align);
    lemma_mod_multiples_basic(val / align + 1, align);
    assert(align * (val / align) == (val / align) * align) by (nonlinear_arith);
    assert((val / align + 1) * align == (val / align) * align + align) by (nonlinear_arith);
}

} // verus!
