//! The scalar codec: allocation-free writers that append the wire bytes of
//! one primitive value to the output buffer, and the matching length
//! functions that predict the byte count without writing.
//!
//! Each protobuf scalar type is named by a zero-sized marker struct; the
//! dispatch from markers to codecs lives in `typed_writers`.

use vstd::prelude::*;
use vstd::string::StringSliceAdditionalSpecFns;

use crate::wire::{
    int32_wire, int64_wire, le32_bytes, le64_bytes, lemma_varint_bytes_len, lemma_varint_len_bounds,
    sfixed32_wire, sfixed64_wire, varint_bytes, varint_len, zigzag32, zigzag64,
};
use vstd::arithmetic::div_mod::{lemma_fundamental_div_mod, lemma_fundamental_div_mod_converse};
use vstd::arithmetic::power2::{lemma2_to64, lemma_pow2_adds, lemma_pow2_pos, pow2};
use vstd::bits::lemma_u64_shr_is_div;

verus! {

/// The protobuf scalar types, as zero-sized markers.
#[derive(Debug, Copy, Clone, PartialEq, Eq, Default)]
pub struct Int32;

#[derive(Debug, Copy, Clone, PartialEq, Eq, Default)]
pub struct Sint32;

#[derive(Debug, Copy, Clone, PartialEq, Eq, Default)]
pub struct Int64;

#[derive(Debug, Copy, Clone, PartialEq, Eq, Default)]
pub struct Sint64;

#[derive(Debug, Copy, Clone, PartialEq, Eq, Default)]
pub struct Uint32;

#[derive(Debug, Copy, Clone, PartialEq, Eq, Default)]
pub struct Uint64;

#[derive(Debug, Copy, Clone, PartialEq, Eq, Default)]
pub struct Bool;

#[derive(Debug, Copy, Clone, PartialEq, Eq, Default)]
pub struct Fixed32;

#[derive(Debug, Copy, Clone, PartialEq, Eq, Default)]
pub struct Sfixed32;

/// Marker for `float` fields. The codec works on the value's IEEE-754 bit
/// pattern (a `u32`), which is what the wire carries little-endian.
#[derive(Debug, Copy, Clone, PartialEq, Eq, Default)]
pub struct Float;

#[derive(Debug, Copy, Clone, PartialEq, Eq, Default)]
pub struct Fixed64;

#[derive(Debug, Copy, Clone, PartialEq, Eq, Default)]
pub struct Sfixed64;

/// Marker for `double` fields; the codec works on the IEEE-754 bit pattern.
#[derive(Debug, Copy, Clone, PartialEq, Eq, Default)]
pub struct Double;

/// Marker for `string` fields (length-delimited).
#[derive(Debug, Copy, Clone, PartialEq, Eq, Default)]
pub struct PbString;

/// Marker for `bytes` fields (length-delimited).
#[derive(Debug, Copy, Clone, PartialEq, Eq, Default)]
pub struct PbBytes;

/// The 3-bit wire-type discriminant that frames a field's value.
/// Group start/end (3 and 4) are deprecated and not supported.
#[derive(Debug, Copy, Clone, PartialEq, Eq)]
pub enum WireType {
    Varint,
    I64,
    Len,
    I32,
}

impl WireType {
    /// The numeric discriminant this wire type has on the wire.
    pub open spec fn spec_val(self) -> u64 {
        match self {
            WireType::Varint => 0,
            WireType::I64 => 1,
            WireType::Len => 2,
            WireType::I32 => 5,
        }
    }

    /// The numeric discriminant, executable form.
    pub fn val(self) -> (v: u64)
        ensures
            v == self.spec_val(),
    {
        match self {
            WireType::Varint => 0,
            WireType::I64 => 1,
            WireType::Len => 2,
            WireType::I32 => 5,
        }
    }
}

/// Appends the minimal varint encoding of `value`: little-endian base-128
/// groups, continuation bit on every byte but the last.
pub fn write_varint(value: u64, buf: &mut Vec<u8>)
    ensures
        (*final(buf))@ == (*old(buf))@ + varint_bytes(value),
{
    let mut v: u64 = value;
    while v >= 0x80
        invariant
            (*buf)@ + varint_bytes(v) == (*old(buf))@ + varint_bytes(value),
        decreases v,
    {
        buf.push(((v % 0x80) + 0x80) as u8);
        proof {
            assert((*buf)@ + varint_bytes(v / 0x80) =~= (*old(buf))@ + varint_bytes(value));
        }
        v = v / 0x80;
    }
    buf.push(v as u8);
    proof {
        assert((*buf)@ =~= (*old(buf))@ + varint_bytes(value));
    }
}

/// The byte count `write_varint` produces, computed from the position of the
/// highest set bit (leading-zero count) rather than by iterating.
pub fn encoded_len_varint(value: u64) -> (len: usize)
    ensures
        len == varint_len(value),
{
    let x: u64 = value | 1;
    let lz: u32 = x.leading_zeros();
    proof {
        vstd::std_specs::bits::axiom_u64_leading_zeros(x);
        assert(x & 1 == 1u64 && x >= 1) by (bit_vector)
            requires
                x == value | 1,
        ;
        lemma_varint_len_or_one(value);
        let n = (63 - lz) as nat;
        lemma_leading_zeros_bitrange(x, lz as int);
        lemma_varint_len_of_bitrange(x, n);
        lemma_len_formula(n);
        assert(lz ^ 63 == 63 - lz) by (bit_vector)
            requires
                lz <= 63,
        ;
    }
    (((lz ^ 63) * 9 + 73) / 64) as usize
}

/// Setting the low bit never changes how many base-128 groups are needed.
proof fn lemma_varint_len_or_one(v: u64)
    ensures
        varint_len(v | 1) == varint_len(v),
{
    let x = v | 1;
    assert((x >= 128 <==> v >= 128) && x >> 7 == v >> 7) by (bit_vector)
        requires
            x == v | 1,
    ;
    if v >= 128 {
        lemma_u64_shr_is_div(x, 7);
        lemma_u64_shr_is_div(v, 7);
        lemma2_to64();
        assert(x / 128 == v / 128);
    }
}

/// A nonzero word lies between the powers of two that its leading-zero
/// count describes.
proof fn lemma_leading_zeros_bitrange(x: u64, lz: int)
    requires
        x >= 1,
        lz == vstd::std_specs::bits::u64_leading_zeros(x),
    ensures
        0 <= lz <= 63,
        pow2((63 - lz) as nat) <= x,
        lz >= 1 ==> (x as nat) < pow2((64 - lz) as nat),
{
    vstd::std_specs::bits::axiom_u64_leading_zeros(x);
    lemma2_to64();
    // Lower bound: the bit at index 63 - lz is set.
    let s2 = (63 - lz) as u64;
    let y = x >> s2;
    assert(y & 1 != 0 ==> y >= 1) by (bit_vector);
    lemma_u64_shr_is_div(x, s2);
    lemma_pow2_pos(s2 as nat);
    assert(x as nat / pow2(s2 as nat) >= 1);
    assert(x as nat >= pow2(s2 as nat)) by (nonlinear_arith)
        requires
            x as nat / pow2(s2 as nat) >= 1,
            pow2(s2 as nat) >= 1,
    ;
    // Upper bound: all bits from 64 - lz up are clear.
    if lz >= 1 {
        let s = (64 - lz) as u64;
        assert(x >> s == 0);
        lemma_u64_shr_is_div(x, s);
        lemma_pow2_pos(s as nat);
        assert((x as nat) < pow2(s as nat)) by (nonlinear_arith)
            requires
                x as nat / pow2(s as nat) == 0,
                pow2(s as nat) >= 1,
    ;
    }
}

/// A value between 2^n and 2^(n+1) needs exactly n/7 + 1 base-128 groups.
proof fn lemma_varint_len_of_bitrange(v: u64, n: nat)
    requires
        n < 64,
        pow2(n) <= v,
        n < 63 ==> (v as nat) < pow2(n + 1),
    ensures
        varint_len(v) == n / 7 + 1,
    decreases n,
{
    lemma2_to64();
    if n < 7 {
        if n < 63 {
            assert(pow2(n + 1) <= pow2(7)) by {
                lemma_pow2_adds(n + 1, (7 - n - 1) as nat);
                lemma_pow2_pos((7 - n - 1) as nat);
                assert(pow2(7) == pow2(n + 1) * pow2((7 - n - 1) as nat));
                assert(pow2(n + 1) * 1 <= pow2(n + 1) * pow2((7 - n - 1) as nat))
                    by (nonlinear_arith)
                    requires
                        pow2((7 - n - 1) as nat) >= 1,
                        pow2(n + 1) >= 0,
                ;
            }
        }
        assert(v < 128);
    } else {
        assert(v >= 128) by {
            lemma_pow2_adds(7, (n - 7) as nat);
            lemma_pow2_pos((n - 7) as nat);
            assert(pow2(n) == pow2(7) * pow2((n - 7) as nat));
            assert(pow2(7) * 1 <= pow2(7) * pow2((n - 7) as nat)) by (nonlinear_arith)
                requires
                    pow2((n - 7) as nat) >= 1,
            ;
        }
        // Quotient bounds: pow2(n - 7) <= v / 128 < pow2(n - 6).
        lemma_pow2_adds((n - 7) as nat, 7);
        assert(pow2(n) == pow2((n - 7) as nat) * 128);
        assert(v / 128 >= pow2((n - 7) as nat)) by (nonlinear_arith)
            requires
                v as nat >= pow2((n - 7) as nat) * 128,
        ;
        if n < 63 {
            lemma_pow2_adds((n - 6) as nat, 7);
            assert(pow2(n + 1) == pow2((n - 6) as nat) * 128);
            assert(v / 128 < pow2((n - 6) as nat)) by (nonlinear_arith)
                requires
                    (v as nat) < pow2((n - 6) as nat) * 128,
                    pow2((n - 6) as nat) >= 1,
            ;
        } else {
            // n == 63: v / 128 < 2^57 because v < 2^64.
            lemma_pow2_adds(57, 7);
            lemma_pow2_pos(57);
            assert(pow2(64) == pow2(57) * 128);
            assert(v / 128 < pow2(57)) by (nonlinear_arith)
                requires
                    (v as nat) < pow2(57) * 128,
                    pow2(57) >= 1,
            ;
        }
        lemma_varint_len_of_bitrange(v / 128, (n - 7) as nat);
        assert(n / 7 == (n - 7) / 7 + 1);
    }
}

/// The closed-form length formula agrees with n/7 + 1 over a word's bit range.
proof fn lemma_len_formula(n: nat)
    requires
        n <= 63,
    ensures
        (9 * n + 73) / 64 == n / 7 + 1,
{
    let q = n / 7;
    let r = n % 7;
    lemma_fundamental_div_mod(n as int, 7);
    lemma_fundamental_div_mod_converse((9 * n + 73) as int, 64, (q + 1) as int, (9 * r + 9 - q) as int);
}

/// Appends the zigzag-then-varint encoding of a signed 32-bit value.
pub fn write_sint32(value: i32, buf: &mut Vec<u8>)
    ensures
        (*final(buf))@ == (*old(buf))@ + varint_bytes(zigzag32(value) as u64),
{
    write_varint(encode_zigzag32(value) as u64, buf);
}

/// Appends the zigzag-then-varint encoding of a signed 64-bit value.
pub fn write_sint64(value: i64, buf: &mut Vec<u8>)
    ensures
        (*final(buf))@ == (*old(buf))@ + varint_bytes(zigzag64(value)),
{
    write_varint(encode_zigzag64(value), buf);
}

/// The zigzag mapping on 32 bits: 0, -1, 1, -2, ... go to 0, 1, 2, 3, ...
pub fn encode_zigzag32(n: i32) -> (z: u32)
    ensures
        z == zigzag32(n),
{
    if n >= 0 {
        (n as u32) * 2
    } else {
        let m: u32 = (-(n + 1)) as u32;
        m * 2 + 1
    }
}

/// The zigzag mapping on 64 bits.
pub fn encode_zigzag64(n: i64) -> (z: u64)
    ensures
        z == zigzag64(n),
{
    if n >= 0 {
        (n as u64) * 2
    } else {
        let m: u64 = (-(n + 1)) as u64;
        m * 2 + 1
    }
}

/// Appends the varint encoding of an `int32` value; negative values are
/// sign-extended to ten bytes, as the wire format requires.
pub fn write_int32(value: i32, buf: &mut Vec<u8>)
    ensures
        (*final(buf))@ == (*old(buf))@ + varint_bytes(int32_wire(value)),
{
    write_varint(sign_extend32(value), buf);
}

/// Appends the varint encoding of an `int64` value.
pub fn write_int64(value: i64, buf: &mut Vec<u8>)
    ensures
        (*final(buf))@ == (*old(buf))@ + varint_bytes(int64_wire(value)),
{
    write_varint(sign_extend64(value), buf);
}

/// Appends the varint encoding of a `uint32` value.
pub fn write_uint32(value: u32, buf: &mut Vec<u8>)
    ensures
        (*final(buf))@ == (*old(buf))@ + varint_bytes(value as u64),
{
    write_varint(value as u64, buf);
}

/// Appends the varint encoding of a `uint64` value.
pub fn write_uint64(value: u64, buf: &mut Vec<u8>)
    ensures
        (*final(buf))@ == (*old(buf))@ + varint_bytes(value),
{
    write_varint(value, buf);
}

/// The unsigned 64-bit word carrying an `int32`: two's complement.
fn sign_extend32(n: i32) -> (w: u64)
    ensures
        w == int32_wire(n),
{
    if n >= 0 {
        n as u64
    } else {
        let m: u64 = (-(n as i64 + 1)) as u64;
        u64::MAX - m
    }
}

/// The unsigned 64-bit word carrying an `int64`: two's complement.
fn sign_extend64(n: i64) -> (w: u64)
    ensures
        w == int64_wire(n),
{
    if n >= 0 {
        n as u64
    } else {
        let m: u64 = (-(n + 1)) as u64;
        u64::MAX - m
    }
}

/// Appends a `fixed32` value: four raw bytes, always little-endian.
pub fn write_fixed32(value: u32, buf: &mut Vec<u8>)
    ensures
        (*final(buf))@ == (*old(buf))@ + le32_bytes(value),
{
    buf.push((value % 256) as u8);
    buf.push((value / 256 % 256) as u8);
    buf.push((value / 65536 % 256) as u8);
    buf.push((value / 16777216 % 256) as u8);
    proof {
        assert((*buf)@ =~= (*old(buf))@ + le32_bytes(value));
    }
}

/// Appends a `fixed64` value: eight raw bytes, always little-endian.
pub fn write_fixed64(value: u64, buf: &mut Vec<u8>)
    ensures
        (*final(buf))@ == (*old(buf))@ + le64_bytes(value),
{
    let mut rem: u64 = value;
    let mut i: usize = 0;
    while i < 8
        invariant
            i <= 8,
            (*buf)@.len() == (*old(buf))@.len() + i,
            (*buf)@ == (*old(buf))@ + le64_bytes(value).take(i as int),
            rem as int == value as int / crate::wire::pow256(i as nat),
        decreases 8 - i,
    {
        buf.push((rem % 256) as u8);
        proof {
            crate::wire::lemma_pow256_pos(i as nat);
            assert(crate::wire::pow256((i + 1) as nat) == crate::wire::pow256(i as nat) * 256);
            assert(value as int / crate::wire::pow256(i as nat) / 256 == value as int
                / crate::wire::pow256((i + 1) as nat)) by (nonlinear_arith)
                requires
                    crate::wire::pow256((i + 1) as nat) == crate::wire::pow256(i as nat) * 256,
                    crate::wire::pow256(i as nat) >= 1,
            ;
            assert((*buf)@ =~= (*old(buf))@ + le64_bytes(value).take(i + 1));
        }
        rem = rem / 256;
        i += 1;
    }
    proof {
        assert(le64_bytes(value).take(8) =~= le64_bytes(value));
    }
}

/// Appends an `sfixed32` value: its two's-complement word, little-endian.
pub fn write_sfixed32(value: i32, buf: &mut Vec<u8>)
    ensures
        (*final(buf))@ == (*old(buf))@ + le32_bytes(sfixed32_wire(value)),
{
    let w: u32 = if value >= 0 {
        value as u32
    } else {
        let m: u32 = (-(value as i64 + 1)) as u32;
        u32::MAX - m
    };
    write_fixed32(w, buf);
}

/// Appends an `sfixed64` value: its two's-complement word, little-endian.
pub fn write_sfixed64(value: i64, buf: &mut Vec<u8>)
    ensures
        (*final(buf))@ == (*old(buf))@ + le64_bytes(sfixed64_wire(value)),
{
    let w: u64 = sign_extend64(value);
    write_fixed64(w, buf);
}

/// Appends a length-delimited byte string: varint byte count, then the bytes.
pub fn write_bytes(value: &[u8], buf: &mut Vec<u8>)
    ensures
        (*final(buf))@ == (*old(buf))@ + varint_bytes(value@.len() as u64) + value@,
{
    write_varint(value.len() as u64, buf);
    buf.extend_from_slice(value);
}

/// Appends a length-delimited string: varint count of its UTF-8 bytes, then
/// those bytes.
pub fn write_string(value: &str, buf: &mut Vec<u8>)
    ensures
        (*final(buf))@ == (*old(buf))@ + varint_bytes(value.spec_bytes().len() as u64)
            + value.spec_bytes(),
{
    write_bytes(value.as_bytes(), buf);
}

/// Appends a `bool`: one byte, 0 or 1 (a one-byte varint).
pub fn write_bool(value: bool, buf: &mut Vec<u8>)
    ensures
        (*final(buf))@ == (*old(buf))@ + varint_bytes(if value { 1u64 } else { 0u64 }),
{
    buf.push(if value { 1 } else { 0 });
    proof {
        assert((*buf)@ =~= (*old(buf))@ + varint_bytes(if value { 1u64 } else { 0u64 }));
    }
}

// ---------------------------------------------------------------------------
// Length functions: each one returns exactly the number of bytes the
// corresponding writer appends (the length-agreement law).
// ---------------------------------------------------------------------------

/// Byte count of any fixed-width value: the size of its representation.
pub fn len_of_value<T: Copy>(_value: T) -> (len: usize)
    ensures
        len as nat == vstd::layout::size_of::<T>(),
{
    core::mem::size_of::<T>()
}

/// Byte count `write_string` will produce.
pub fn len_of_string(value: &str) -> (len: usize)
    requires
        value.spec_bytes().len() + 10 <= usize::MAX,
    ensures
        len == varint_len(value.spec_bytes().len() as u64) + value.spec_bytes().len(),
        len == (varint_bytes(value.spec_bytes().len() as u64) + value.spec_bytes()).len(),
{
    proof {
        lemma_varint_len_bounds(value.spec_bytes().len() as u64);
        lemma_varint_bytes_len(value.spec_bytes().len() as u64);
    }
    encoded_len_varint(value.len() as u64) + value.len()
}

/// Byte count `write_bytes` will produce.
pub fn len_of_bytes(value: &[u8]) -> (len: usize)
    requires
        value@.len() + 10 <= usize::MAX,
    ensures
        len == varint_len(value@.len() as u64) + value@.len(),
        len == (varint_bytes(value@.len() as u64) + value@).len(),
{
    proof {
        lemma_varint_len_bounds(value@.len() as u64);
        lemma_varint_bytes_len(value@.len() as u64);
    }
    encoded_len_varint(value.len() as u64) + value.len()
}

/// Byte count `write_int32` will produce.
pub fn len_of_int32(value: i32) -> (len: usize)
    ensures
        len == varint_len(int32_wire(value)),
        len == varint_bytes(int32_wire(value)).len(),
{
    proof {
        lemma_varint_bytes_len(int32_wire(value));
    }
    encoded_len_varint(sign_extend32(value))
}

/// Byte count `write_int64` will produce.
pub fn len_of_int64(value: i64) -> (len: usize)
    ensures
        len == varint_len(int64_wire(value)),
        len == varint_bytes(int64_wire(value)).len(),
{
    proof {
        lemma_varint_bytes_len(int64_wire(value));
    }
    encoded_len_varint(sign_extend64(value))
}

/// Byte count `write_uint32` will produce.
pub fn len_of_uint32(value: u32) -> (len: usize)
    ensures
        len == varint_len(value as u64),
        len == varint_bytes(value as u64).len(),
{
    proof {
        lemma_varint_bytes_len(value as u64);
    }
    encoded_len_varint(value as u64)
}

/// Byte count `write_uint64` will produce.
pub fn len_of_uint64(value: u64) -> (len: usize)
    ensures
        len == varint_len(value),
        len == varint_bytes(value).len(),
{
    proof {
        lemma_varint_bytes_len(value);
    }
    encoded_len_varint(value)
}

/// Byte count `write_sint32` will produce.
pub fn len_of_sint32(value: i32) -> (len: usize)
    ensures
        len == varint_len(zigzag32(value) as u64),
        len == varint_bytes(zigzag32(value) as u64).len(),
{
    proof {
        lemma_varint_bytes_len(zigzag32(value) as u64);
    }
    encoded_len_varint(encode_zigzag32(value) as u64)
}

/// Byte count `write_sint64` will produce.
pub fn len_of_sint64(value: i64) -> (len: usize)
    ensures
        len == varint_len(zigzag64(value)),
        len == varint_bytes(zigzag64(value)).len(),
{
    proof {
        lemma_varint_bytes_len(zigzag64(value));
    }
    encoded_len_varint(encode_zigzag64(value))
}

} // verus!
