//! Mathematical model of the protocol-buffers wire format.
//!
//! Every executable writer in this crate is specified against the sequence
//! of bytes these functions describe: base-128 varints (minimal and
//! fixed-width), zigzag sign mapping, little-endian fixed-width words,
//! length-delimited regions and field tags.

use vstd::prelude::*;

verus! {

/// 128^e, the place value of the e-th base-128 digit of a varint.
pub open spec fn pow128(e: nat) -> int
    decreases e,
{
    if e == 0 {
        1
    } else {
        128 * pow128((e - 1) as nat)
    }
}

/// Number of base-128 groups of the minimal varint encoding of `v`.
pub open spec fn varint_len(v: u64) -> nat
    decreases v,
{
    if v < 128 {
        1
    } else {
        1 + varint_len(v / 128)
    }
}

/// The minimal varint encoding: little-endian base-128 groups, the high bit
/// of every byte but the last set.
pub open spec fn varint_bytes(v: u64) -> Seq<u8>
    decreases v,
{
    if v < 128 {
        seq![v as u8]
    } else {
        seq![(128 + v % 128) as u8] + varint_bytes(v / 128)
    }
}

/// The fixed-width (non-minimal, padded) varint encoding of `v` in exactly
/// `w` bytes: byte i holds the i-th base-128 digit, and every byte except
/// the last keeps its continuation bit.
pub open spec fn wide_varint_bytes(w: nat, v: u64) -> Seq<u8> {
    Seq::new(
        w,
        |i: int|
            if i < w - 1 {
                (128 + (v as int / pow128(i as nat)) % 128) as u8
            } else {
                ((v as int / pow128(i as nat)) % 128) as u8
            },
    )
}

/// Largest value a `w`-byte fixed-width varint can carry.
pub open spec fn wide_max(w: nat) -> int {
    pow128(w) - 1
}

/// The value a varint decoder reads back from `s` when `s` starts with a
/// well-formed varint; digits past the first terminating byte are ignored.
pub open spec fn varint_value(s: Seq<u8>) -> u64
    decreases s.len(),
{
    if s.len() == 0 {
        0
    } else if s[0] < 128 {
        s[0] as u64
    } else {
        (((s[0] - 128) + 128 * (varint_value(s.skip(1)) as int)) % 0x10000000000000000) as u64
    }
}

/// Number of bytes a varint decoder consumes from `s`.
pub open spec fn varint_read_len(s: Seq<u8>) -> nat
    decreases s.len(),
{
    if s.len() == 0 {
        0
    } else if s[0] < 128 {
        1
    } else {
        1 + varint_read_len(s.skip(1))
    }
}

/// The unsigned 64-bit word that carries a protobuf `int64` on the wire:
/// two's-complement reinterpretation of `n`.
pub open spec fn int64_wire(n: i64) -> u64 {
    if n >= 0 {
        n as u64
    } else {
        (0x10000000000000000 + n) as u64
    }
}

/// The unsigned word carrying a protobuf `int32`: negative values are
/// sign-extended to 64 bits, as the wire format requires.
pub open spec fn int32_wire(n: i32) -> u64 {
    if n >= 0 {
        n as u64
    } else {
        (0x10000000000000000 + n) as u64
    }
}

/// Zigzag mapping for 32-bit signed values: n >= 0 goes to 2n, n < 0 to
/// -2n - 1, so small magnitudes stay varint-small.
pub open spec fn zigzag32(n: i32) -> u32 {
    if n >= 0 {
        (2 * n) as u32
    } else {
        (-2 * n - 1) as u32
    }
}

/// Zigzag mapping for 64-bit signed values.
pub open spec fn zigzag64(n: i64) -> u64 {
    if n >= 0 {
        (2 * n) as u64
    } else {
        (-2 * n - 1) as u64
    }
}

/// The unsigned word carrying a protobuf `sfixed32`.
pub open spec fn sfixed32_wire(n: i32) -> u32 {
    if n >= 0 {
        n as u32
    } else {
        (0x100000000 + n) as u32
    }
}

/// The unsigned word carrying a protobuf `sfixed64`.
pub open spec fn sfixed64_wire(n: i64) -> u64 {
    if n >= 0 {
        n as u64
    } else {
        (0x10000000000000000 + n) as u64
    }
}

/// Little-endian bytes of a 32-bit word; the wire format mandates little
/// endian regardless of the host.
pub open spec fn le32_bytes(v: u32) -> Seq<u8> {
    seq![
        (v as int % 256) as u8,
        (v as int / 256 % 256) as u8,
        (v as int / 65536 % 256) as u8,
        (v as int / 16777216 % 256) as u8,
    ]
}

/// Little-endian bytes of a 64-bit word.
pub open spec fn le64_bytes(v: u64) -> Seq<u8> {
    Seq::new(8, |i: int| (v as int / pow256(i as nat) % 256) as u8)
}

/// 256^e, the place value of the e-th byte of a little-endian word.
pub open spec fn pow256(e: nat) -> int
    decreases e,
{
    if e == 0 {
        1
    } else {
        256 * pow256((e - 1) as nat)
    }
}

/// A length-delimited value: minimal varint byte count, then the bytes.
pub open spec fn len_delim_bytes(payload: Seq<u8>) -> Seq<u8> {
    varint_bytes(payload.len() as u64) + payload
}

/// The tag that precedes a field's value: field number shifted over the
/// 3-bit wire-type discriminant.
pub open spec fn tag_val(field_nr: u64, wire_ty: u64) -> u64 {
    (8 * field_nr + wire_ty) as u64
}

/// Field numbers the wire format admits.
pub open spec fn valid_field_nr(field_nr: int) -> bool {
    1 <= field_nr < 0x20000000
}

// ---------------------------------------------------------------------------
// Basic facts
// ---------------------------------------------------------------------------

pub proof fn lemma_pow256_pos(e: nat)
    ensures
        pow256(e) >= 1,
    decreases e,
{
    if e > 0 {
        lemma_pow256_pos((e - 1) as nat);
    }
}

pub proof fn lemma_pow128_pos(e: nat)
    ensures
        pow128(e) >= 1,
    decreases e,
{
    if e > 0 {
        lemma_pow128_pos((e - 1) as nat);
    }
}

pub proof fn lemma_pow128_increases(a: nat, b: nat)
    requires
        a <= b,
    ensures
        pow128(a) <= pow128(b),
    decreases b,
{
    if a < b {
        lemma_pow128_increases(a, (b - 1) as nat);
        lemma_pow128_pos((b - 1) as nat);
    }
}

/// The minimal varint of any `u64` takes between 1 and 10 bytes.
pub proof fn lemma_varint_len_bounds(v: u64)
    ensures
        1 <= varint_len(v) <= 10,
    decreases v,
{
    if v >= 128 {
        lemma_varint_len_bounds(v / 128);
        if varint_len(v / 128) == 10 {
            lemma_varint_len_lower(v / 128);
            assert(pow128(9) == 0x8000000000000000000) by {
                reveal_with_fuel(pow128, 11);
            }
        }
    }
}

/// A value needing `w` groups is at least 128^(w-1): no shorter encoding
/// exists, which is the minimality half of the varint length formula.
pub proof fn lemma_varint_len_lower(v: u64)
    ensures
        varint_len(v) > 1 ==> v >= pow128((varint_len(v) - 1) as nat),
    decreases v,
{
    if v >= 128 {
        lemma_varint_len_lower(v / 128);
        let w = varint_len(v);
        assert(pow128((w - 1) as nat) == 128 * pow128((w - 2) as nat));
        if varint_len(v / 128) > 1 {
            assert(v / 128 >= pow128((w - 2) as nat));
            assert(v >= 128 * (v / 128)) by (nonlinear_arith)
                requires
                    v >= 128,
            ;
            assert(128 * (v / 128) >= 128 * pow128((w - 2) as nat)) by (nonlinear_arith)
                requires
                    v / 128 >= pow128((w - 2) as nat),
            ;
        } else {
            assert(pow128((w - 2) as nat) == 1);
            assert(v >= 128);
        }
    }
}

/// `w` groups suffice exactly when the value is below 128^w: the upper half
/// of the varint length formula.
pub proof fn lemma_varint_len_upper(v: u64)
    ensures
        v < pow128(varint_len(v)),
    decreases v,
{
    if v < 128 {
        assert(pow128(1) == 128 * pow128(0));
    } else {
        lemma_varint_len_upper(v / 128);
        let w = varint_len(v);
        assert(pow128(w) == 128 * pow128((w - 1) as nat));
        assert(v / 128 < pow128((w - 1) as nat));
        assert(v < 128 * (v / 128 + 1)) by (nonlinear_arith);
        assert(128 * (v / 128 + 1) <= 128 * pow128((w - 1) as nat)) by (nonlinear_arith)
            requires
                v / 128 + 1 <= pow128((w - 1) as nat),
        ;
    }
}

/// The encoding really is as long as `varint_len` says.
pub proof fn lemma_varint_bytes_len(v: u64)
    ensures
        varint_bytes(v).len() == varint_len(v),
    decreases v,
{
    if v >= 128 {
        lemma_varint_bytes_len(v / 128);
    }
}

} // verus!

verus! {

/// What a zigzag decoder computes from a 32-bit zigzag word.
pub open spec fn unzigzag32(z: u32) -> i32 {
    if z % 2 == 0 {
        (z / 2) as i32
    } else {
        (-((z + 1) as int / 2)) as i32
    }
}

/// What a zigzag decoder computes from a 64-bit zigzag word.
pub open spec fn unzigzag64(z: u64) -> i64 {
    if z % 2 == 0 {
        (z / 2) as i64
    } else {
        (-((z + 1) as int / 2)) as i64
    }
}

/// The word a little-endian decoder reads back from four bytes.
pub open spec fn le32_value(s: Seq<u8>) -> u32 {
    (s[0] + 256 * s[1] + 65536 * s[2] + 16777216 * s[3]) as u32
}

/// The word a little-endian decoder reads back from eight bytes.
pub open spec fn le64_value(s: Seq<u8>) -> u64
{
    (s[0] + 256 * (s[1] + 256 * (s[2] + 256 * (s[3] + 256 * (s[4] + 256 * (s[5] + 256 * (s[6]
        + 256 * s[7]))))))) as u64
}

/// Varint minimality: the encoding of `v` spends exactly `varint_len(v)`
/// bytes, `v` fits in that many base-128 groups, and no shorter group count
/// could hold it.
pub proof fn lemma_varint_minimality(v: u64)
    ensures
        varint_bytes(v).len() == varint_len(v),
        v < pow128(varint_len(v)),
        varint_len(v) > 1 ==> v >= pow128((varint_len(v) - 1) as nat),
        1 <= varint_len(v) <= 10,
{
    lemma_varint_bytes_len(v);
    lemma_varint_len_upper(v);
    lemma_varint_len_lower(v);
    lemma_varint_len_bounds(v);
}

/// Round-trip: a varint decoder applied to `varint_bytes(v)`, with any
/// suffix after it, reads back `v` and consumes exactly the encoding.
pub proof fn lemma_varint_round_trip(v: u64, rest: Seq<u8>)
    ensures
        varint_value(varint_bytes(v) + rest) == v,
        varint_read_len(varint_bytes(v) + rest) == varint_len(v),
        varint_value(varint_bytes(v)) == v,
        varint_read_len(varint_bytes(v)) == varint_len(v),
    decreases v,
{
    let s = varint_bytes(v) + rest;
    let t = varint_bytes(v);
    if v < 128 {
        assert(s[0] == v as u8);
        assert(t[0] == v as u8);
    } else {
        lemma_varint_round_trip(v / 128, rest);
        lemma_varint_round_trip(v / 128, Seq::empty());
        assert(s.skip(1) =~= varint_bytes(v / 128) + rest);
        assert(t.skip(1) =~= varint_bytes(v / 128));
        assert(s[0] == (128 + v % 128) as u8);
        assert((((s[0] - 128) + 128 * (varint_value(s.skip(1)) as int)) % 0x10000000000000000)
            == (v % 128 + 128 * (v / 128)) % 0x10000000000000000);
        assert(v % 128 + 128 * (v / 128) == v) by (nonlinear_arith);
        assert((v as int) % 0x10000000000000000 == v as int);
        assert(t.skip(1) =~= varint_bytes(v / 128) + Seq::<u8>::empty());
    }
}

/// Zigzag round-trip: decoding inverts the sign mapping for every `i32`.
pub proof fn lemma_zigzag32_round_trip(n: i32)
    ensures
        unzigzag32(zigzag32(n)) == n,
{
}

/// Zigzag round-trip: decoding inverts the sign mapping for every `i64`.
pub proof fn lemma_zigzag64_round_trip(n: i64)
    ensures
        unzigzag64(zigzag64(n)) == n,
{
}

/// Little-endian round-trip for 64-bit words.
pub proof fn lemma_le64_round_trip(v: u64)
    ensures
        le64_value(le64_bytes(v)) == v,
{
    let s = le64_bytes(v);
    assert(pow256(8) == 0x10000000000000000) by {
        reveal_with_fuel(pow256, 9);
    }
    assert forall|k: int| #![trigger pow256((k + 1) as nat)] 0 <= k < 8 implies v as int
        / pow256((k + 1) as nat) == (v as int / pow256(k as nat)) / 256 by {
        lemma_pow256_pos(k as nat);
        assert(pow256((k + 1) as nat) == 256 * pow256(k as nat));
        assert(v as int / (256 * pow256(k as nat)) == (v as int / pow256(k as nat)) / 256)
            by (nonlinear_arith)
            requires
                pow256(k as nat) >= 1,
                v >= 0,
        ;
        assert(v as int / pow256((k + 1) as nat) == v as int / (256 * pow256(k as nat)));
    }
    assert(v as int / pow256(8) == 0) by {
        assert(v as int / pow256(8) == 0) by (nonlinear_arith)
            requires
                0 <= (v as int) < pow256(8),
        ;
    }
    // recompose one base-256 place at a time, innermost first
    assert forall|k: int| #![trigger s[k]] 0 <= k < 8 implies v as int / pow256(k as nat) == s[k]
        + 256 * (v as int / pow256((k + 1) as nat)) by {
        lemma_pow256_pos(k as nat);
    }
}

/// Little-endian round-trip for 32-bit words.
pub proof fn lemma_le32_round_trip(v: u32)
    ensures
        le32_value(le32_bytes(v)) == v,
{
    let s = le32_bytes(v);
    assert(s[0] + 256 * s[1] + 65536 * s[2] + 16777216 * s[3] == v as int) by (nonlinear_arith)
        requires
            s[0] == v as int % 256,
            s[1] == v as int / 256 % 256,
            s[2] == v as int / 65536 % 256,
            s[3] == v as int / 16777216 % 256,
            v < 0x100000000,
    ;
}

} // verus!

verus! {

/// A fixed-width varint whose width is exactly the minimal group count is
/// byte-for-byte the minimal varint: backpatching with the smallest
/// adequate width emits the same bytes a one-pass minimal encoder would.
pub proof fn lemma_wide_of_minimal(v: u64)
    ensures
        wide_varint_bytes(varint_len(v), v) == varint_bytes(v),
    decreases v,
{
    let w = varint_len(v);
    if v < 128 {
        assert(wide_varint_bytes(1, v) =~= seq![v as u8]);
    } else {
        lemma_wide_of_minimal(v / 128);
        let full = wide_varint_bytes(w, v);
        let tail = wide_varint_bytes((w - 1) as nat, v / 128);
        assert forall|i: int| 0 <= i < w - 1 implies full.skip(1)[i] == tail[i] by {
            lemma_pow128_pos(i as nat);
            assert(pow128((i + 1) as nat) == 128 * pow128(i as nat));
            assert(v as int / pow128((i + 1) as nat) == (v as int / 128) / pow128(i as nat))
                by (nonlinear_arith)
                requires
                    pow128((i + 1) as nat) == 128 * pow128(i as nat),
                    pow128(i as nat) >= 1,
                    v >= 0,
            ;
            assert((v / 128) as int == v as int / 128);
        }
        assert(full.skip(1) =~= tail);
        assert(full[0] == (128 + v % 128) as u8);
        assert(full =~= seq![(128 + v % 128) as u8] + tail);
    }
}

} // verus!

verus! {

/// The sequence a decoder reads from a run of bare varints (a packed
/// region's content): values in order until the bytes are exhausted or
/// ill-formed.
pub open spec fn decode_varint_run(s: Seq<u8>) -> Seq<u64>
    decreases s.len(),
{
    if s.len() == 0 {
        Seq::empty()
    } else {
        let l = varint_read_len(s);
        if l == 0 || l > s.len() {
            Seq::empty()
        } else {
            seq![varint_value(s)] + decode_varint_run(s.skip(l as int))
        }
    }
}

/// The sequence a decoder reads from a run of identically-tagged varint
/// fields (an unpacked repeated field): it checks each tag, then reads the
/// value after it.
pub open spec fn decode_tagged_varint_run(tag: u64, s: Seq<u8>) -> Seq<u64>
    decreases s.len(),
{
    if s.len() == 0 {
        Seq::empty()
    } else {
        let tl = varint_read_len(s);
        if tl == 0 || tl > s.len() || varint_value(s) != tag {
            Seq::empty()
        } else {
            let rest = s.skip(tl as int);
            if rest.len() == 0 {
                Seq::empty()
            } else {
                let vl = varint_read_len(rest);
                if vl == 0 || vl > rest.len() {
                    Seq::empty()
                } else {
                    seq![varint_value(rest)] + decode_tagged_varint_run(
                        tag,
                        rest.skip(vl as int),
                    )
                }
            }
        }
    }
}

/// A decoder never reads zero bytes from a nonempty input.
pub proof fn lemma_varint_read_len_pos(s: Seq<u8>)
    requires
        s.len() > 0,
    ensures
        varint_read_len(s) >= 1,
{
}

/// Decoding one varint off the front of a run consumes exactly the
/// encoding and yields the encoded value.
pub proof fn lemma_varint_run_cons(v: u64, rest: Seq<u8>)
    ensures
        decode_varint_run(varint_bytes(v) + rest) == seq![v] + decode_varint_run(rest),
{
    let s = varint_bytes(v) + rest;
    lemma_varint_round_trip(v, rest);
    lemma_varint_bytes_len(v);
    lemma_varint_len_bounds(v);
    assert(s.skip(varint_len(v) as int) =~= rest);
}

/// A fixed-width (padded) varint still decodes to its value, and the
/// decoder consumes exactly its width: backpatched length prefixes are
/// read back as the true region length.
pub proof fn lemma_wide_varint_read(w: nat, v: u64, rest: Seq<u8>)
    requires
        1 <= w,
        v <= wide_max(w),
    ensures
        varint_value(wide_varint_bytes(w, v) + rest) == v,
        varint_read_len(wide_varint_bytes(w, v) + rest) == w,
    decreases w,
{
    let s = wide_varint_bytes(w, v) + rest;
    lemma_pow128_pos(w);
    if w == 1 {
        assert(s[0] == (v as int % 128) as u8);
        assert(v < 128);
        assert(v as int % 128 == v as int);
    } else {
        let tail_v = v / 128;
        {
            assert(pow128(w) == 128 * pow128((w - 1) as nat));
            assert(v as int / 128 <= (pow128(w) - 1) / 128) by (nonlinear_arith)
                requires
                    v as int <= pow128(w) - 1,
            ;
            assert((128 * pow128((w - 1) as nat) - 1) / 128 == pow128((w - 1) as nat) - 1)
                by (nonlinear_arith)
                requires
                    pow128((w - 1) as nat) >= 1,
            ;
        }
        lemma_wide_varint_read((w - 1) as nat, tail_v, rest);
        let full = wide_varint_bytes(w, v);
        let tail = wide_varint_bytes((w - 1) as nat, tail_v);
        assert(s.skip(1) =~= tail + rest) by {
            assert forall|i: int| 0 <= i < w - 1 implies full.skip(1)[i] == tail[i] by {
                lemma_pow128_pos(i as nat);
                assert(pow128((i + 1) as nat) == 128 * pow128(i as nat));
                assert(v as int / pow128((i + 1) as nat) == (v as int / 128) / pow128(
                    i as nat,
                )) by (nonlinear_arith)
                    requires
                        pow128((i + 1) as nat) == 128 * pow128(i as nat),
                        pow128(i as nat) >= 1,
                        v >= 0,
                ;
                assert((v / 128) as int == v as int / 128);
            }
            assert(full.skip(1) =~= tail);
        }
        assert(s[0] == (128 + v as int % 128) as u8);
        assert(s[0] >= 128);
        assert(varint_value(s) == (((s[0] - 128) + 128 * (varint_value(s.skip(1)) as int))
            % 0x10000000000000000) as u64);
        assert(v as int % 128 + 128 * (v as int / 128) == v as int) by (nonlinear_arith);
        assert((v as int) % 0x10000000000000000 == v as int);
    }
}

} // verus!

verus! {

/// The zigzag mapping equals its bit-level form: left shift by one, xor
/// with the sign word.
pub proof fn lemma_zigzag32_bits(n: i32)
    ensures
        zigzag32(n) == ((n << 1) ^ (n >> 31)) as u32,
{
    assert(((n << 1) ^ (n >> 31)) as u32 == (if n >= 0 {
        (2 * n) as u32
    } else {
        (-2 * n - 1) as u32
    })) by (bit_vector);
}

/// The zigzag mapping equals its bit-level form on 64 bits.
pub proof fn lemma_zigzag64_bits(n: i64)
    ensures
        zigzag64(n) == ((n << 1) ^ (n >> 63)) as u64,
{
    assert(((n << 1) ^ (n >> 63)) as u64 == (if n >= 0 {
        (2 * n) as u64
    } else {
        (-2 * n - 1) as u64
    })) by (bit_vector);
}

/// Sign extension equals the plain widening cast.
pub proof fn lemma_int32_wire_is_cast(n: i32)
    ensures
        int32_wire(n) == n as u64,
{
    assert(n as u64 == (if n >= 0 {
        n as u64
    } else {
        (0x10000000000000000 + n) as u64
    })) by (bit_vector);
}

} // verus!
