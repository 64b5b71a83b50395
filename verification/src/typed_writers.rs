//! Cardinality-typed field writers over scalar values and maps of scalars.
//!
//! A [`FieldWriter`] is parameterized by a field number and a cardinality
//! policy ([`Required`], [`Optional`], [`Repeated`], [`Packed`], [`Plain`]);
//! the policy decides which write operations exist and whether tag and
//! value reach the wire at all. Every successful write returns a zero-sized
//! [`Field`] witness that a generated aggregator can collect to confirm
//! each declared field was addressed.

use core::marker::PhantomData;
use vstd::prelude::*;

use crate::scalars::{
    encoded_len_varint, write_bool, write_bytes, write_fixed32, write_fixed64, write_int32,
    write_int64, write_sfixed32, write_sfixed64, write_sint32, write_sint64, write_string,
    write_uint32, write_uint64, write_varint, Bool, Double, Fixed32, Fixed64, Float, Int32, Int64,
    PbBytes, PbString, Sfixed32, Sfixed64, Sint32, Sint64, Uint32, Uint64, WireType,
};
use crate::tack::{tack_close_bytes, Tack};
use crate::wire::{
    int32_wire, int64_wire, le32_bytes, le64_bytes, lemma_varint_bytes_len,
    lemma_varint_len_bounds, lemma_varint_len_upper, sfixed32_wire, sfixed64_wire, tag_val,
    valid_field_nr, varint_bytes, varint_len, wide_max, wide_varint_bytes, zigzag32, zigzag64,
};
use vstd::string::StringSliceAdditionalSpecFns;

verus! {

/// Marker for a oneof group over the field set `O`. Oneof fields are
/// currently flattened into the enclosing message, so this carries no
/// operations of its own.
#[derive(Debug, PartialEq, Eq)]
pub struct OneOf<O>(pub PhantomData<O>);

/// Marker for a map field with key marker `K` and value marker `V`.
#[derive(Debug, PartialEq, Eq)]
pub struct PbMap<K, V>(pub PhantomData<(K, V)>);

/// Explicit presence: the field is written only when a value is supplied.
#[derive(Debug, PartialEq, Eq)]
pub struct Optional<P>(pub PhantomData<P>);

/// One tag-value pair per element, in iteration order.
#[derive(Debug, PartialEq, Eq)]
pub struct Repeated<P>(pub PhantomData<P>);

/// Exactly one value, written unconditionally.
#[derive(Debug, PartialEq, Eq)]
pub struct Required<P>(pub PhantomData<P>);

/// One tag and a single length-delimited run of bare values.
#[derive(Debug, PartialEq, Eq)]
pub struct Packed<P>(pub PhantomData<P>);

/// Implicit presence: the value is written only when it differs from the
/// type's default.
#[derive(Debug, PartialEq, Eq)]
pub struct Plain<P>(pub PhantomData<P>);

impl<P> Optional<P> {
    pub fn new() -> Optional<P> {
        Optional(PhantomData)
    }
}

impl<P> Repeated<P> {
    pub fn new() -> Repeated<P> {
        Repeated(PhantomData)
    }
}

impl<P> Required<P> {
    pub fn new() -> Required<P> {
        Required(PhantomData)
    }
}

impl<P> Packed<P> {
    pub fn new() -> Packed<P> {
        Packed(PhantomData)
    }
}

/// A complete field in a message: field number and policy-wrapped type.
/// Values of it are zero-sized witnesses that the field was written.
#[derive(Debug)]
pub struct Field<const N: usize, P>(pub PhantomData<P>);

impl<const N: usize, P> Field<N, P> {
    pub fn new() -> Field<N, P> {
        Field(PhantomData)
    }
}

impl<const N: usize, P> Default for Field<N, P> {
    fn default() -> (r: Self)
        ensures
            r.0 == PhantomData::<P>,
    {
        Field::new()
    }
}

/// How one value type is encoded when it carries the protobuf type `P`:
/// its wire type, its bare value bytes, and its implicit-presence default.
pub trait ProtoEncode<P>: Sized {
    /// The wire-type discriminant framing values of this field type.
    spec fn wire_ty() -> WireType;

    /// The bytes `encode` appends for `value` (tag excluded).
    spec fn value_bytes(value: Self) -> Seq<u8>;

    /// Whether `value` is the type's implicit-presence default
    /// (0, false, empty string, empty bytes).
    spec fn is_default(value: Self) -> bool;

    /// Executable wire type.
    fn wire_type() -> (w: WireType)
        ensures
            w == Self::wire_ty(),
    ;

    /// Appends the bare value bytes to the buffer.
    fn encode(buf: &mut Vec<u8>, value: Self)
        ensures
            (*final(buf))@ == (*old(buf))@ + Self::value_bytes(value),
    ;

    /// Number of bytes `encode` appends.
    fn value_len(value: &Self) -> (len: usize)
        requires
            Self::value_bytes(*value).len() + 16 <= usize::MAX,
        ensures
            len == Self::value_bytes(*value).len(),
    ;

    /// Whether `value` is the implicit-presence default.
    fn check_default(value: &Self) -> (r: bool)
        ensures
            r == Self::is_default(*value),
    ;

    /// Appends the tag framing this value type under `field_nr`.
    fn encode_tag(field_nr: i32, buf: &mut Vec<u8>)
        requires
            valid_field_nr(field_nr as int),
        ensures
            (*final(buf))@ == (*old(buf))@ + varint_bytes(
                tag_val(field_nr as u64, Self::wire_ty().spec_val()),
            ),
    {
        let wt = Self::wire_type();
        write_varint((field_nr as u64) * 8 + wt.val(), buf);
    }
}

/// The varint tag bytes of a field of type `V` under `field_nr`.
pub open spec fn field_tag_bytes<P, V: ProtoEncode<P>>(field_nr: u64) -> Seq<u8> {
    varint_bytes(tag_val(field_nr, <V as ProtoEncode<P>>::wire_ty().spec_val()))
}

/// Tag and bare value: what one unpacked field occurrence puts on the wire.
pub open spec fn tagged_value_bytes<P, V: ProtoEncode<P>>(field_nr: u64, v: V) -> Seq<u8> {
    field_tag_bytes::<P, V>(field_nr) + <V as ProtoEncode<P>>::value_bytes(v)
}

/// An unpacked repeated field: one tag-value pair per element, in order,
/// duplicates preserved.
pub open spec fn repeated_bytes<P, V: ProtoEncode<P>>(field_nr: u64, s: Seq<V>) -> Seq<u8>
    decreases s.len(),
{
    if s.len() == 0 {
        Seq::empty()
    } else {
        tagged_value_bytes::<P, V>(field_nr, s[0]) + repeated_bytes::<P, V>(field_nr, s.skip(1))
    }
}

/// A packed run's content: the elements' bare bytes concatenated, with no
/// per-element tags.
pub open spec fn packed_content_bytes<P, V: ProtoEncode<P>>(s: Seq<V>) -> Seq<u8>
    decreases s.len(),
{
    if s.len() == 0 {
        Seq::empty()
    } else {
        <V as ProtoEncode<P>>::value_bytes(s[0]) + packed_content_bytes::<P, V>(s.skip(1))
    }
}

proof fn lemma_repeated_snoc<P, V: ProtoEncode<P>>(field_nr: u64, s: Seq<V>, i: int)
    requires
        0 <= i < s.len(),
    ensures
        repeated_bytes::<P, V>(field_nr, s.take(i + 1)) == repeated_bytes::<P, V>(
            field_nr,
            s.take(i),
        ) + tagged_value_bytes::<P, V>(field_nr, s[i]),
    decreases i,
{
    if i == 0 {
        assert(s.take(1).len() == 1);
        assert(s.take(1)[0] == s[0]);
        assert(s.take(1).skip(1) =~= Seq::<V>::empty());
        assert(s.take(0) =~= Seq::<V>::empty());
        assert(repeated_bytes::<P, V>(field_nr, s.take(1)) == tagged_value_bytes::<P, V>(
            field_nr,
            s.take(1)[0],
        ) + repeated_bytes::<P, V>(field_nr, s.take(1).skip(1)));
        assert(tagged_value_bytes::<P, V>(field_nr, s[0]) + Seq::<u8>::empty()
            =~= tagged_value_bytes::<P, V>(field_nr, s[0]));
    } else {
        lemma_repeated_snoc::<P, V>(field_nr, s.skip(1), i - 1);
        assert(s.take(i + 1).skip(1) =~= s.skip(1).take(i));
        assert(s.take(i).skip(1) =~= s.skip(1).take(i - 1));
        assert(s.skip(1)[i - 1] == s[i]);
    }
}

proof fn lemma_packed_snoc<P, V: ProtoEncode<P>>(s: Seq<V>, i: int)
    requires
        0 <= i < s.len(),
    ensures
        packed_content_bytes::<P, V>(s.take(i + 1)) == packed_content_bytes::<P, V>(s.take(i))
            + <V as ProtoEncode<P>>::value_bytes(s[i]),
    decreases i,
{
    if i == 0 {
        assert(s.take(1).len() == 1);
        assert(s.take(1)[0] == s[0]);
        assert(s.take(1).skip(1) =~= Seq::<V>::empty());
        assert(s.take(0) =~= Seq::<V>::empty());
        assert(packed_content_bytes::<P, V>(s.take(1)) == <V as ProtoEncode<P>>::value_bytes(
            s.take(1)[0],
        ) + packed_content_bytes::<P, V>(s.take(1).skip(1)));
        assert(<V as ProtoEncode<P>>::value_bytes(s[0]) + Seq::<u8>::empty()
            =~= <V as ProtoEncode<P>>::value_bytes(s[0]));
    } else {
        lemma_packed_snoc::<P, V>(s.skip(1), i - 1);
        assert(s.take(i + 1).skip(1) =~= s.skip(1).take(i));
        assert(s.take(i).skip(1) =~= s.skip(1).take(i - 1));
        assert(s.skip(1)[i - 1] == s[i]);
    }
}

/// A generic writer for one field, parameterized by field number `N` and
/// cardinality policy `P`; the impl blocks below give each policy its own
/// write operations.
pub struct FieldWriter<'b, const N: usize, P> {
    /// The borrowed output buffer.
    pub buf: &'b mut Vec<u8>,
    pub marker: PhantomData<P>,
}

impl<'b, const N: usize, P> FieldWriter<'b, N, P> {
    /// Binds a writer for field number `N` to the output buffer.
    pub fn new(buf: &'b mut Vec<u8>) -> (w: Self)
        ensures
            (*w.buf)@ == (*old(buf))@,
            *final(w.buf) == *final(buf),
    {
        FieldWriter { buf, marker: PhantomData }
    }
}

// ---------------------------------------------------------------------------
// Optional: explicit presence. A present value is written as tag + value,
// an absent one writes nothing at all (the omission law).
// ---------------------------------------------------------------------------

impl<'b, const N: usize, P> FieldWriter<'b, N, Optional<P>> {
    pub fn write<V: ProtoEncode<P>>(self, value: Option<V>) -> (r: Field<N, Optional<P>>)
        requires
            valid_field_nr(N as int),
        ensures
            value is Some ==> (*final(self.buf))@ == (*old(self.buf))@ + tagged_value_bytes::<
                P,
                V,
            >(N as u64, value.unwrap()),
            value is None ==> (*final(self.buf))@ == (*old(self.buf))@,
    {
        if let Some(value) = value {
            V::encode_tag(N as i32, self.buf);
            V::encode(self.buf, value);
        }
        Field::new()
    }
}

// ---------------------------------------------------------------------------
// Repeated: one tag-value pair per element, in order, duplicates kept; the
// wire format has no implicit dedup or sort.
// ---------------------------------------------------------------------------

impl<'b, const N: usize, P> FieldWriter<'b, N, Repeated<P>> {
    pub fn write<V: ProtoEncode<P> + Copy>(self, values: &Vec<V>) -> (r: Field<N, Repeated<P>>)
        requires
            valid_field_nr(N as int),
        ensures
            (*final(self.buf))@ == (*old(self.buf))@ + repeated_bytes::<P, V>(N as u64, values@),
    {
        let buf = self.buf;
        let ghost base = (*buf)@;
        let mut i: usize = 0;
        while i < values.len()
            invariant
                valid_field_nr(N as int),
                i <= values@.len(),
                (*buf)@ == base + repeated_bytes::<P, V>(N as u64, values@.take(i as int)),
            decreases values@.len() - i,
        {
            proof {
                lemma_repeated_snoc::<P, V>(N as u64, values@, i as int);
            }
            V::encode_tag(N as i32, buf);
            V::encode(buf, values[i]);
            i += 1;
        }
        proof {
            assert(values@.take(values@.len() as int) =~= values@);
        }
        Field::new()
    }

    /// Writes one more element of the repeated field.
    pub fn append<V: ProtoEncode<P>>(&mut self, value: V)
        requires
            valid_field_nr(N as int),
        ensures
            (*final(self).buf)@ == (*old(self).buf)@ + tagged_value_bytes::<P, V>(
                N as u64,
                value,
            ),
            *final(final(self).buf) == *final(old(self).buf),
    {
        V::encode_tag(N as i32, self.buf);
        V::encode(self.buf, value);
    }

    /// Finishes the repeated field, yielding its witness.
    pub fn close(self) -> (r: Field<N, Repeated<P>>)
        ensures
            (*final(self.buf))@ == (*old(self.buf))@,
    {
        Field::new()
    }
}

// ---------------------------------------------------------------------------
// Required: exactly one value, always written.
// ---------------------------------------------------------------------------

impl<'b, const N: usize, P> FieldWriter<'b, N, Required<P>> {
    pub fn write<V: ProtoEncode<P>>(self, value: V) -> (r: Field<N, Required<P>>)
        requires
            valid_field_nr(N as int),
        ensures
            (*final(self.buf))@ == (*old(self.buf))@ + tagged_value_bytes::<P, V>(
                N as u64,
                value,
            ),
    {
        V::encode_tag(N as i32, self.buf);
        V::encode(self.buf, value);
        Field::new()
    }
}

// ---------------------------------------------------------------------------
// Plain: proto3 implicit presence. The value reaches the wire only when it
// differs from the type's default; the default writes nothing (the
// omission law).
// ---------------------------------------------------------------------------

impl<'b, const N: usize, P> FieldWriter<'b, N, Plain<P>> {
    pub fn write<V: ProtoEncode<P>>(self, value: V) -> (r: Field<N, Plain<P>>)
        requires
            valid_field_nr(N as int),
        ensures
            !V::is_default(value) ==> (*final(self.buf))@ == (*old(self.buf))@
                + tagged_value_bytes::<P, V>(N as u64, value),
            V::is_default(value) ==> (*final(self.buf))@ == (*old(self.buf))@,
    {
        if !V::check_default(&value) {
            V::encode_tag(N as i32, self.buf);
            V::encode(self.buf, value);
        }
        Field::new()
    }
}

// ---------------------------------------------------------------------------
// Packed: a single tag, then one length-delimited run holding the bare
// values back to back. Only primitive numeric and bool types can be
// packed, which the `Packable` marker enforces at the type level. The
// exact content length is counted first, so the length prefix is minimal
// and backpatching can never outgrow its placeholder.
// ---------------------------------------------------------------------------

/// Scalar types the wire format allows in packed runs: numeric and bool,
/// never strings, bytes or messages.
pub trait Packable {

}

impl Packable for Int32 {

}

impl Packable for Sint32 {

}

impl Packable for Int64 {

}

impl Packable for Sint64 {

}

impl Packable for Uint32 {

}

impl Packable for Uint64 {

}

impl Packable for Bool {

}

impl Packable for Fixed32 {

}

impl Packable for Sfixed32 {

}

impl Packable for Float {

}

impl Packable for Fixed64 {

}

impl Packable for Sfixed64 {

}

impl Packable for Double {

}

impl<'b, const N: usize, P: Packable> FieldWriter<'b, N, Packed<P>> {
    pub fn write<V: ProtoEncode<P> + Copy>(self, values: &Vec<V>) -> (r: Field<N, Packed<P>>)
        requires
            valid_field_nr(N as int),
            packed_content_bytes::<P, V>(values@).len() <= wide_max(5),
            packed_content_bytes::<P, V>(values@).len() + 16 <= usize::MAX,
        ensures
            values@.len() == 0 ==> (*final(self.buf))@ == (*old(self.buf))@,
            values@.len() > 0 ==> (*final(self.buf))@ == (*old(self.buf))@ + varint_bytes(
                tag_val(N as u64, 2),
            ) + varint_bytes(packed_content_bytes::<P, V>(values@).len() as u64)
                + packed_content_bytes::<P, V>(values@),
    {
        if values.len() == 0 {
            return Field::new();
        }
        let ghost pre = (*self.buf)@;
        let total = packed_byte_count::<P, V>(values);
        let width = encoded_len_varint(total as u64);
        proof {
            lemma_varint_len_bounds(total as u64);
            lemma_varint_len_upper(total as u64);
            lemma_pow128_cap();
            crate::wire::lemma_varint_len_lower(total as u64);
            assert(varint_len(total as u64) <= 5) by {
                if varint_len(total as u64) > 5 {
                    crate::wire::lemma_pow128_increases(5, (varint_len(total as u64) - 1) as nat);
                }
            }
        }
        let tag_value: u32 = (N as u32) * 8 + 2;
        let mut tack = Tack::new_with_width(self.buf, Some(tag_value), width as u32);
        tack.rewind = false;
        let ghost base = (*tack.buffer)@;
        let ghost fin = *final(tack.buffer);
        let mut i: usize = 0;
        while i < values.len()
            invariant
                i <= values@.len(),
                (*tack.buffer)@ == base + packed_content_bytes::<P, V>(values@.take(i as int)),
                *final(tack.buffer) == fin,
                tack.tag == Some(tag_value),
                tack.start == base.len(),
                tack.width == varint_len(packed_content_bytes::<P, V>(values@).len() as u64),
                tack.rewind == false,
                tack.wf(),
                base == pre + varint_bytes(tag_val(N as u64, 2)) + wide_varint_bytes(
                    tack.width as nat,
                    0,
                ),
                valid_field_nr(N as int),
            decreases values@.len() - i,
        {
            proof {
                lemma_packed_snoc::<P, V>(values@, i as int);
            }
            V::encode(tack.buffer, values[i]);
            i += 1;
        }
        let ghost content = packed_content_bytes::<P, V>(values@);
        proof {
            assert(values@.take(values@.len() as int) =~= values@);
            lemma_varint_len_upper(content.len() as u64);
        }
        tack.close();
        proof {
            crate::wire::lemma_wide_of_minimal(content.len() as u64);
            assert((base + content).skip(base.len() as int) =~= content);
            assert((base + content).take(base.len() - tack.width as int) =~= pre + varint_bytes(
                tag_val(N as u64, 2),
            ));
            assert((*final(tack.buffer))@ =~= pre + varint_bytes(tag_val(N as u64, 2))
                + varint_bytes(content.len() as u64) + content);
        }
        Field::new()
    }
}

/// Counts the exact byte length of a packed run's content before writing
/// it, so the smallest adequate placeholder width can be chosen and the
/// overflow-abort failure mode never arises.
fn packed_byte_count<P, V: ProtoEncode<P> + Copy>(values: &Vec<V>) -> (total: usize)
    requires
        packed_content_bytes::<P, V>(values@).len() <= wide_max(5),
        packed_content_bytes::<P, V>(values@).len() + 16 <= usize::MAX,
    ensures
        total == packed_content_bytes::<P, V>(values@).len(),
{
    let mut total: usize = 0;
    let mut i: usize = 0;
    while i < values.len()
        invariant
            i <= values@.len(),
            packed_content_bytes::<P, V>(values@).len() <= wide_max(5),
            packed_content_bytes::<P, V>(values@).len() + 16 <= usize::MAX,
            total == packed_content_bytes::<P, V>(values@.take(i as int)).len(),
            total <= packed_content_bytes::<P, V>(values@).len(),
        decreases values@.len() - i,
    {
        proof {
            lemma_packed_snoc::<P, V>(values@, i as int);
            lemma_packed_prefix_len::<P, V>(values@, i + 1);
            lemma_pow128_cap();
            lemma_packed_prefix_len::<P, V>(values@, i as int);
            assert(<V as ProtoEncode<P>>::value_bytes(values@[i as int]).len()
                <= packed_content_bytes::<P, V>(values@).len());
        }
        let l = V::value_len(&values[i]);
        total = total + l;
        i += 1;
    }
    proof {
        assert(values@.take(values@.len() as int) =~= values@);
    }
    total
}

/// A prefix of a packed run never outweighs the whole run.
proof fn lemma_packed_prefix_len<P, V: ProtoEncode<P>>(s: Seq<V>, i: int)
    requires
        0 <= i <= s.len(),
    ensures
        packed_content_bytes::<P, V>(s.take(i)).len() <= packed_content_bytes::<P, V>(s).len(),
    decreases s.len() - i,
{
    if i == s.len() {
        assert(s.take(i) =~= s);
    } else {
        lemma_packed_snoc::<P, V>(s, i);
        lemma_packed_prefix_len::<P, V>(s, i + 1);
    }
}

/// 128^5 - 1, the capacity cap of the widest placeholder, stays far below
/// `usize::MAX`.
proof fn lemma_pow128_cap()
    ensures
        wide_max(5) == 0x7FFFFFFFF,
{
    assert(crate::wire::pow128(5) == 0x800000000) by {
        reveal_with_fuel(crate::wire::pow128, 6);
    }
}

// ---------------------------------------------------------------------------
// The scalar encodings: how each plain Rust value type is written when it
// carries a given protobuf type marker.
// ---------------------------------------------------------------------------

impl ProtoEncode<Int32> for i32 {
    open spec fn wire_ty() -> WireType {
        WireType::Varint
    }

    open spec fn value_bytes(value: i32) -> Seq<u8> {
        varint_bytes(int32_wire(value))
    }

    open spec fn is_default(value: i32) -> bool {
        value == 0
    }

    fn wire_type() -> WireType {
        WireType::Varint
    }

    fn encode(buf: &mut Vec<u8>, value: i32) {
        write_int32(value, buf)
    }

    fn value_len(value: &i32) -> usize {
        crate::scalars::len_of_int32(*value)
    }

    fn check_default(value: &i32) -> bool {
        *value == 0
    }
}

impl ProtoEncode<Sint32> for i32 {
    open spec fn wire_ty() -> WireType {
        WireType::Varint
    }

    open spec fn value_bytes(value: i32) -> Seq<u8> {
        varint_bytes(zigzag32(value) as u64)
    }

    open spec fn is_default(value: i32) -> bool {
        value == 0
    }

    fn wire_type() -> WireType {
        WireType::Varint
    }

    fn encode(buf: &mut Vec<u8>, value: i32) {
        write_sint32(value, buf)
    }

    fn value_len(value: &i32) -> usize {
        crate::scalars::len_of_sint32(*value)
    }

    fn check_default(value: &i32) -> bool {
        *value == 0
    }
}

impl ProtoEncode<Sfixed32> for i32 {
    open spec fn wire_ty() -> WireType {
        WireType::I32
    }

    open spec fn value_bytes(value: i32) -> Seq<u8> {
        le32_bytes(sfixed32_wire(value))
    }

    open spec fn is_default(value: i32) -> bool {
        value == 0
    }

    fn wire_type() -> WireType {
        WireType::I32
    }

    fn encode(buf: &mut Vec<u8>, value: i32) {
        write_sfixed32(value, buf)
    }

    fn value_len(_value: &i32) -> usize {
        4
    }

    fn check_default(value: &i32) -> bool {
        *value == 0
    }
}

impl ProtoEncode<Int64> for i64 {
    open spec fn wire_ty() -> WireType {
        WireType::Varint
    }

    open spec fn value_bytes(value: i64) -> Seq<u8> {
        varint_bytes(int64_wire(value))
    }

    open spec fn is_default(value: i64) -> bool {
        value == 0
    }

    fn wire_type() -> WireType {
        WireType::Varint
    }

    fn encode(buf: &mut Vec<u8>, value: i64) {
        write_int64(value, buf)
    }

    fn value_len(value: &i64) -> usize {
        crate::scalars::len_of_int64(*value)
    }

    fn check_default(value: &i64) -> bool {
        *value == 0
    }
}

impl ProtoEncode<Sint64> for i64 {
    open spec fn wire_ty() -> WireType {
        WireType::Varint
    }

    open spec fn value_bytes(value: i64) -> Seq<u8> {
        varint_bytes(zigzag64(value))
    }

    open spec fn is_default(value: i64) -> bool {
        value == 0
    }

    fn wire_type() -> WireType {
        WireType::Varint
    }

    fn encode(buf: &mut Vec<u8>, value: i64) {
        write_sint64(value, buf)
    }

    fn value_len(value: &i64) -> usize {
        crate::scalars::len_of_sint64(*value)
    }

    fn check_default(value: &i64) -> bool {
        *value == 0
    }
}

impl ProtoEncode<Sfixed64> for i64 {
    open spec fn wire_ty() -> WireType {
        WireType::I64
    }

    open spec fn value_bytes(value: i64) -> Seq<u8> {
        le64_bytes(sfixed64_wire(value))
    }

    open spec fn is_default(value: i64) -> bool {
        value == 0
    }

    fn wire_type() -> WireType {
        WireType::I64
    }

    fn encode(buf: &mut Vec<u8>, value: i64) {
        write_sfixed64(value, buf)
    }

    fn value_len(_value: &i64) -> usize {
        8
    }

    fn check_default(value: &i64) -> bool {
        *value == 0
    }
}

impl ProtoEncode<Uint32> for u32 {
    open spec fn wire_ty() -> WireType {
        WireType::Varint
    }

    open spec fn value_bytes(value: u32) -> Seq<u8> {
        varint_bytes(value as u64)
    }

    open spec fn is_default(value: u32) -> bool {
        value == 0
    }

    fn wire_type() -> WireType {
        WireType::Varint
    }

    fn encode(buf: &mut Vec<u8>, value: u32) {
        write_uint32(value, buf)
    }

    fn value_len(value: &u32) -> usize {
        crate::scalars::len_of_uint32(*value)
    }

    fn check_default(value: &u32) -> bool {
        *value == 0
    }
}

impl ProtoEncode<Fixed32> for u32 {
    open spec fn wire_ty() -> WireType {
        WireType::I32
    }

    open spec fn value_bytes(value: u32) -> Seq<u8> {
        le32_bytes(value)
    }

    open spec fn is_default(value: u32) -> bool {
        value == 0
    }

    fn wire_type() -> WireType {
        WireType::I32
    }

    fn encode(buf: &mut Vec<u8>, value: u32) {
        write_fixed32(value, buf)
    }

    fn value_len(_value: &u32) -> usize {
        4
    }

    fn check_default(value: &u32) -> bool {
        *value == 0
    }
}

/// A `float` value travels as its IEEE-754 bit pattern, little-endian.
impl ProtoEncode<Float> for u32 {
    open spec fn wire_ty() -> WireType {
        WireType::I32
    }

    open spec fn value_bytes(value: u32) -> Seq<u8> {
        le32_bytes(value)
    }

    open spec fn is_default(value: u32) -> bool {
        value == 0
    }

    fn wire_type() -> WireType {
        WireType::I32
    }

    fn encode(buf: &mut Vec<u8>, value: u32) {
        write_fixed32(value, buf)
    }

    fn value_len(_value: &u32) -> usize {
        4
    }

    fn check_default(value: &u32) -> bool {
        *value == 0
    }
}

impl ProtoEncode<Uint64> for u64 {
    open spec fn wire_ty() -> WireType {
        WireType::Varint
    }

    open spec fn value_bytes(value: u64) -> Seq<u8> {
        varint_bytes(value)
    }

    open spec fn is_default(value: u64) -> bool {
        value == 0
    }

    fn wire_type() -> WireType {
        WireType::Varint
    }

    fn encode(buf: &mut Vec<u8>, value: u64) {
        write_uint64(value, buf)
    }

    fn value_len(value: &u64) -> usize {
        crate::scalars::len_of_uint64(*value)
    }

    fn check_default(value: &u64) -> bool {
        *value == 0
    }
}

impl ProtoEncode<Fixed64> for u64 {
    open spec fn wire_ty() -> WireType {
        WireType::I64
    }

    open spec fn value_bytes(value: u64) -> Seq<u8> {
        le64_bytes(value)
    }

    open spec fn is_default(value: u64) -> bool {
        value == 0
    }

    fn wire_type() -> WireType {
        WireType::I64
    }

    fn encode(buf: &mut Vec<u8>, value: u64) {
        write_fixed64(value, buf)
    }

    fn value_len(_value: &u64) -> usize {
        8
    }

    fn check_default(value: &u64) -> bool {
        *value == 0
    }
}

/// A `double` value travels as its IEEE-754 bit pattern, little-endian.
impl ProtoEncode<Double> for u64 {
    open spec fn wire_ty() -> WireType {
        WireType::I64
    }

    open spec fn value_bytes(value: u64) -> Seq<u8> {
        le64_bytes(value)
    }

    open spec fn is_default(value: u64) -> bool {
        value == 0
    }

    fn wire_type() -> WireType {
        WireType::I64
    }

    fn encode(buf: &mut Vec<u8>, value: u64) {
        write_fixed64(value, buf)
    }

    fn value_len(_value: &u64) -> usize {
        8
    }

    fn check_default(value: &u64) -> bool {
        *value == 0
    }
}

impl ProtoEncode<Bool> for bool {
    open spec fn wire_ty() -> WireType {
        WireType::Varint
    }

    open spec fn value_bytes(value: bool) -> Seq<u8> {
        varint_bytes(if value { 1u64 } else { 0u64 })
    }

    open spec fn is_default(value: bool) -> bool {
        value == false
    }

    fn wire_type() -> WireType {
        WireType::Varint
    }

    fn encode(buf: &mut Vec<u8>, value: bool) {
        write_bool(value, buf)
    }

    fn value_len(_value: &bool) -> usize {
        1
    }

    fn check_default(value: &bool) -> bool {
        *value == false
    }
}

impl<'v> ProtoEncode<PbString> for &'v str {
    open spec fn wire_ty() -> WireType {
        WireType::Len
    }

    open spec fn value_bytes(value: &'v str) -> Seq<u8> {
        varint_bytes(value.spec_bytes().len() as u64) + value.spec_bytes()
    }

    open spec fn is_default(value: &'v str) -> bool {
        value@.len() == 0
    }

    fn wire_type() -> WireType {
        WireType::Len
    }

    fn encode(buf: &mut Vec<u8>, value: &'v str) {
        write_string(value, buf)
    }

    fn value_len(value: &&'v str) -> usize {
        proof {
            lemma_varint_bytes_len((*value).spec_bytes().len() as u64);
            lemma_varint_len_bounds((*value).spec_bytes().len() as u64);
        }
        crate::scalars::len_of_string(*value)
    }

    fn check_default(value: &&'v str) -> bool {
        value.is_empty()
    }
}

impl<'v> ProtoEncode<PbBytes> for &'v [u8] {
    open spec fn wire_ty() -> WireType {
        WireType::Len
    }

    open spec fn value_bytes(value: &'v [u8]) -> Seq<u8> {
        varint_bytes(value@.len() as u64) + value@
    }

    open spec fn is_default(value: &'v [u8]) -> bool {
        value@.len() == 0
    }

    fn wire_type() -> WireType {
        WireType::Len
    }

    fn encode(buf: &mut Vec<u8>, value: &'v [u8]) {
        write_bytes(value, buf)
    }

    fn value_len(value: &&'v [u8]) -> usize {
        proof {
            lemma_varint_bytes_len((*value)@.len() as u64);
            lemma_varint_len_bounds((*value)@.len() as u64);
        }
        crate::scalars::len_of_bytes(*value)
    }

    fn check_default(value: &&'v [u8]) -> bool {
        value.len() == 0
    }
}

// ---------------------------------------------------------------------------
// Map fields. A protobuf map is wire-equivalent to a repeated embedded
// message with the key at field number 1 and the value at field number 2.
// ---------------------------------------------------------------------------

/// Types the wire format allows as map keys: the integer types, bool and
/// string. Byte strings and floating-point types are not legal keys, which
/// this marker rules out at the type level rather than at run time.
pub trait MapKey {

}

impl MapKey for Int32 {

}

impl MapKey for Sint32 {

}

impl MapKey for Int64 {

}

impl MapKey for Sint64 {

}

impl MapKey for Uint32 {

}

impl MapKey for Uint64 {

}

impl MapKey for Bool {

}

impl MapKey for Fixed32 {

}

impl MapKey for Sfixed32 {

}

impl MapKey for Fixed64 {

}

impl MapKey for Sfixed64 {

}

impl MapKey for PbString {

}

impl<K, V> PbMap<K, V> {
    pub fn new() -> PbMap<K, V> {
        PbMap(PhantomData)
    }
}

/// One map entry as `MapEntryWriter` emits it: the map field's tag, the
/// minimal varint of the entry body's length, then key (field 1) and value
/// (field 2).
pub open spec fn map_entry_bytes<K, V, A: ProtoEncode<K>, B: ProtoEncode<V>>(
    field_nr: u64,
    key: A,
    value: B,
) -> Seq<u8> {
    varint_bytes(tag_val(field_nr, 2)) + varint_bytes(
        (tagged_value_bytes::<K, A>(1, key) + tagged_value_bytes::<V, B>(2, value)).len() as u64,
    ) + tagged_value_bytes::<K, A>(1, key) + tagged_value_bytes::<V, B>(2, value)
}

/// Writer for maps whose keys and values are scalars; each `write` call
/// emits one complete, independently length-delimited entry.
pub struct MapEntryWriter<'b, const N: usize, K, V> {
    /// The borrowed output buffer.
    pub buf: &'b mut Vec<u8>,
    pub marker: PhantomData<(K, V)>,
}

impl<'b, const N: usize, K: MapKey, V> MapEntryWriter<'b, N, K, V> {
    /// Binds an entry writer for map field number `N` to the output buffer.
    pub fn new(buf: &'b mut Vec<u8>) -> (w: Self)
        ensures
            (*w.buf)@ == (*old(buf))@,
            *final(w.buf) == *final(buf),
    {
        MapEntryWriter { buf, marker: PhantomData }
    }

    /// Appends one map entry: key under field number 1, value under field
    /// number 2, framed as a length-delimited region under `N`.
    pub fn write<A: ProtoEncode<K>, B: ProtoEncode<V>>(&mut self, key: A, value: B)
        requires
            valid_field_nr(N as int),
            <A as ProtoEncode<K>>::value_bytes(key).len() + <B as ProtoEncode<V>>::value_bytes(
                value,
            ).len() + 64 <= usize::MAX,
            <A as ProtoEncode<K>>::value_bytes(key).len() + <B as ProtoEncode<V>>::value_bytes(
                value,
            ).len() + 2 <= wide_max(5),
        ensures
            (*final(self).buf)@ == (*old(self).buf)@ + map_entry_bytes::<K, V, A, B>(
                N as u64,
                key,
                value,
            ),
            *final(final(self).buf) == *final(old(self).buf),
    {
        proof {
            lemma_small_tag_len(<A as ProtoEncode<K>>::wire_ty().spec_val());
            lemma_small_tag_len(<B as ProtoEncode<V>>::wire_ty().spec_val());
        }
        let klen = A::value_len(&key);
        let vlen = B::value_len(&value);
        let body_len = 1 + klen + 1 + vlen;
        write_varint((N as u64) * 8 + 2, self.buf);
        write_varint(body_len as u64, self.buf);
        A::encode_tag(1, self.buf);
        A::encode(self.buf, key);
        B::encode_tag(2, self.buf);
        B::encode(self.buf, value);
        proof {
            assert((*final(self).buf)@ =~= (*old(self).buf)@ + map_entry_bytes::<K, V, A, B>(
                N as u64,
                key,
                value,
            ));
        }
    }
}

/// A tag of a single-digit field number is one varint byte.
proof fn lemma_small_tag_len(wt: u64)
    requires
        wt <= 5,
    ensures
        varint_len(tag_val(1, wt)) == 1,
        varint_len(tag_val(2, wt)) == 1,
        varint_bytes(tag_val(1, wt)).len() == 1,
        varint_bytes(tag_val(2, wt)).len() == 1,
{
    lemma_varint_bytes_len(tag_val(1, wt));
    lemma_varint_bytes_len(tag_val(2, wt));
}

/// One map entry as `MapWriter::insert` emits it: like `map_entry_bytes`
/// but with the 4-byte padded length prefix the backpatching guard leaves.
pub open spec fn map_insert_bytes<K, V, A: ProtoEncode<K>, B: ProtoEncode<V>>(
    field_nr: u64,
    key: A,
    value: B,
) -> Seq<u8> {
    varint_bytes(tag_val(field_nr, 2)) + wide_varint_bytes(
        4,
        (tagged_value_bytes::<K, A>(1, key) + tagged_value_bytes::<V, B>(2, value)).len() as u64,
    ) + tagged_value_bytes::<K, A>(1, key) + tagged_value_bytes::<V, B>(2, value)
}

/// All entries of a map, in iteration order of the supplied pairs; the
/// encoder imposes no canonical ordering of its own.
pub open spec fn map_entries_bytes<K, V, A: ProtoEncode<K>, B: ProtoEncode<V>>(
    field_nr: u64,
    s: Seq<(A, B)>,
) -> Seq<u8>
    decreases s.len(),
{
    if s.len() == 0 {
        Seq::empty()
    } else {
        map_insert_bytes::<K, V, A, B>(field_nr, s[0].0, s[0].1) + map_entries_bytes::<K, V, A, B>(
            field_nr,
            s.skip(1),
        )
    }
}

/// Writer for a whole map field, one backpatched region per entry.
pub struct MapWriter<'b, const N: usize, K, V> {
    /// The borrowed output buffer.
    pub buf: &'b mut Vec<u8>,
    pub marker: PhantomData<(K, V)>,
}

impl<'b, const N: usize, K: MapKey, V> MapWriter<'b, N, K, V> {
    /// Binds a map writer for field number `N` to the output buffer.
    pub fn new(buf: &'b mut Vec<u8>) -> (w: Self)
        ensures
            (*w.buf)@ == (*old(buf))@,
            *final(w.buf) == *final(buf),
    {
        MapWriter { buf, marker: PhantomData }
    }

    /// Appends one entry as a backpatched length-delimited region under the
    /// map field's tag.
    pub fn insert<A: ProtoEncode<K>, B: ProtoEncode<V>>(&mut self, key: A, value: B)
        requires
            valid_field_nr(N as int),
            (tagged_value_bytes::<K, A>(1, key) + tagged_value_bytes::<V, B>(2, value)).len()
                <= wide_max(4),
        ensures
            (*final(self).buf)@ == (*old(self).buf)@ + map_insert_bytes::<K, V, A, B>(
                N as u64,
                key,
                value,
            ),
            *final(final(self).buf) == *final(old(self).buf),
    {
        let tag_value: u32 = (N as u32) * 8 + 2;
        let ghost pre = (*self.buf)@;
        let mut tack = Tack::new(self.buf, Some(tag_value));
        tack.rewind = false;
        let ghost base = (*tack.buffer)@;
        A::encode_tag(1, tack.buffer);
        A::encode(tack.buffer, key);
        B::encode_tag(2, tack.buffer);
        B::encode(tack.buffer, value);
        let ghost body = tagged_value_bytes::<K, A>(1, key) + tagged_value_bytes::<V, B>(
            2,
            value,
        );
        proof {
            assert((*tack.buffer)@ =~= base + body);
        }
        tack.close();
        proof {
            assert((base + body).skip(base.len() as int) =~= body);
            assert((base + body).take(base.len() - 4) =~= pre + varint_bytes(
                tag_val(N as u64, 2),
            ));
            assert((*final(tack.buffer))@ =~= pre + map_insert_bytes::<K, V, A, B>(
                N as u64,
                key,
                value,
            ));
        }
    }

    /// Finishes the map field, yielding its witness.
    pub fn close(self) -> (r: Field<N, PbMap<K, V>>)
        ensures
            (*final(self.buf))@ == (*old(self.buf))@,
    {
        Field::new()
    }

    /// Writes every pair as one entry, in the order supplied.
    pub fn write<A: ProtoEncode<K> + Copy, B: ProtoEncode<V> + Copy>(
        &mut self,
        values: &Vec<(A, B)>,
    ) -> (r: Field<N, PbMap<K, V>>)
        requires
            valid_field_nr(N as int),
            forall|j: int|
                0 <= j < values@.len() ==> (tagged_value_bytes::<K, A>(1, #[trigger] values@[j].0)
                    + tagged_value_bytes::<V, B>(2, values@[j].1)).len() <= wide_max(4),
        ensures
            (*final(self).buf)@ == (*old(self).buf)@ + map_entries_bytes::<K, V, A, B>(
                N as u64,
                values@,
            ),
            *final(final(self).buf) == *final(old(self).buf),
    {
        let mut i: usize = 0;
        while i < values.len()
            invariant
                valid_field_nr(N as int),
                i <= values@.len(),
                forall|j: int|
                    0 <= j < values@.len() ==> (tagged_value_bytes::<K, A>(
                        1,
                        #[trigger] values@[j].0,
                    ) + tagged_value_bytes::<V, B>(2, values@[j].1)).len() <= wide_max(4),
                (*self.buf)@ == (*old(self).buf)@ + map_entries_bytes::<K, V, A, B>(
                    N as u64,
                    values@.take(i as int),
                ),
                *final(self.buf) == *final(old(self).buf),
            decreases values@.len() - i,
        {
            proof {
                lemma_map_entries_snoc::<K, V, A, B>(N as u64, values@, i as int);
            }
            let pair = values[i];
            self.insert(pair.0, pair.1);
            i += 1;
        }
        proof {
            assert(values@.take(values@.len() as int) =~= values@);
        }
        Field::new()
    }
}

proof fn lemma_map_entries_snoc<K, V, A: ProtoEncode<K>, B: ProtoEncode<V>>(
    field_nr: u64,
    s: Seq<(A, B)>,
    i: int,
)
    requires
        0 <= i < s.len(),
    ensures
        map_entries_bytes::<K, V, A, B>(field_nr, s.take(i + 1)) == map_entries_bytes::<
            K,
            V,
            A,
            B,
        >(field_nr, s.take(i)) + map_insert_bytes::<K, V, A, B>(field_nr, s[i].0, s[i].1),
    decreases i,
{
    if i == 0 {
        assert(s.take(1).len() == 1);
        assert(s.take(1)[0] == s[0]);
        assert(s.take(1).skip(1) =~= Seq::<(A, B)>::empty());
        assert(s.take(0) =~= Seq::<(A, B)>::empty());
        assert(map_entries_bytes::<K, V, A, B>(field_nr, s.take(1)) == map_insert_bytes::<
            K,
            V,
            A,
            B,
        >(field_nr, s.take(1)[0].0, s.take(1)[0].1) + map_entries_bytes::<K, V, A, B>(
            field_nr,
            s.take(1).skip(1),
        ));
        assert(map_insert_bytes::<K, V, A, B>(field_nr, s[0].0, s[0].1) + Seq::<u8>::empty()
            =~= map_insert_bytes::<K, V, A, B>(field_nr, s[0].0, s[0].1));
    } else {
        lemma_map_entries_snoc::<K, V, A, B>(field_nr, s.skip(1), i - 1);
        assert(s.take(i + 1).skip(1) =~= s.skip(1).take(i));
        assert(s.take(i).skip(1) =~= s.skip(1).take(i - 1));
        assert(s.skip(1)[i - 1] == s[i]);
    }
}

// ---------------------------------------------------------------------------
// Message composition glue.
// ---------------------------------------------------------------------------

/// Implemented by the zero-sized schema type generated for each message: it
/// names the message's writer shape and opens one over a buffer, tagged
/// when the message is itself a field of an enclosing message.
pub trait MessageSchema {
    type Writer<'a>;

    fn new_writer<'a>(buffer: &'a mut Vec<u8>, tag: Option<i32>) -> Self::Writer<'a>;
}


// ---------------------------------------------------------------------------
// Packed versus unpacked equivalence.
// ---------------------------------------------------------------------------

/// Packed and unpacked encodings of one repeated varint field carry the
/// same sequence: a decoder reads the original values, in order and with
/// duplicates, from the packed run's content and from the tagged run
/// alike.
pub proof fn lemma_packed_unpacked_equivalent(field_nr: u64, values: Seq<u64>)
    requires
        valid_field_nr(field_nr as int),
    ensures
        crate::wire::decode_varint_run(packed_content_bytes::<Uint64, u64>(values)) == values,
        crate::wire::decode_tagged_varint_run(
            tag_val(field_nr, 0),
            repeated_bytes::<Uint64, u64>(field_nr, values),
        ) == values,
    decreases values.len(),
{
    let tag = tag_val(field_nr, 0);
    if values.len() == 0 {
    } else {
        lemma_packed_unpacked_equivalent(field_nr, values.skip(1));
        let head = values[0];
        let packed_rest = packed_content_bytes::<Uint64, u64>(values.skip(1));
        assert(packed_content_bytes::<Uint64, u64>(values) == varint_bytes(head) + packed_rest);
        crate::wire::lemma_varint_run_cons(head, packed_rest);
        assert(seq![head] + values.skip(1) =~= values);

        let rep_rest = repeated_bytes::<Uint64, u64>(field_nr, values.skip(1));
        let rep = repeated_bytes::<Uint64, u64>(field_nr, values);
        let after_tag = varint_bytes(head) + rep_rest;
        assert(rep =~= varint_bytes(tag) + after_tag);
        crate::wire::lemma_varint_round_trip(tag, after_tag);
        lemma_varint_bytes_len(tag);
        lemma_varint_len_bounds(tag);
        assert(rep.skip(varint_len(tag) as int) =~= after_tag);
        crate::wire::lemma_varint_round_trip(head, rep_rest);
        lemma_varint_bytes_len(head);
        lemma_varint_len_bounds(head);
        assert(after_tag.skip(varint_len(head) as int) =~= rep_rest);
        assert(after_tag.len() >= 1);
    }
}

// ---------------------------------------------------------------------------
// Embedded message fields. Writing a message field opens one more guard
// nested inside the current one and hands it to a caller-supplied closure;
// this is the only mechanism for nesting — there is no build-then-attach
// path, which would require buffering. The closure must write its content
// through the guard and close it; the contracts below demand exactly that.
// ---------------------------------------------------------------------------

/// What one embedded-message field leaves on the wire when its region
/// closed over `content`: nothing for an empty message (the rewind
/// policy), else tag, backpatched 4-byte length, content.
pub open spec fn msg_field_bytes(field_nr: u64, content: Seq<u8>) -> Seq<u8> {
    if content.len() == 0 {
        Seq::empty()
    } else {
        varint_bytes(tag_val(field_nr, 2)) + wide_varint_bytes(4, content.len() as u64) + content
    }
}

/// What one required embedded-message field leaves on the wire: tag,
/// backpatched 4-byte length and content, kept even when the content is
/// empty (explicit presence).
pub open spec fn required_msg_field_bytes(field_nr: u64, content: Seq<u8>) -> Seq<u8> {
    varint_bytes(tag_val(field_nr, 2)) + wide_varint_bytes(4, content.len() as u64) + content
}

impl<'b, const N: usize, M: MessageSchema> FieldWriter<'b, N, Optional<M>> {
    /// Writes an embedded message: opens a guard tagged with this field's
    /// number and hands it to `f`, which writes the message's fields and
    /// closes the guard. For whatever content the closure commits to
    /// leaving in its region, the buffer gains exactly that message field;
    /// an empty message is omitted entirely.
    pub fn write_msg<F: for<'t> FnOnce(Tack<'t>)>(self, f: F) -> (r: Field<N, Optional<M>>)
        requires
            valid_field_nr(N as int),
            forall|t: Tack<'static>|
                t.wf() && t.start == (*t.buffer)@.len() && t.width == 4 && t.rewind
                    ==> #[trigger] call_requires(f, (t,)),
        ensures
            forall|content: Seq<u8>|
                content.len() <= wide_max(4) && (forall|t: Tack<'static>|
                    t.wf() && t.start == (*t.buffer)@.len() && t.width == 4 && t.rewind
                        && #[trigger] call_ensures(f, (t,), ()) ==> (*final(t.buffer))@
                        == tack_close_bytes(
                        (*t.buffer)@ + content,
                        t.tag,
                        t.start as int,
                        4,
                        true,
                    )) ==> (*final(self.buf))@ == (*old(self.buf))@ + #[trigger] msg_field_bytes(
                    N as u64,
                    content,
                ),
    {
        let ghost pre = (*self.buf)@;
        let tag_value: u32 = (N as u32) * 8 + 2;
        let t = Tack::new(self.buf, Some(tag_value));
        let ghost t0 = t;
        f(t);
        proof {
            let tg = tag_val(N as u64, 2);
            assert(tg == tag_value as u64);
            assert((*t0.buffer)@ =~= pre + varint_bytes(tg) + wide_varint_bytes(4, 0));
            assert forall|content: Seq<u8>|
                content.len() <= wide_max(4) && (forall|t: Tack<'static>|
                    t.wf() && t.start == (*t.buffer)@.len() && t.width == 4 && t.rewind
                        && #[trigger] call_ensures(f, (t,), ()) ==> (*final(t.buffer))@
                        == tack_close_bytes(
                        (*t.buffer)@ + content,
                        t.tag,
                        t.start as int,
                        4,
                        true,
                    )) implies (*final(self.buf))@ == pre + #[trigger] msg_field_bytes(
                N as u64,
                content,
            ) by {
                crate::tack::lemma_close_over_content(pre, tag_value, content, true);
                assert(content.len() == 0 ==> (pre + msg_field_bytes(N as u64, content) =~= pre));
                assert(content.len() > 0 ==> (pre + msg_field_bytes(N as u64, content) =~= pre
                    + varint_bytes(tg) + wide_varint_bytes(4, content.len() as u64) + content));
            }
        }
        Field::new()
    }
}

impl<'b, const N: usize, M: MessageSchema> FieldWriter<'b, N, Required<M>> {
    /// Writes a required embedded message through a caller-supplied
    /// closure. The guard's rewind policy is turned off: a required
    /// message that ends up empty keeps its tag and a zero length on the
    /// wire, as explicit presence demands, instead of being erased.
    pub fn write_with<F: for<'t> FnOnce(Tack<'t>)>(self, f: F) -> (r: Field<N, Required<M>>)
        requires
            valid_field_nr(N as int),
            forall|t: Tack<'static>|
                t.wf() && t.start == (*t.buffer)@.len() && t.width == 4 && !t.rewind
                    ==> #[trigger] call_requires(f, (t,)),
        ensures
            forall|content: Seq<u8>|
                content.len() <= wide_max(4) && (forall|t: Tack<'static>|
                    t.wf() && t.start == (*t.buffer)@.len() && t.width == 4 && !t.rewind
                        && #[trigger] call_ensures(f, (t,), ()) ==> (*final(t.buffer))@
                        == tack_close_bytes(
                        (*t.buffer)@ + content,
                        t.tag,
                        t.start as int,
                        4,
                        false,
                    )) ==> (*final(self.buf))@ == (*old(self.buf))@
                    + #[trigger] required_msg_field_bytes(N as u64, content),
    {
        let ghost pre = (*self.buf)@;
        let tag_value: u32 = (N as u32) * 8 + 2;
        let mut t = Tack::new(self.buf, Some(tag_value));
        t.rewind = false;
        let ghost t0 = t;
        f(t);
        proof {
            let tg = tag_val(N as u64, 2);
            assert(tg == tag_value as u64);
            assert((*t0.buffer)@ =~= pre + varint_bytes(tg) + wide_varint_bytes(4, 0));
            assert forall|content: Seq<u8>|
                content.len() <= wide_max(4) && (forall|t: Tack<'static>|
                    t.wf() && t.start == (*t.buffer)@.len() && t.width == 4 && !t.rewind
                        && #[trigger] call_ensures(f, (t,), ()) ==> (*final(t.buffer))@
                        == tack_close_bytes(
                        (*t.buffer)@ + content,
                        t.tag,
                        t.start as int,
                        4,
                        false,
                    )) implies (*final(self.buf))@ == pre + #[trigger] required_msg_field_bytes(
                N as u64,
                content,
            ) by {
                crate::tack::lemma_close_over_content(pre, tag_value, content, false);
                assert(pre + required_msg_field_bytes(N as u64, content) =~= pre + varint_bytes(
                    tg,
                ) + wide_varint_bytes(4, content.len() as u64) + content);
            }
        }
        Field::new()
    }
}

impl<'b, const N: usize, M: MessageSchema> FieldWriter<'b, N, Repeated<M>> {
    /// Appends one more element of a repeated embedded-message field
    /// through a caller-supplied closure; arbitrary nesting depth comes
    /// from calling this inside another such closure. For whatever content
    /// the closure commits to leaving in its region, the buffer gains
    /// exactly that message field.
    pub fn append_msg_with<F: for<'t> FnOnce(Tack<'t>)>(&mut self, f: F)
        requires
            valid_field_nr(N as int),
            forall|t: Tack<'static>|
                t.wf() && t.start == (*t.buffer)@.len() && t.width == 4 && t.rewind
                    ==> #[trigger] call_requires(f, (t,)),
        ensures
            *final(final(self).buf) == *final(old(self).buf),
            forall|content: Seq<u8>|
                content.len() <= wide_max(4) && (forall|t: Tack<'static>|
                    t.wf() && t.start == (*t.buffer)@.len() && t.width == 4 && t.rewind
                        && #[trigger] call_ensures(f, (t,), ()) ==> (*final(t.buffer))@
                        == tack_close_bytes(
                        (*t.buffer)@ + content,
                        t.tag,
                        t.start as int,
                        4,
                        true,
                    )) ==> (*final(self).buf)@ == (*old(self).buf)@ + #[trigger] msg_field_bytes(
                    N as u64,
                    content,
                ),
    {
        let ghost pre = (*self.buf)@;
        let tag_value: u32 = (N as u32) * 8 + 2;
        let t = Tack::new(self.buf, Some(tag_value));
        let ghost t0 = t;
        f(t);
        proof {
            let tg = tag_val(N as u64, 2);
            assert(tg == tag_value as u64);
            assert((*t0.buffer)@ =~= pre + varint_bytes(tg) + wide_varint_bytes(4, 0));
            assert forall|content: Seq<u8>|
                content.len() <= wide_max(4) && (forall|t: Tack<'static>|
                    t.wf() && t.start == (*t.buffer)@.len() && t.width == 4 && t.rewind
                        && #[trigger] call_ensures(f, (t,), ()) ==> (*final(t.buffer))@
                        == tack_close_bytes(
                        (*t.buffer)@ + content,
                        t.tag,
                        t.start as int,
                        4,
                        true,
                    )) implies (*self.buf)@ == pre + #[trigger] msg_field_bytes(
                N as u64,
                content,
            ) by {
                crate::tack::lemma_close_over_content(pre, tag_value, content, true);
                assert(content.len() == 0 ==> (pre + msg_field_bytes(N as u64, content) =~= pre));
                assert(content.len() > 0 ==> (pre + msg_field_bytes(N as u64, content) =~= pre
                    + varint_bytes(tg) + wide_varint_bytes(4, content.len() as u64) + content));
            }
        }
    }
}

} // verus!
