//! Tests of the library's stated properties on concrete values: scalar
//! round-trips against an independent decoder, length agreement, varint
//! minimality, omission of defaults, backpatch correctness over a deep
//! nest, and the width-overflow abort.

use prost::encoding::decode_varint;
use tacky::scalars::{
    encoded_len_varint, len_of_bytes, len_of_int32, len_of_int64, len_of_sint32, len_of_sint64,
    len_of_string, len_of_uint32, len_of_uint64, len_of_value, write_bool, write_bytes,
    write_fixed32, write_fixed64, write_int32, write_int64, write_sfixed32, write_sfixed64,
    write_sint32, write_sint64, write_string, write_uint32, write_uint64, write_varint, Bool,
    Int32, PbBytes, PbString, Uint64,
};
use tacky::tack::Tack;
use tacky::typed_writers::{FieldWriter, Optional, Packed, Plain};

fn unzig32(z: u32) -> i32 {
    ((z >> 1) as i32) ^ (-((z & 1) as i32))
}

fn unzig64(z: u64) -> i64 {
    ((z >> 1) as i64) ^ (-((z & 1) as i64))
}

#[test]
fn round_trip_varint_scalars() {
    for v in [0u64, 1, 127, 128, 16383, 16384, 1 << 35, u64::MAX] {
        let mut buf = Vec::new();
        write_uint64(v, &mut buf);
        assert_eq!(decode_varint(&mut buf.as_slice()).unwrap(), v);
    }
    for v in [0u32, 1, 300, u32::MAX] {
        let mut buf = Vec::new();
        write_uint32(v, &mut buf);
        assert_eq!(decode_varint(&mut buf.as_slice()).unwrap(), v as u64);
    }
    for v in [0i32, 1, -1, 42, -42, i32::MIN, i32::MAX] {
        let mut buf = Vec::new();
        write_int32(v, &mut buf);
        assert_eq!(decode_varint(&mut buf.as_slice()).unwrap() as i64 as i32, v);
        buf.clear();
        write_sint32(v, &mut buf);
        assert_eq!(unzig32(decode_varint(&mut buf.as_slice()).unwrap() as u32), v);
    }
    for v in [0i64, -1, 5_000_000_000, i64::MIN, i64::MAX] {
        let mut buf = Vec::new();
        write_int64(v, &mut buf);
        assert_eq!(decode_varint(&mut buf.as_slice()).unwrap() as i64, v);
        buf.clear();
        write_sint64(v, &mut buf);
        assert_eq!(unzig64(decode_varint(&mut buf.as_slice()).unwrap()), v);
    }
    // bool is a one-byte varint
    for v in [false, true] {
        let mut buf = Vec::new();
        write_bool(v, &mut buf);
        assert_eq!(buf.len(), 1);
        assert_eq!(decode_varint(&mut buf.as_slice()).unwrap() != 0, v);
    }
}

#[test]
fn round_trip_fixed_scalars() {
    for v in [0u32, 1, 0xDEAD_BEEF, u32::MAX] {
        let mut buf = Vec::new();
        write_fixed32(v, &mut buf);
        assert_eq!(u32::from_le_bytes(buf[..4].try_into().unwrap()), v);
    }
    for v in [0u64, 1, 0xFEED_FACE_CAFE_BEEF, u64::MAX] {
        let mut buf = Vec::new();
        write_fixed64(v, &mut buf);
        assert_eq!(u64::from_le_bytes(buf[..8].try_into().unwrap()), v);
    }
    for v in [0i32, -1, i32::MIN, i32::MAX] {
        let mut buf = Vec::new();
        write_sfixed32(v, &mut buf);
        assert_eq!(i32::from_le_bytes(buf[..4].try_into().unwrap()), v);
    }
    for v in [0i64, -1, i64::MIN, i64::MAX] {
        let mut buf = Vec::new();
        write_sfixed64(v, &mut buf);
        assert_eq!(i64::from_le_bytes(buf[..8].try_into().unwrap()), v);
    }
    // floats travel as their bit patterns, always little-endian
    for v in [0.0f32, -1.5, f32::MAX] {
        let mut buf = Vec::new();
        write_fixed32(v.to_bits(), &mut buf);
        assert_eq!(f32::from_bits(u32::from_le_bytes(buf[..4].try_into().unwrap())), v);
    }
    for v in [0.0f64, 2.5, f64::MIN_POSITIVE] {
        let mut buf = Vec::new();
        write_fixed64(v.to_bits(), &mut buf);
        assert_eq!(f64::from_bits(u64::from_le_bytes(buf[..8].try_into().unwrap())), v);
    }
}

#[test]
fn round_trip_length_delimited() {
    for s in ["", "a", "héllo wörld", "日本語のテキスト"] {
        let mut buf = Vec::new();
        write_string(s, &mut buf);
        let mut rd = buf.as_slice();
        let len = decode_varint(&mut rd).unwrap() as usize;
        assert_eq!(len, s.len());
        assert_eq!(&rd[..len], s.as_bytes());
    }
    for b in [&b""[..], &b"\x00\xFF"[..], &[7u8; 300][..]] {
        let mut buf = Vec::new();
        write_bytes(b, &mut buf);
        let mut rd = buf.as_slice();
        let len = decode_varint(&mut rd).unwrap() as usize;
        assert_eq!(len, b.len());
        assert_eq!(&rd[..len], b);
    }
}

#[test]
fn length_agreement() {
    for v in [0i32, 1, -1, i32::MIN, i32::MAX] {
        let mut buf = Vec::new();
        write_int32(v, &mut buf);
        assert_eq!(len_of_int32(v), buf.len());
        buf.clear();
        write_sint32(v, &mut buf);
        assert_eq!(len_of_sint32(v), buf.len());
    }
    for v in [0i64, -1, i64::MIN, i64::MAX] {
        let mut buf = Vec::new();
        write_int64(v, &mut buf);
        assert_eq!(len_of_int64(v), buf.len());
        buf.clear();
        write_sint64(v, &mut buf);
        assert_eq!(len_of_sint64(v), buf.len());
    }
    for v in [0u32, 127, 128, u32::MAX] {
        let mut buf = Vec::new();
        write_uint32(v, &mut buf);
        assert_eq!(len_of_uint32(v), buf.len());
    }
    for v in [0u64, 1 << 42, u64::MAX] {
        let mut buf = Vec::new();
        write_uint64(v, &mut buf);
        assert_eq!(len_of_uint64(v), buf.len());
        buf.clear();
        write_varint(v, &mut buf);
        assert_eq!(encoded_len_varint(v), buf.len());
    }
    for s in ["", "hello", "héllo"] {
        let mut buf = Vec::new();
        write_string(s, &mut buf);
        assert_eq!(len_of_string(s), buf.len());
    }
    for b in [&b""[..], &b"abc"[..]] {
        let mut buf = Vec::new();
        write_bytes(b, &mut buf);
        assert_eq!(len_of_bytes(b), buf.len());
    }
    // fixed-width values take exactly the size of their representation
    let mut buf = Vec::new();
    write_fixed32(9u32, &mut buf);
    assert_eq!(len_of_value(9u32), buf.len());
    buf.clear();
    write_fixed64(9u64, &mut buf);
    assert_eq!(len_of_value(9u64), buf.len());
}

#[test]
fn varint_minimality() {
    let cases: [(u64, usize); 8] = [
        (0, 1),
        (1, 1),
        (127, 1),
        (128, 2),
        (16383, 2),
        (16384, 3),
        (1 << 35, 6),
        (u64::MAX, 10),
    ];
    for (v, expected) in cases {
        assert_eq!(encoded_len_varint(v), expected);
        let mut buf = Vec::new();
        write_varint(v, &mut buf);
        assert_eq!(buf.len(), expected);
    }
}

#[test]
fn omission_laws() {
    // Plain write of a type's default produces zero bytes.
    let mut buf = Vec::new();
    let _ = FieldWriter::<1, Plain<Int32>>::new(&mut buf).write(0);
    assert_eq!(buf, Vec::<u8>::new());
    let _ = FieldWriter::<1, Plain<Bool>>::new(&mut buf).write(false);
    assert_eq!(buf, Vec::<u8>::new());
    let _ = FieldWriter::<1, Plain<PbString>>::new(&mut buf).write("");
    assert_eq!(buf, Vec::<u8>::new());
    let _ = FieldWriter::<1, Plain<PbBytes>>::new(&mut buf).write(b"".as_slice());
    assert_eq!(buf, Vec::<u8>::new());
    // A non-default value is written as tag + value.
    let _ = FieldWriter::<1, Plain<Int32>>::new(&mut buf).write(5);
    assert_eq!(buf, vec![0x08, 0x05]);
    buf.clear();
    // Optional write of None produces zero bytes.
    let _ = FieldWriter::<1, Optional<Uint64>>::new(&mut buf).write(None::<u64>);
    assert_eq!(buf, Vec::<u8>::new());
    // Packed write of an empty run produces zero bytes, not even a prefix.
    let _ = FieldWriter::<1, Packed<Int32>>::new(&mut buf).write(&Vec::<i32>::new());
    assert_eq!(buf, Vec::<u8>::new());
}

#[test]
fn backpatch_nested_regions() {
    // Depth-3 nest with sibling bytes at every level, all through open
    // guards at once; each length prefix must decode to its own region.
    let mut buf = Vec::new();
    let outer = Tack::new(&mut buf, Some(0x0A));
    outer.buffer.extend_from_slice(b"aa");
    {
        let mid = Tack::new(outer.buffer, Some(0x12));
        mid.buffer.extend_from_slice(b"cccc");
        {
            let inner = Tack::new(mid.buffer, Some(0x1A));
            inner.buffer.extend_from_slice(b"dddddddd");
            inner.close();
        }
        mid.close();
    }
    outer.buffer.extend_from_slice(b"b");
    outer.close();

    // outer: tag 0x0A, then a 4-byte length prefix.
    let mut rd = buf.as_slice();
    assert_eq!(decode_varint(&mut rd).unwrap(), 0x0A);
    let outer_len = decode_varint(&mut rd).unwrap() as usize;
    assert_eq!(buf.len(), 1 + 4 + outer_len);
    assert_eq!(outer_len, rd.len());
    // inner regions: 2 sibling bytes, mid region, 1 sibling byte.
    let inner_total = 2 + (1 + 4 + (4 + (1 + 4 + 8))) + 1;
    assert_eq!(outer_len, inner_total);
    // mid region after the "aa" siblings
    let mut rd2 = &rd[2..];
    assert_eq!(decode_varint(&mut rd2).unwrap(), 0x12);
    let mid_len = decode_varint(&mut rd2).unwrap() as usize;
    assert_eq!(mid_len, 4 + (1 + 4 + 8));
    // innermost region after the "cccc" siblings
    let mut rd3 = &rd2[4..];
    assert_eq!(decode_varint(&mut rd3).unwrap(), 0x1A);
    let inner_len = decode_varint(&mut rd3).unwrap() as usize;
    assert_eq!(inner_len, 8);
    assert_eq!(&rd3[..8], b"dddddddd");
}

#[test]
fn empty_tagged_region_is_erased() {
    // A guard that saw no content erases its tag and placeholder entirely.
    let mut buf = Vec::new();
    let t = Tack::new(&mut buf, Some(0x0A));
    t.close();
    assert_eq!(buf, Vec::<u8>::new());
    // Unless the rewind policy is turned off: then a zero length remains.
    let mut t = Tack::new(&mut buf, Some(0x0A));
    t.rewind = false;
    t.close();
    assert_eq!(buf.len(), 1 + 4);
    let mut rd = &buf[1..];
    assert_eq!(decode_varint(&mut rd).unwrap(), 0);
}

#[test]
fn width_overflow_is_detected() {
    // A 1-byte placeholder supports at most 127 content bytes; writing
    // more must abort the close instead of emitting a truncated length.
    let mut buf = Vec::new();
    let t = Tack::new_with_width(&mut buf, Some(0x0A), 1);
    t.buffer.extend_from_slice(&[9u8; 200]);
    assert!(!t.fits());
    let ok = t.try_close();
    assert!(!ok);
    // The overgrown region was erased whole, leaving no corrupt bytes.
    assert_eq!(buf, Vec::<u8>::new());

    // At exactly the capacity the close still succeeds.
    let t = Tack::new_with_width(&mut buf, Some(0x0A), 1);
    t.buffer.extend_from_slice(&[9u8; 127]);
    assert!(t.fits());
    assert!(t.try_close());
    let mut rd = buf.as_slice();
    assert_eq!(decode_varint(&mut rd).unwrap(), 0x0A);
    assert_eq!(decode_varint(&mut rd).unwrap(), 127);
    assert_eq!(rd.len(), 127);
}

#[test]
fn packed_and_unpacked_decode_alike() {
    // The same values through the packed and the unpacked writer decode to
    // the same sequence.
    let values: Vec<u64> = vec![0, 1, 127, 128, 300_000, u64::MAX];
    let mut packed = Vec::new();
    let _ = FieldWriter::<3, Packed<Uint64>>::new(&mut packed).write(&values);
    let mut unpacked = Vec::new();
    let _ = FieldWriter::<3, tacky::typed_writers::Repeated<Uint64>>::new(&mut unpacked)
        .write(&values);

    let mut from_packed = Vec::new();
    let mut rd = packed.as_slice();
    assert_eq!(decode_varint(&mut rd).unwrap(), (3 << 3) | 2);
    let len = decode_varint(&mut rd).unwrap() as usize;
    assert_eq!(len, rd.len());
    while !rd.is_empty() {
        from_packed.push(decode_varint(&mut rd).unwrap());
    }

    let mut from_unpacked = Vec::new();
    let mut rd = unpacked.as_slice();
    while !rd.is_empty() {
        assert_eq!(decode_varint(&mut rd).unwrap(), 3 << 3);
        from_unpacked.push(decode_varint(&mut rd).unwrap());
    }

    assert_eq!(from_packed, from_unpacked);
    assert_eq!(from_packed, values);
}
