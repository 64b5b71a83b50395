//! Byte-exact tests of the scalar writers, the cardinality-typed field
//! writers and the map entry writer.

use tacky::scalars::{Bool, Double, Float, Int32, Int64, PbBytes, PbString, Uint32, Uint64};
use tacky::tack::write_wide_varint;
use tacky::typed_writers::{
    FieldWriter, MapEntryWriter, MapWriter, Optional, Packed, Repeated, Required,
};

// Helper to get hex string of buffer for assertions
fn hex(buf: &[u8]) -> String {
    buf.iter()
        .map(|b| format!("{:02x}", b))
        .collect::<Vec<_>>()
        .join(" ")
}

#[test]
fn test_write() {
    let mut buf = Vec::new();
    {
        for i in 2..=5 {
            write_wide_varint(i, 15723, &mut buf);
            println!("{buf:?}");
            let dec = prost::encoding::decode_varint(&mut buf.as_slice());
            println!("{dec:?}");
            assert_eq!(dec.unwrap(), 15723);
            buf.clear()
        }
    }
}

#[test]
fn test_map_int_string() {
    let mut buf = Vec::new();
    let mut writer = MapEntryWriter::<1, Int32, PbString>::new(&mut buf);
    writer.write(1, "one");
    writer.write(2, "two");
    assert_eq!(
        hex(&buf),
        "0a 07 08 01 12 03 6f 6e 65 0a 07 08 02 12 03 74 77 6f"
    );
}

#[test]
fn test_map_string_string() {
    let mut buf = Vec::new();
    let mut writer = MapEntryWriter::<1, PbString, PbString>::new(&mut buf);
    writer.write("a", "alpha");
    writer.write("b", "beta");
    assert_eq!(
        hex(&buf),
        "0a 0a 0a 01 61 12 05 61 6c 70 68 61 0a 09 0a 01 62 12 04 62 65 74 61"
    );
}

#[test]
fn test_map_int_float() {
    let mut buf = Vec::new();
    let mut writer = MapEntryWriter::<1, Int32, Float>::new(&mut buf);
    writer.write(1, 1.5f32.to_bits());
    writer.write(2, 2.5f32.to_bits());
    assert_eq!(
        hex(&buf),
        "0a 07 08 01 15 00 00 c0 3f 0a 07 08 02 15 00 00 20 40"
    );
}

#[test]
fn test_required_string_and_bytes() {
    let mut buf = Vec::new();
    // String
    let _ = FieldWriter::<1, Required<PbString>>::new(&mut buf).write("hello");
    assert_eq!(hex(&buf), "0a 05 68 65 6c 6c 6f"); // tag=1, wire=2, len=5, "hello"
    buf.clear();
    // Bytes
    let _ = FieldWriter::<2, Required<PbBytes>>::new(&mut buf).write(b"abc".as_slice());
    assert_eq!(hex(&buf), "12 03 61 62 63"); // tag=2, wire=2, len=3, "abc"
}

#[test]
fn test_optional_string_and_bytes() {
    let mut buf = Vec::new();
    // String Some
    let _ = FieldWriter::<1, Optional<PbString>>::new(&mut buf).write(Some("hello"));
    assert_eq!(hex(&buf), "0a 05 68 65 6c 6c 6f");
    buf.clear();
    // String None
    let _ = FieldWriter::<1, Optional<PbString>>::new(&mut buf).write(None::<&str>);
    assert_eq!(hex(&buf), "");
    buf.clear();
    // Bytes Some
    let _ = FieldWriter::<2, Optional<PbBytes>>::new(&mut buf).write(Some(b"abc".as_slice()));
    assert_eq!(hex(&buf), "12 03 61 62 63");
    buf.clear();
    // Bytes None
    let _ = FieldWriter::<2, Optional<PbBytes>>::new(&mut buf).write(None::<&[u8]>);
    assert_eq!(hex(&buf), "");
}

#[test]
fn test_repeated_string_and_bytes() {
    let mut buf = Vec::new();
    // String
    let _ = FieldWriter::<1, Repeated<PbString>>::new(&mut buf).write(&vec!["a", "b"]);
    assert_eq!(hex(&buf), "0a 01 61 0a 01 62");
    buf.clear();
    // Bytes
    let _ = FieldWriter::<2, Repeated<PbBytes>>::new(&mut buf)
        .write(&vec![b"x".as_slice(), b"y".as_slice()]);
    assert_eq!(hex(&buf), "12 01 78 12 01 79");
}

#[test]
fn test_required_numeric_types() {
    let mut buf = Vec::new();
    // i32
    let _ = FieldWriter::<1, Required<Int32>>::new(&mut buf).write(42);
    assert_eq!(hex(&buf), "08 2a"); // tag=1, wire=0, value=42
    buf.clear();
    // u32
    let _ = FieldWriter::<2, Required<Uint32>>::new(&mut buf).write(123u32);
    assert_eq!(hex(&buf), "10 7b");
    buf.clear();
    let _ = FieldWriter::<3, Required<Int64>>::new(&mut buf).write(1000i64);
    assert_eq!(hex(&buf), "18 e8 07");
    buf.clear();
    let _ = FieldWriter::<4, Required<Uint64>>::new(&mut buf).write(1000u64);
    assert_eq!(hex(&buf), "20 e8 07");
    buf.clear();
    let _ = FieldWriter::<5, Required<Float>>::new(&mut buf).write(1.5f32.to_bits());
    assert_eq!(hex(&buf), "2d 00 00 c0 3f");
    buf.clear();
    // f64
    let _ = FieldWriter::<6, Required<Double>>::new(&mut buf).write(2.5f64.to_bits());
    assert_eq!(hex(&buf), "31 00 00 00 00 00 00 04 40"); // tag=6, wire=1, value=2.5f64
    buf.clear();
    // bool
    let _ = FieldWriter::<7, Required<Bool>>::new(&mut buf).write(true);
    assert_eq!(hex(&buf), "38 01");
    buf.clear();
    let _ = FieldWriter::<8, Required<Bool>>::new(&mut buf).write(false);
    assert_eq!(hex(&buf), "40 00");
}

#[test]
fn test_optional_numeric_types() {
    let mut buf = Vec::new();
    // i32
    let _ = FieldWriter::<1, Optional<Int32>>::new(&mut buf).write(Some(42));
    assert_eq!(hex(&buf), "08 2a");
    buf.clear();
    let _ = FieldWriter::<1, Optional<Int32>>::new(&mut buf).write(None::<i32>);
    assert_eq!(hex(&buf), "");
    buf.clear();
    // u32
    let _ = FieldWriter::<2, Optional<Uint32>>::new(&mut buf).write(Some(123u32));
    assert_eq!(hex(&buf), "10 7b");
    buf.clear();
    // bool
    let _ = FieldWriter::<3, Optional<Bool>>::new(&mut buf).write(Some(true));
    assert_eq!(hex(&buf), "18 01");
    buf.clear();
    let _ = FieldWriter::<3, Optional<Bool>>::new(&mut buf).write(None::<bool>);
    assert_eq!(hex(&buf), "");
}

#[test]
fn test_repeated_numeric_types() {
    let mut buf = Vec::new();
    let _ = FieldWriter::<1, Repeated<Int32>>::new(&mut buf).write(&vec![1, 2, 3]);
    assert_eq!(hex(&buf), "08 01 08 02 08 03");
    buf.clear();
    let _ = FieldWriter::<2, Repeated<Bool>>::new(&mut buf).write(&vec![true, false, true]);
    assert_eq!(hex(&buf), "10 01 10 00 10 01");
}

#[test]
fn test_packed_numeric_types() {
    let mut buf = Vec::new();
    let _ = FieldWriter::<1, Packed<Int32>>::new(&mut buf).write(&vec![1, 2, 3]);
    assert_eq!(hex(&buf), "0a 03 01 02 03");
    buf.clear();
    let _ = FieldWriter::<2, Packed<Bool>>::new(&mut buf).write(&vec![true, false, true]);
    assert_eq!(hex(&buf), "12 03 01 00 01");
}

#[test]
fn map_writer_backpatched_entries() {
    let mut buf = Vec::new();
    let mut writer = MapWriter::<1, Int32, PbString>::new(&mut buf);
    writer.insert(1, "one");
    let _ = writer.close();
    // one entry framed by a 4-byte backpatched length prefix
    assert_eq!(hex(&buf), "0a 87 80 80 00 08 01 12 03 6f 6e 65");
    buf.clear();
    let mut writer = MapWriter::<1, Int32, PbString>::new(&mut buf);
    let _ = writer.write(&vec![(1, "one"), (2, "two")]);
    assert_eq!(
        hex(&buf),
        "0a 87 80 80 00 08 01 12 03 6f 6e 65 0a 87 80 80 00 08 02 12 03 74 77 6f"
    );
}

#[test]
fn repeated_append_then_close() {
    let mut buf = Vec::new();
    let mut w = FieldWriter::<1, Repeated<Int32>>::new(&mut buf);
    w.append(1);
    w.append(2);
    let _ = w.close();
    assert_eq!(hex(&buf), "08 01 08 02");
}
