//! End-to-end message tests: writers composed from the library encode whole
//! messages, and an independent decoder built on prost's varint reader
//! turns the bytes back into plain structs for comparison.
//!
//! The example schema used throughout:
//!
//! message SimpleMessage {
//!   optional int32   normal_int = 1;   optional sint32 zigzag_int = 2;
//!   optional fixed32 fixed_int = 3;    repeated int32  manynumbers = 4 (packed);
//!   repeated int32   manynumbers_unpacked = 5;
//!   optional string  astring = 6;      repeated string manystrings = 7;
//!   optional bytes   abytes = 8;       repeated bytes  manybytes = 9;
//!   optional bool    yesno = 10;       repeated SimpleEnum packed_enum = 11 (packed);
//! }
//! message MsgWithMaps { map<string,int32> map1 = 1; map<int32,double> map2 = 2; }
//! message MsgWithEnums { optional SimpleEnum enum1 = 1; repeated AnotherEnum enum2 = 2; }
//! message MsgWithNesting { optional MsgWithEnums enums = 1; repeated SimpleMessage nested = 2; }

use prost::encoding::decode_varint;
use std::collections::{BTreeMap, HashMap};
use tacky::scalars::{Bool, Double, Fixed32, Int32, PbBytes, PbString, Sint32};
use tacky::tack::Tack;
use tacky::typed_writers::{
    FieldWriter, MapEntryWriter, MessageSchema, Optional, Packed, Repeated, Required,
};

#[derive(Debug, Clone, Copy, PartialEq)]
enum SimpleEnum {
    First,
    Second,
}

impl SimpleEnum {
    fn as_i32(self) -> i32 {
        match self {
            SimpleEnum::First => 1,
            SimpleEnum::Second => 2,
        }
    }
}

#[derive(Debug, Clone, Copy, PartialEq)]
enum AnotherEnum {
    A,
    B,
}

impl AnotherEnum {
    fn as_i32(self) -> i32 {
        match self {
            AnotherEnum::A => 1,
            AnotherEnum::B => 2,
        }
    }
}

// ---------------------------------------------------------------------------
// Writers, as the schema compiler would generate them over the library.
// ---------------------------------------------------------------------------

struct SimpleMessage;

struct SimpleMessageWriter<'b> {
    tack: Tack<'b>,
}

impl MessageSchema for SimpleMessage {
    type Writer<'a> = SimpleMessageWriter<'a>;

    fn new_writer<'a>(buffer: &'a mut Vec<u8>, tag: Option<i32>) -> SimpleMessageWriter<'a> {
        SimpleMessageWriter::new(buffer, tag.map(|t| t as u32))
    }
}

impl<'b> SimpleMessageWriter<'b> {
    fn new(buf: &'b mut Vec<u8>, tag: Option<u32>) -> Self {
        SimpleMessageWriter { tack: Tack::new(buf, tag) }
    }

    fn from_tack(tack: Tack<'b>) -> Self {
        SimpleMessageWriter { tack }
    }

    fn normal_int(&mut self, v: Option<i32>) {
        let _ = FieldWriter::<1, Optional<Int32>>::new(self.tack.buffer).write(v);
    }

    fn zigzag_int(&mut self, v: Option<i32>) {
        let _ = FieldWriter::<2, Optional<Sint32>>::new(self.tack.buffer).write(v);
    }

    fn fixed_int(&mut self, v: Option<u32>) {
        let _ = FieldWriter::<3, Optional<Fixed32>>::new(self.tack.buffer).write(v);
    }

    fn manynumbers(&mut self, v: &Vec<i32>) {
        let _ = FieldWriter::<4, Packed<Int32>>::new(self.tack.buffer).write(v);
    }

    fn manynumbers_unpacked(&mut self, v: &Vec<i32>) {
        let _ = FieldWriter::<5, Repeated<Int32>>::new(self.tack.buffer).write(v);
    }

    fn astring(&mut self, v: Option<&str>) {
        let _ = FieldWriter::<6, Optional<PbString>>::new(self.tack.buffer).write(v);
    }

    fn manystrings(&mut self, v: &Vec<&str>) {
        let _ = FieldWriter::<7, Repeated<PbString>>::new(self.tack.buffer).write(v);
    }

    fn abytes(&mut self, v: Option<&[u8]>) {
        let _ = FieldWriter::<8, Optional<PbBytes>>::new(self.tack.buffer).write(v);
    }

    fn manybytes(&mut self, v: &Vec<&[u8]>) {
        let _ = FieldWriter::<9, Repeated<PbBytes>>::new(self.tack.buffer).write(v);
    }

    fn yesno(&mut self, v: Option<bool>) {
        let _ = FieldWriter::<10, Optional<Bool>>::new(self.tack.buffer).write(v);
    }

    fn packed_enum(&mut self, v: &Vec<SimpleEnum>) {
        let ints: Vec<i32> = v.iter().map(|e| e.as_i32()).collect();
        let _ = FieldWriter::<11, Packed<Int32>>::new(self.tack.buffer).write(&ints);
    }

    fn close(self) {
        self.tack.close();
    }
}

struct MsgWithMaps;

struct MsgWithMapsWriter<'b> {
    tack: Tack<'b>,
}

impl MessageSchema for MsgWithMaps {
    type Writer<'a> = MsgWithMapsWriter<'a>;

    fn new_writer<'a>(buffer: &'a mut Vec<u8>, tag: Option<i32>) -> MsgWithMapsWriter<'a> {
        MsgWithMapsWriter { tack: Tack::new(buffer, tag.map(|t| t as u32)) }
    }
}

impl<'b> MsgWithMapsWriter<'b> {
    fn map1(&mut self, entries: &BTreeMap<&str, i32>) {
        let mut w = MapEntryWriter::<1, PbString, Int32>::new(self.tack.buffer);
        for (k, v) in entries {
            w.write(*k, *v);
        }
    }

    fn map2(&mut self, entries: &HashMap<i32, f64>) {
        let mut w = MapEntryWriter::<2, Int32, Double>::new(self.tack.buffer);
        for (k, v) in entries {
            w.write(*k, v.to_bits());
        }
    }

    fn close(self) {
        self.tack.close();
    }
}

struct MsgWithEnums;

struct MsgWithEnumsWriter<'b> {
    tack: Tack<'b>,
}

impl MessageSchema for MsgWithEnums {
    type Writer<'a> = MsgWithEnumsWriter<'a>;

    fn new_writer<'a>(buffer: &'a mut Vec<u8>, tag: Option<i32>) -> MsgWithEnumsWriter<'a> {
        MsgWithEnumsWriter { tack: Tack::new(buffer, tag.map(|t| t as u32)) }
    }
}

impl<'b> MsgWithEnumsWriter<'b> {
    fn from_tack(tack: Tack<'b>) -> Self {
        MsgWithEnumsWriter { tack }
    }

    fn enum1(&mut self, v: Option<SimpleEnum>) {
        let _ = FieldWriter::<1, Optional<Int32>>::new(self.tack.buffer)
            .write(v.map(|e| e.as_i32()));
    }

    fn enum2(&mut self, v: &Vec<AnotherEnum>) {
        let ints: Vec<i32> = v.iter().map(|e| e.as_i32()).collect();
        let _ = FieldWriter::<2, Repeated<Int32>>::new(self.tack.buffer).write(&ints);
    }

    fn close(self) {
        self.tack.close();
    }
}

struct MsgWithNesting;

struct MsgWithNestingWriter<'b> {
    tack: Tack<'b>,
}

impl MessageSchema for MsgWithNesting {
    type Writer<'a> = MsgWithNestingWriter<'a>;

    fn new_writer<'a>(buffer: &'a mut Vec<u8>, tag: Option<i32>) -> MsgWithNestingWriter<'a> {
        MsgWithNestingWriter { tack: Tack::new(buffer, tag.map(|t| t as u32)) }
    }
}

impl<'b> MsgWithNestingWriter<'b> {
    fn close(self) {
        self.tack.close();
    }
}

// ---------------------------------------------------------------------------
// The reference decoder: prost's varint reader plus plain field dispatch.
// ---------------------------------------------------------------------------

#[derive(Debug, PartialEq, Default)]
struct PSimpleMessage {
    normal_int: Option<i32>,
    zigzag_int: Option<i32>,
    fixed_int: Option<u32>,
    manynumbers: Vec<i32>,
    manynumbers_unpacked: Vec<i32>,
    astring: Option<String>,
    manystrings: Vec<String>,
    abytes: Option<Vec<u8>>,
    manybytes: Vec<Vec<u8>>,
    yesno: Option<bool>,
    packed_enum: Vec<i32>,
}

#[derive(Debug, PartialEq, Default)]
struct PMsgWithMaps {
    map1: HashMap<String, i32>,
    map2: HashMap<i32, f64>,
}

#[derive(Debug, PartialEq, Default)]
struct PMsgWithEnums {
    enum1: Option<i32>,
    enum2: Vec<i32>,
}

#[derive(Debug, PartialEq, Default)]
struct PMsgWithNesting {
    enums: Option<PMsgWithEnums>,
    nested: Vec<PSimpleMessage>,
}

fn unzig32(z: u32) -> i32 {
    ((z >> 1) as i32) ^ (-((z & 1) as i32))
}

fn read_region<'a>(buf: &mut &'a [u8]) -> &'a [u8] {
    let len = decode_varint(buf).unwrap() as usize;
    let (region, rest) = buf.split_at(len);
    *buf = rest;
    region
}

fn read_fixed32(buf: &mut &[u8]) -> u32 {
    let mut a = [0u8; 4];
    a.copy_from_slice(&buf[..4]);
    *buf = &buf[4..];
    u32::from_le_bytes(a)
}

fn read_fixed64(buf: &mut &[u8]) -> u64 {
    let mut a = [0u8; 8];
    a.copy_from_slice(&buf[..8]);
    *buf = &buf[8..];
    u64::from_le_bytes(a)
}

fn decode_simple_message(mut data: &[u8]) -> PSimpleMessage {
    let mut m = PSimpleMessage::default();
    let buf = &mut data;
    while !buf.is_empty() {
        let key = decode_varint(buf).unwrap();
        match (key >> 3) as u32 {
            1 => m.normal_int = Some(decode_varint(buf).unwrap() as i32),
            2 => m.zigzag_int = Some(unzig32(decode_varint(buf).unwrap() as u32)),
            3 => m.fixed_int = Some(read_fixed32(buf)),
            4 => {
                let mut region = read_region(buf);
                while !region.is_empty() {
                    m.manynumbers.push(decode_varint(&mut region).unwrap() as i32);
                }
            }
            5 => m.manynumbers_unpacked.push(decode_varint(buf).unwrap() as i32),
            6 => m.astring = Some(String::from_utf8(read_region(buf).to_vec()).unwrap()),
            7 => m.manystrings.push(String::from_utf8(read_region(buf).to_vec()).unwrap()),
            8 => m.abytes = Some(read_region(buf).to_vec()),
            9 => m.manybytes.push(read_region(buf).to_vec()),
            10 => m.yesno = Some(decode_varint(buf).unwrap() != 0),
            11 => {
                let mut region = read_region(buf);
                while !region.is_empty() {
                    m.packed_enum.push(decode_varint(&mut region).unwrap() as i32);
                }
            }
            other => panic!("unexpected field {other}"),
        }
    }
    m
}

fn decode_msg_with_maps(mut data: &[u8]) -> PMsgWithMaps {
    let mut m = PMsgWithMaps::default();
    let buf = &mut data;
    while !buf.is_empty() {
        let key = decode_varint(buf).unwrap();
        match (key >> 3) as u32 {
            1 => {
                let mut entry = read_region(buf);
                let eb = &mut entry;
                assert_eq!(decode_varint(eb).unwrap(), (1 << 3) | 2);
                let k = String::from_utf8(read_region(eb).to_vec()).unwrap();
                assert_eq!(decode_varint(eb).unwrap(), 2 << 3);
                let v = decode_varint(eb).unwrap() as i32;
                m.map1.insert(k, v);
            }
            2 => {
                let mut entry = read_region(buf);
                let eb = &mut entry;
                assert_eq!(decode_varint(eb).unwrap(), 1 << 3);
                let k = decode_varint(eb).unwrap() as i32;
                assert_eq!(decode_varint(eb).unwrap(), (2 << 3) | 1);
                let v = f64::from_bits(read_fixed64(eb));
                m.map2.insert(k, v);
            }
            other => panic!("unexpected field {other}"),
        }
    }
    m
}

fn decode_msg_with_enums(mut data: &[u8]) -> PMsgWithEnums {
    let mut m = PMsgWithEnums::default();
    let buf = &mut data;
    while !buf.is_empty() {
        let key = decode_varint(buf).unwrap();
        match (key >> 3) as u32 {
            1 => m.enum1 = Some(decode_varint(buf).unwrap() as i32),
            2 => m.enum2.push(decode_varint(buf).unwrap() as i32),
            other => panic!("unexpected field {other}"),
        }
    }
    m
}

fn decode_msg_with_nesting(mut data: &[u8]) -> PMsgWithNesting {
    let mut m = PMsgWithNesting::default();
    let buf = &mut data;
    while !buf.is_empty() {
        let key = decode_varint(buf).unwrap();
        match (key >> 3) as u32 {
            1 => m.enums = Some(decode_msg_with_enums(read_region(buf))),
            2 => m.nested.push(decode_simple_message(read_region(buf))),
            other => panic!("unexpected field {other}"),
        }
    }
    m
}

// ---------------------------------------------------------------------------
// Tests.
// ---------------------------------------------------------------------------

#[test]
fn test_simple_message() {
    // data
    let anumber = Some(42);
    let manynumbers = &[1, 2, 3];
    let astring = Some("Hello");
    let manystrings = vec!["many", "strings"];
    let abytes: Vec<u8> = Vec::new();
    let manybytes: Vec<[u8; 12]> = Vec::new();

    let tacky_packed = {
        let mut buf = Vec::new();
        let mut writer = SimpleMessage::new_writer(&mut buf, None);
        writer.normal_int(anumber);
        writer.zigzag_int(Some(24));
        writer.fixed_int(Some(12));
        writer.packed_enum(&vec![SimpleEnum::First, SimpleEnum::Second]);
        writer.manynumbers(&manynumbers.to_vec());
        writer.manynumbers_unpacked(&manynumbers.to_vec());
        writer.astring(astring);
        writer.manystrings(&manystrings);
        writer.abytes(Some(&abytes));
        writer.manybytes(&manybytes.iter().map(|a| a.as_slice()).collect());
        writer.yesno(Some(false));
        writer.close();
        buf
    };

    let prost_msg = PSimpleMessage {
        normal_int: anumber,
        zigzag_int: Some(24),
        fixed_int: Some(12),
        manynumbers: manynumbers.to_vec(),
        manynumbers_unpacked: manynumbers.to_vec(),
        astring: astring.map(|s| s.to_string()),
        manystrings: manystrings.into_iter().map(|s| s.to_string()).collect(),
        manybytes: manybytes.into_iter().map(|arr| arr.to_vec()).collect(),
        abytes: Some(abytes),
        yesno: Some(false),
        packed_enum: vec![SimpleEnum::First.as_i32(), SimpleEnum::Second.as_i32()],
    };

    let unpacked = decode_simple_message(&tacky_packed);
    // the reference decoder can decode what tacky encodes
    assert_eq!(unpacked, prost_msg);
}

#[test]
fn test_with_maps() {
    // data
    let map1: BTreeMap<&str, i32> = BTreeMap::from_iter([("one", 1), ("two", 2)]);
    let map2: HashMap<i32, f64> = HashMap::from_iter([(1, 1.0), (2, 2.0)]);
    let tacky_packed = {
        let mut buf = Vec::new();
        let mut writer = MsgWithMaps::new_writer(&mut buf, None);
        writer.map1(&map1);
        writer.map2(&map2);
        writer.close();
        buf
    };

    let prost_msg = PMsgWithMaps {
        map1: HashMap::from_iter(map1.into_iter().map(|(k, v)| (k.to_string(), v))),
        map2,
    };

    let unpacked = decode_msg_with_maps(&tacky_packed);
    // the reference decoder can decode what tacky encodes
    assert_eq!(unpacked, prost_msg);
}

#[test]
fn test_with_enums() {
    // data
    let tacky_packed = {
        let mut buf = Vec::new();
        let mut writer = MsgWithEnums::new_writer(&mut buf, None);
        writer.enum1(Some(SimpleEnum::First));
        writer.enum2(&vec![AnotherEnum::A, AnotherEnum::B]);
        writer.close();
        buf
    };

    let prost_msg = PMsgWithEnums {
        enum1: Some(SimpleEnum::First.as_i32()),
        enum2: vec![AnotherEnum::A.as_i32(), AnotherEnum::B.as_i32()],
    };

    let unpacked = decode_msg_with_enums(&tacky_packed);
    // the reference decoder can decode what tacky encodes
    assert_eq!(unpacked, prost_msg);
}

#[test]
fn test_with_nested() {
    let tacky_packed = {
        let mut buf = Vec::new();
        let writer = MsgWithNesting::new_writer(&mut buf, None);
        {
            let fw = FieldWriter::<1, Optional<MsgWithEnums>>::new(writer.tack.buffer);
            let _ = fw.write_msg(|t| {
                let mut m = MsgWithEnumsWriter::from_tack(t);
                m.enum1(Some(SimpleEnum::First));
                m.enum2(&vec![AnotherEnum::A, AnotherEnum::B]);
                m.close();
            });
        }
        {
            let mut fw = FieldWriter::<2, Repeated<SimpleMessage>>::new(writer.tack.buffer);
            for i in 0..10 {
                fw.append_msg_with(|t| {
                    let mut n = SimpleMessageWriter::from_tack(t);
                    n.normal_int(Some(i));
                    n.zigzag_int(Some(i + 1));
                    n.fixed_int(Some((i + 3) as u32));
                    n.manynumbers(&vec![i as i32]);
                    n.manynumbers_unpacked(&vec![i as i32]);
                    n.astring(None);
                    n.manystrings(&vec!["hello"]);
                    n.abytes(None);
                    n.packed_enum(&vec![SimpleEnum::First, SimpleEnum::Second]);
                    n.manybytes(&Vec::new());
                    n.yesno(Some(false));
                    n.close();
                });
            }
            let _ = fw.close();
        }
        writer.close();
        buf
    };

    let prost_msg = PMsgWithNesting {
        enums: Some(PMsgWithEnums {
            enum1: Some(SimpleEnum::First.as_i32()),
            enum2: vec![AnotherEnum::A.as_i32(), AnotherEnum::B.as_i32()],
        }),
        nested: {
            let mut v = Vec::new();
            for i in 0..10 {
                v.push(PSimpleMessage {
                    normal_int: Some(i),
                    zigzag_int: Some(i + 1),
                    fixed_int: Some((i + 3) as u32),
                    manynumbers: vec![i as i32],
                    manynumbers_unpacked: vec![i as i32],
                    astring: None,
                    manystrings: vec!["hello".into()],
                    abytes: None,
                    packed_enum: vec![SimpleEnum::First.as_i32(), SimpleEnum::Second.as_i32()],
                    manybytes: vec![],
                    yesno: Some(false),
                })
            }
            v
        },
    };

    let unpacked = decode_msg_with_nesting(&tacky_packed);
    // the reference decoder can decode what tacky encodes
    assert_eq!(unpacked, prost_msg);
}

#[test]
fn required_message_keeps_empty_value() {
    // A required embedded message that ends up empty keeps its tag and a
    // backpatched zero length; explicit presence never erases it.
    let mut buf = Vec::new();
    let fw = FieldWriter::<1, Required<MsgWithEnums>>::new(&mut buf);
    let _ = fw.write_with(|t| {
        let m = MsgWithEnumsWriter::from_tack(t);
        m.close();
    });
    assert_eq!(buf, vec![0x0A, 0x80, 0x80, 0x80, 0x00]);
    buf.clear();
    let fw = FieldWriter::<1, Required<MsgWithEnums>>::new(&mut buf);
    let _ = fw.write_with(|t| {
        let mut m = MsgWithEnumsWriter::from_tack(t);
        m.enum1(Some(SimpleEnum::Second));
        m.close();
    });
    assert_eq!(buf, vec![0x0A, 0x82, 0x80, 0x80, 0x00, 0x08, 0x02]);
}

#[test]
fn optional_message_empty_closure_writes_nothing() {
    // An optional embedded message whose closure writes no content is
    // omitted entirely: the guard rewinds tag and placeholder away.
    let mut buf = Vec::new();
    let fw = FieldWriter::<1, Optional<MsgWithEnums>>::new(&mut buf);
    let _ = fw.write_msg(|t| {
        let m = MsgWithEnumsWriter::from_tack(t);
        m.close();
    });
    assert_eq!(buf, Vec::<u8>::new());
}
