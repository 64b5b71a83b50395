//! Tests of the schema vocabulary: spellings, wire types and the
//! packability and map-key rules.

use tacky::schema::{Field, Label, PbType, Scalar};

#[test]
fn scalar_tables() {
    assert_eq!(Scalar::Int32.as_str(), "int32");
    assert_eq!(Scalar::Sint64.as_str(), "sint64");
    assert_eq!(Scalar::Bytes.tacky_type(), "PbBytes");
    assert_eq!(Scalar::Float.tacky_type(), "Float");
    assert_eq!(Scalar::Int32.wire_type(), 0);
    assert_eq!(Scalar::Fixed32.wire_type(), 5);
    assert_eq!(Scalar::Double.wire_type(), 1);
    assert_eq!(Scalar::String.wire_type(), 2);
    assert!(Scalar::Uint32.is_packable());
    assert!(!Scalar::Bytes.is_packable());
    assert!(Scalar::String.is_map_key());
    assert!(!Scalar::Bytes.is_map_key());
    assert!(!Scalar::Double.is_map_key());
}

#[test]
fn field_type_facts() {
    let t = PbType::Scalar(Scalar::Sint32);
    assert!(t.is_primitive());
    assert_eq!(t.proto_type(), "sint32");
    assert_eq!(t.tag(3), 3 << 3);
    let m = PbType::Message("Thing".to_string());
    assert!(!m.is_primitive());
    assert_eq!(m.proto_type(), "message");
    assert_eq!(m.tag(1), 0x0A);
    let mp = PbType::SimpleMap(Scalar::Int32, Scalar::String);
    assert_eq!(mp.proto_type(), "map");
    assert_eq!(mp.wire_type(), 2);
    let e = PbType::Enum(("Kind".to_string(), vec![0, 1]));
    assert_eq!(e.proto_type(), "enum");
    assert_eq!(e.wire_type(), 0);
    let f = Field {
        name: "kind".to_string(),
        number: 4,
        ty: e,
        label: Label::Plain,
    };
    assert_eq!(f.ty.tag(f.number as u32), 4 << 3);
}
