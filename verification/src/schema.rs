//! The resolved-schema vocabulary that a code generator consumes: scalar
//! kinds, field types, cardinality labels and field descriptors. The
//! encoder trusts these as already validated; the functions here only map
//! each type to its wire-format facts and its spelling.

use vstd::prelude::*;

use crate::wire::{tag_val, valid_field_nr};

verus! {

/// One primitive protobuf type.
#[derive(Debug, Clone, PartialEq, Eq)]
pub enum Scalar {
    Int32,
    Sint32,
    Int64,
    Sint64,
    Uint32,
    Uint64,
    Bool,
    Fixed32,
    Sfixed32,
    Float,
    Fixed64,
    Sfixed64,
    Double,
    String,
    Bytes,
}

impl Scalar {
    /// The type's spelling in the protobuf language.
    pub open spec fn spec_proto_name(self) -> Seq<char> {
        match self {
            Scalar::Int32 => "int32"@,
            Scalar::Sint32 => "sint32"@,
            Scalar::Int64 => "int64"@,
            Scalar::Sint64 => "sint64"@,
            Scalar::Uint32 => "uint32"@,
            Scalar::Uint64 => "uint64"@,
            Scalar::Bool => "bool"@,
            Scalar::Fixed32 => "fixed32"@,
            Scalar::Sfixed32 => "sfixed32"@,
            Scalar::Float => "float"@,
            Scalar::Fixed64 => "fixed64"@,
            Scalar::Sfixed64 => "sfixed64"@,
            Scalar::Double => "double"@,
            Scalar::String => "string"@,
            Scalar::Bytes => "bytes"@,
        }
    }

    /// The marker type's name in this library.
    pub open spec fn spec_marker_name(self) -> Seq<char> {
        match self {
            Scalar::Int32 => "Int32"@,
            Scalar::Sint32 => "Sint32"@,
            Scalar::Int64 => "Int64"@,
            Scalar::Sint64 => "Sint64"@,
            Scalar::Uint32 => "Uint32"@,
            Scalar::Uint64 => "Uint64"@,
            Scalar::Bool => "Bool"@,
            Scalar::Fixed32 => "Fixed32"@,
            Scalar::Sfixed32 => "Sfixed32"@,
            Scalar::Float => "Float"@,
            Scalar::Fixed64 => "Fixed64"@,
            Scalar::Sfixed64 => "Sfixed64"@,
            Scalar::Double => "Double"@,
            Scalar::String => "PbString"@,
            Scalar::Bytes => "PbBytes"@,
        }
    }

    /// The wire-type discriminant framing values of this type.
    pub open spec fn spec_wire_type(self) -> u32 {
        match self {
            Scalar::Int32 | Scalar::Sint32 | Scalar::Int64 | Scalar::Sint64 | Scalar::Uint32
                | Scalar::Uint64 | Scalar::Bool => 0,
            Scalar::Fixed32 | Scalar::Sfixed32 | Scalar::Float => 5,
            Scalar::Fixed64 | Scalar::Sfixed64 | Scalar::Double => 1,
            Scalar::String | Scalar::Bytes => 2,
        }
    }

    /// The type's spelling in the protobuf language.
    pub fn as_str(&self) -> (r: &str)
        ensures
            r@ == self.spec_proto_name(),
    {
        match self {
            Scalar::Int32 => "int32",
            Scalar::Sint32 => "sint32",
            Scalar::Int64 => "int64",
            Scalar::Sint64 => "sint64",
            Scalar::Uint32 => "uint32",
            Scalar::Uint64 => "uint64",
            Scalar::Bool => "bool",
            Scalar::Fixed32 => "fixed32",
            Scalar::Sfixed32 => "sfixed32",
            Scalar::Float => "float",
            Scalar::Fixed64 => "fixed64",
            Scalar::Sfixed64 => "sfixed64",
            Scalar::Double => "double",
            Scalar::String => "string",
            Scalar::Bytes => "bytes",
        }
    }

    /// The name of this library's marker type for the scalar, which the
    /// generated writer code names in its signatures.
    pub fn tacky_type(&self) -> (r: &str)
        ensures
            r@ == self.spec_marker_name(),
    {
        match self {
            Scalar::Int32 => "Int32",
            Scalar::Sint32 => "Sint32",
            Scalar::Int64 => "Int64",
            Scalar::Sint64 => "Sint64",
            Scalar::Uint32 => "Uint32",
            Scalar::Uint64 => "Uint64",
            Scalar::Bool => "Bool",
            Scalar::Fixed32 => "Fixed32",
            Scalar::Sfixed32 => "Sfixed32",
            Scalar::Float => "Float",
            Scalar::Fixed64 => "Fixed64",
            Scalar::Sfixed64 => "Sfixed64",
            Scalar::Double => "Double",
            Scalar::String => "PbString",
            Scalar::Bytes => "PbBytes",
        }
    }

    /// The wire-type discriminant: 0 for varints, 1 and 5 for the fixed
    /// widths, 2 for length-delimited values.
    pub fn wire_type(&self) -> (w: u32)
        ensures
            w == self.spec_wire_type(),
    {
        match self {
            Scalar::Int32
            | Scalar::Sint32
            | Scalar::Int64
            | Scalar::Sint64
            | Scalar::Uint32
            | Scalar::Uint64
            | Scalar::Bool => 0,
            Scalar::Fixed32 | Scalar::Sfixed32 | Scalar::Float => 5,
            Scalar::Fixed64 | Scalar::Sfixed64 | Scalar::Double => 1,
            Scalar::String | Scalar::Bytes => 2,
        }
    }

    /// Whether the wire format allows this type in a packed run: numeric
    /// and bool, never strings or bytes.
    pub fn is_packable(&self) -> (r: bool)
        ensures
            r == (self.spec_wire_type() != 2),
    {
        self.wire_type() != 2
    }

    /// Whether the wire format allows this type as a map key: the integer
    /// types, bool and string; never bytes or floating point.
    pub fn is_map_key(&self) -> (r: bool)
        ensures
            r == !(self is Bytes || self is Float || self is Double),
    {
        !(matches!(self, Scalar::Bytes | Scalar::Float | Scalar::Double))
    }
}

/// A resolved field type: a scalar, an enum with its name and its allowed
/// values, an embedded message named by its type, or a map.
#[derive(Debug)]
pub enum PbType {
    Scalar(Scalar),
    /// name and allowed values
    Enum((String, Vec<i32>)),
    /// name
    Message(String),
    SimpleMap(Scalar, Scalar),
    ComplexMap(Scalar, Box<PbType>),
}

impl PbType {
    /// The wire-type discriminant framing values of this type.
    pub open spec fn spec_wire_type(self) -> u32 {
        match self {
            PbType::Scalar(s) => s.spec_wire_type(),
            PbType::Enum(_) => 0,
            PbType::Message(_) | PbType::ComplexMap(_, _) | PbType::SimpleMap(_, _) => 2,
        }
    }

    /// The wire-type discriminant: enums travel as varints; messages and
    /// maps are length-delimited.
    pub fn wire_type(&self) -> (w: u32)
        ensures
            w == self.spec_wire_type(),
    {
        match self {
            PbType::Scalar(s) => s.wire_type(),
            PbType::Enum(_) => 0,
            PbType::Message(_) | PbType::ComplexMap(_, _) | PbType::SimpleMap(_, _) => 2,
        }
    }

    /// Whether the type is primitive on the wire: numeric, bool or enum
    /// values stand alone, while strings, bytes, messages and maps are
    /// length-delimited compounds. Only primitive types may be packed.
    pub fn is_primitive(&self) -> (r: bool)
        ensures
            r == (self.spec_wire_type() != 2),
    {
        self.wire_type() != 2
    }

    /// The type's spelling in the protobuf language; compound types are
    /// named by their kind.
    pub fn proto_type(&self) -> (r: &str)
        ensures
            r@ == self.spec_proto_type(),
    {
        match self {
            PbType::Scalar(s) => s.as_str(),
            PbType::Enum(_) => "enum",
            PbType::Message(_) => "message",
            PbType::SimpleMap(_, _) | PbType::ComplexMap(_, _) => "map",
        }
    }

    /// The spelling `proto_type` returns.
    pub open spec fn spec_proto_type(self) -> Seq<char> {
        match self {
            PbType::Scalar(s) => s.spec_proto_name(),
            PbType::Enum(_) => "enum"@,
            PbType::Message(_) => "message"@,
            PbType::SimpleMap(_, _) | PbType::ComplexMap(_, _) => "map"@,
        }
    }

    /// The tag that precedes a field of this type under `number`.
    pub fn tag(&self, number: u32) -> (t: u32)
        requires
            valid_field_nr(number as int),
        ensures
            t == tag_val(number as u64, self.spec_wire_type() as u64),
    {
        number * 8 + self.wire_type()
    }
}

/// The presence and repetition discipline of one field.
#[derive(Debug, Clone, PartialEq, Eq)]
pub enum Label {
    /// proto2 required fields, not applicable to proto3
    Required,
    /// proto2 and proto3 fields with the "optional" label
    Optional,
    /// "repeated" fields in both proto2 and proto3
    Repeated,
    /// packable fields with packed = true in proto2, or by default in proto3
    Packed,
    /// a field with no label in proto3, omitted when equal to its default
    Plain,
}

/// A resolved field descriptor, as the schema compiler hands it to the
/// generator: name, number, type and cardinality, trusted as already
/// validated.
#[derive(Debug)]
pub struct Field {
    pub name: String,
    pub number: i32,
    pub ty: PbType,
    pub label: Label,
}

} // verus!
