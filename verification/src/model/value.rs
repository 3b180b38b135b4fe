//! Typed values: a type byte and a 32-bit payload, interpreted by the type.

use crate::errors::Error;
use crate::text::{decimal, hex, hex8, push_decimal, push_hex, push_hex8, push_str};
use vstd::prelude::*;

verus! {

pub const TOKEN_TYPE_REFERENCE_ID: u8 = 0x01;

pub const TOKEN_TYPE_ATTRIBUTE_REFERENCE_ID: u8 = 0x02;

pub const TOKEN_TYPE_STRING: u8 = 0x03;

pub const TOKEN_TYPE_FLOAT: u8 = 0x04;

pub const TOKEN_TYPE_DIMENSION: u8 = 0x05;

pub const TOKEN_TYPE_FRACTION: u8 = 0x06;

pub const TOKEN_TYPE_DYN_REFERENCE: u8 = 0x07;

pub const TOKEN_TYPE_DYN_ATTRIBUTE: u8 = 0x08;

pub const TOKEN_TYPE_INTEGER: u8 = 0x10;

pub const TOKEN_TYPE_FLAGS: u8 = 0x11;

pub const TOKEN_TYPE_BOOLEAN: u8 = 0x12;

pub const TOKEN_TYPE_ARGB8: u8 = 0x1C;

pub const TOKEN_TYPE_RGB8: u8 = 0x1D;

pub const TOKEN_TYPE_ARGB4: u8 = 0x1E;

pub const TOKEN_TYPE_RGB4: u8 = 0x1F;

/// Represents a value on the binary documents. It is formed by a type and a 32 bits
/// payload. The payloads are interpreted depending on the type.
///
/// The payloads of dimensions, fractions and floats are kept as their raw bits: their
/// decimal rendering is computed in floating point, outside this crate.
#[derive(Debug)]
pub enum Value {
    /// Represents an index on a `StringTable`
    StringReference(u32),
    /// Represents a dimension. Bits [31..8] represents the numeric value. Bits [7..4] is
    /// an index on a lookup table that modified the numeric value. Bits [3..0] is an index
    /// on a dimensions lookup table, and is below 6.
    Dimension(u32),
    /// Represents a fraction. Bits [31..8] represents the numeric value. Bits [3..0] is
    /// an index on a units lookup table, and is below 2.
    Fraction(u32),
    /// Represents a float value, by its IEEE 754 bits
    Float(u32),
    /// Represents an integer value
    Integer(u32),
    /// Integer value that should be interpreted as a bit flag array
    Flags(u32),
    /// Represents a boolean value
    Boolean(bool),
    /// Represents a ARGB8 color
    ColorARGB8(String),
    /// Represents a RGB8 color
    ColorRGB8(String),
    /// Represents a ARGB4 color
    ColorARGB4(String),
    /// Represents a RGB4 color
    ColorRGB4(String),
    /// Represents a reference to an `Entry`
    ReferenceId(u32),
    /// Represents a reference to an `Entry` on attribute context
    AttributeReferenceId(u32),
    /// Unknown value. It saves the type and the payload in case that needs to be checked
    Unknown(u8, u32),
}

impl Clone for Value {
    fn clone(&self) -> (r: Self)
        ensures
            r == *self,
    {
        match self {
            Value::StringReference(v) => Value::StringReference(*v),
            Value::Dimension(v) => Value::Dimension(*v),
            Value::Fraction(v) => Value::Fraction(*v),
            Value::Float(v) => Value::Float(*v),
            Value::Integer(v) => Value::Integer(*v),
            Value::Flags(v) => Value::Flags(*v),
            Value::Boolean(v) => Value::Boolean(*v),
            Value::ColorARGB8(s) => Value::ColorARGB8(s.clone()),
            Value::ColorRGB8(s) => Value::ColorRGB8(s.clone()),
            Value::ColorARGB4(s) => Value::ColorARGB4(s.clone()),
            Value::ColorRGB4(s) => Value::ColorRGB4(s.clone()),
            Value::ReferenceId(v) => Value::ReferenceId(*v),
            Value::AttributeReferenceId(v) => Value::AttributeReferenceId(*v),
            Value::Unknown(t, v) => Value::Unknown(*t, *v),
        }
    }
}

/// The rendering of a color payload: `#` and eight hexadecimal digits.
pub open spec fn color_text(data: u32) -> Seq<char> {
    "#"@ + hex8(data)
}

/// Whether `v` is the value that the type byte `value_type` and the payload `data`
/// stand for. Dimensions and fractions need a unit index inside their table of units
/// (six units, two units).
pub open spec fn is_value_of(v: Value, value_type: u8, data: u32) -> bool {
    if value_type == TOKEN_TYPE_REFERENCE_ID || value_type == TOKEN_TYPE_DYN_REFERENCE {
        v == Value::ReferenceId(data)
    } else if value_type == TOKEN_TYPE_ATTRIBUTE_REFERENCE_ID || value_type
        == TOKEN_TYPE_DYN_ATTRIBUTE {
        v == Value::AttributeReferenceId(data)
    } else if value_type == TOKEN_TYPE_STRING {
        v == Value::StringReference(data)
    } else if value_type == TOKEN_TYPE_DIMENSION {
        v == Value::Dimension(data)
    } else if value_type == TOKEN_TYPE_FRACTION {
        v == Value::Fraction(data)
    } else if value_type == TOKEN_TYPE_INTEGER {
        v == Value::Integer(data)
    } else if value_type == TOKEN_TYPE_FLAGS {
        v == Value::Flags(data)
    } else if value_type == TOKEN_TYPE_FLOAT {
        v == Value::Float(data)
    } else if value_type == TOKEN_TYPE_BOOLEAN {
        v == Value::Boolean(data > 0)
    } else if value_type == TOKEN_TYPE_ARGB8 {
        v matches Value::ColorARGB8(s) && s@ == color_text(data)
    } else if value_type == TOKEN_TYPE_RGB8 {
        v matches Value::ColorRGB8(s) && s@ == color_text(data)
    } else if value_type == TOKEN_TYPE_ARGB4 {
        v matches Value::ColorARGB4(s) && s@ == color_text(data)
    } else if value_type == TOKEN_TYPE_RGB4 {
        v matches Value::ColorRGB4(s) && s@ == color_text(data)
    } else {
        v == Value::Unknown(value_type, data)
    }
}

/// Whether the payload of a value of type `value_type` cannot be interpreted: a dimension
/// or a fraction whose unit index is outside its table of units.
pub open spec fn has_invalid_unit(value_type: u8, data: u32) -> bool {
    (value_type == TOKEN_TYPE_DIMENSION && data % 16 >= 6) || (value_type == TOKEN_TYPE_FRACTION
        && data % 16 >= 2)
}

/// The rendering of a value whose rendering needs no floating point.
pub open spec fn value_text(v: Value) -> Option<Seq<char>> {
    match v {
        Value::StringReference(i) => Some("@string/"@ + decimal(i as nat)),
        Value::ColorARGB8(s) => Some(s@),
        Value::ColorRGB8(s) => Some(s@),
        Value::ColorARGB4(s) => Some(s@),
        Value::ColorRGB4(s) => Some(s@),
        Value::Integer(i) => Some(decimal(i as nat)),
        Value::Flags(i) => Some(decimal(i as nat)),
        Value::Boolean(b) => Some(
            if b {
                "true"@
            } else {
                "false"@
            },
        ),
        Value::ReferenceId(i) => Some("@id/0x"@ + hex(i as nat)),
        Value::AttributeReferenceId(i) => Some("@id/0x"@ + hex(i as nat)),
        Value::Unknown(_, _) => Some("Unknown"@),
        _ => None,
    }
}

fn color(data: u32) -> (r: String)
    ensures
        r@ == color_text(data),
{
    let mut s = String::new();
    push_str(&mut s, "#");
    push_hex8(&mut s, data);
    s
}

impl Value {
    /// Creates a new `Value`. If the payload can not be interpreted by the given
    /// `value_type`, it will return an error. If the type is not know, it will return
    /// `Value::Unknown`.
    pub fn new(value_type: u8, data: u32) -> (r: Result<Self, Error>)
        ensures
            has_invalid_unit(value_type, data) ==> r == Err::<Value, Error>(
                Error::InvalidUnitIndex { index: data % 16 },
            ),
            !has_invalid_unit(value_type, data) ==> (r matches Ok(v) && is_value_of(
                v,
                value_type,
                data,
            )),
    {
        let value = match value_type {
            TOKEN_TYPE_REFERENCE_ID | TOKEN_TYPE_DYN_REFERENCE => Value::ReferenceId(data),
            TOKEN_TYPE_ATTRIBUTE_REFERENCE_ID | TOKEN_TYPE_DYN_ATTRIBUTE => {
                Value::AttributeReferenceId(data)
            },
            TOKEN_TYPE_STRING => Value::StringReference(data),
            TOKEN_TYPE_DIMENSION => {
                let unit_idx = data & 0xF;
                assert(data & 0xF == data % 16) by (bit_vector);
                if unit_idx < 6 {
                    Value::Dimension(data)
                } else {
                    return Err(Error::InvalidUnitIndex { index: unit_idx });
                }
            },
            TOKEN_TYPE_FRACTION => {
                let unit_idx = data & 0xF;
                assert(data & 0xF == data % 16) by (bit_vector);
                if unit_idx < 2 {
                    Value::Fraction(data)
                } else {
                    return Err(Error::InvalidUnitIndex { index: unit_idx });
                }
            },
            TOKEN_TYPE_INTEGER => Value::Integer(data),
            TOKEN_TYPE_FLAGS => Value::Flags(data),
            TOKEN_TYPE_FLOAT => Value::Float(data),
            TOKEN_TYPE_BOOLEAN => Value::Boolean(data > 0),
            TOKEN_TYPE_ARGB8 => Value::ColorARGB8(color(data)),
            TOKEN_TYPE_RGB8 => Value::ColorRGB8(color(data)),
            TOKEN_TYPE_ARGB4 => Value::ColorARGB4(color(data)),
            TOKEN_TYPE_RGB4 => Value::ColorRGB4(color(data)),
            _ => Value::Unknown(value_type, data),
        };
        Ok(value)
    }

    /// Renders the value, when its rendering needs no floating point: `None` for
    /// dimensions, fractions and floats.
    pub fn to_string(&self) -> (r: Option<String>)
        ensures
            r matches Some(s) ==> value_text(*self) == Some(s@),
            r is None ==> value_text(*self) is None,
    {
        let mut s = String::new();
        match self {
            Value::StringReference(i) => {
                push_str(&mut s, "@string/");
                push_decimal(&mut s, *i as u64);
            },
            Value::ColorARGB8(c) | Value::ColorRGB8(c) | Value::ColorARGB4(c) | Value::ColorRGB4(
                c,
            ) => {
                push_str(&mut s, c.as_str());
            },
            Value::Integer(i) | Value::Flags(i) => {
                push_decimal(&mut s, *i as u64);
            },
            Value::Boolean(b) => {
                if *b {
                    push_str(&mut s, "true");
                } else {
                    push_str(&mut s, "false");
                }
            },
            Value::ReferenceId(i) | Value::AttributeReferenceId(i) => {
                push_str(&mut s, "@id/0x");
                push_hex(&mut s, *i as u64);
            },
            Value::Unknown(_, _) => {
                push_str(&mut s, "Unknown");
            },
            _ => {
                return None;
            },
        }
        Some(s)
    }
}

} // verus!
