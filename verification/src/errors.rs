//! The errors of this crate.

use crate::text::{decimal, hex_upper, push_decimal, push_hex_upper, push_str};
use vstd::prelude::*;

verus! {

/// Why decoding or encoding failed.
#[derive(Debug, Clone, Copy, PartialEq, Eq, Structural)]
pub enum Error {
    /// A read went past the end of the data.
    UnexpectedEof,
    /// A resources chunk announces more bytes than its buffer holds.
    ResourcesCountOutOfBounds { buffer_len: u32, count: u32 },
    /// A type-spec flag index at or past the amount of flags.
    InvalidFlag { index: u32, amount: u32 },
    /// A string index past the strings of a string table.
    StringIndexOutOfBounds,
    /// The bytes of a string lie outside its string table.
    StringSliceOutOfRange,
    /// The bytes of a string are not valid UTF-8.
    InvalidUtf8,
    /// The bytes of a string are not valid UTF-16.
    InvalidUtf16,
    /// The name of a package lies past the end of its chunk.
    PackageNameOutOfBounds,
    /// A package name longer than 256 bytes.
    PackageNameTooLong,
    /// An attribute index past the attributes of a tag.
    AttributeOutOfBounds,
    /// The configuration of a table type does not fit between its header and its data.
    InvalidConfigurationSlice,
    /// A configuration field that its announced size does not hold.
    ConfigurationFieldMissing,
    /// An entry index or id that is not there.
    EntryNotFound,
    /// An entry index past the entries of an owned table type.
    EntryOutOfBounds,
    /// A string index past the strings of an owned string table.
    MissingString,
    /// A resource id that names no entry of a package.
    UnknownEntry,
    /// A package without the string table of the names of its entries.
    NoEntriesStringTable,
    /// A package without the string table of the names of its types.
    NoSpecStringTable,
    /// A type-spec flag index past the flags.
    FlagOutOfBounds,
    /// A simple entry was asked of an entry that is not simple.
    NotSimpleEntry,
    /// A complex entry was asked of an entry that is not complex.
    NotComplexEntry,
    /// A value whose unit index is not in the table of units of its type.
    InvalidUnitIndex { index: u32 },
    /// A `resources.arsc` file that does not start with its token.
    NotArscFile { token: u16 },
    /// A binary XML document that does not start with its token.
    NotXmlDocument { token: u16 },
    /// A reference to a package that was not loaded.
    PackageNotFound,
    /// A reference to a type spec that was not loaded, or whose name is missing.
    SpecNotFound,
    /// A reference that names no entry.
    ReferenceNotResolved,
    /// A document without a string table.
    NoStringTable,
    /// A tag that starts before the string table of its document.
    NoMainStringTable,
    /// A document without a root element.
    NoRootElement,
    /// An attribute namespace that was not declared.
    NamespaceNotFound,
}

impl Error {
    /// The text of the error.
    pub open spec fn spec_message(self) -> Seq<char> {
        match self {
            Error::UnexpectedEof => "unexpected end of data"@,
            Error::ResourcesCountOutOfBounds { buffer_len, count } => "there is not enough data on the buffer ("@
                + decimal(buffer_len as nat) + ") to read the reported resources count ("@ + decimal(
                count as nat,
            ) + ")"@,
            Error::InvalidFlag { index, amount } => "Invalid flag on index "@ + decimal(index as nat)
                + " out of "@ + decimal(amount as nat),
            Error::StringIndexOutOfBounds => "index out of bounds"@,
            Error::StringSliceOutOfRange => "sub-slice out of raw_data range"@,
            Error::InvalidUtf8 => "error decoding UTF8 string"@,
            Error::InvalidUtf16 => "error decoding UTF16 string"@,
            Error::PackageNameOutOfBounds => "cursor position out of bounds"@,
            Error::PackageNameTooLong => "Can not create a package with a length greater than 256"@,
            Error::AttributeOutOfBounds => "requested attribute out of bounds"@,
            Error::InvalidConfigurationSlice => "configuration slice is not valid"@,
            Error::ConfigurationFieldMissing => "not enough bytes to retrieve the field"@,
            Error::EntryNotFound => "entry not found"@,
            Error::EntryOutOfBounds => "entry out of bound"@,
            Error::MissingString => "String not found"@,
            Error::UnknownEntry => "could not find entry"@,
            Error::NoEntriesStringTable => "string not found on entries string table"@,
            Error::NoSpecStringTable => "string not found on spec string table"@,
            Error::FlagOutOfBounds => "flag out of bounds"@,
            Error::NotSimpleEntry => "asked for a complex entry on a simple one"@,
            Error::NotComplexEntry => "asked for a simple entry on a complex one"@,
            Error::InvalidUnitIndex { index } => "expected a valid unit index, got: "@ + decimal(
                index as nat,
            ),
            Error::NotArscFile { token } => "file does not start with ARSC token: "@ + hex_upper(
                token as nat,
            ),
            Error::NotXmlDocument { token } => "document does not start with XML token: "@
                + hex_upper(token as nat),
            Error::PackageNotFound => "Package not found"@,
            Error::SpecNotFound => "could not retrieve spec as string"@,
            Error::ReferenceNotResolved => "Error resolving reference"@,
            Error::NoStringTable => "No string table found"@,
            Error::NoMainStringTable => "No main string table found!"@,
            Error::NoRootElement => "No root on target XML"@,
            Error::NamespaceNotFound => "Namespace not found"@,
        }
    }

    /// The text of the error.
    pub fn message(&self) -> (r: String)
        ensures
            r@ == self.spec_message(),
    {
        let mut s = String::new();
        match *self {
            Error::UnexpectedEof => push_str(&mut s, "unexpected end of data"),
            Error::ResourcesCountOutOfBounds { buffer_len, count } => {
                push_str(&mut s, "there is not enough data on the buffer (");
                push_decimal(&mut s, buffer_len as u64);
                push_str(&mut s, ") to read the reported resources count (");
                push_decimal(&mut s, count as u64);
                push_str(&mut s, ")");
            },
            Error::InvalidFlag { index, amount } => {
                push_str(&mut s, "Invalid flag on index ");
                push_decimal(&mut s, index as u64);
                push_str(&mut s, " out of ");
                push_decimal(&mut s, amount as u64);
            },
            Error::StringIndexOutOfBounds => push_str(&mut s, "index out of bounds"),
            Error::StringSliceOutOfRange => push_str(&mut s, "sub-slice out of raw_data range"),
            Error::InvalidUtf8 => push_str(&mut s, "error decoding UTF8 string"),
            Error::InvalidUtf16 => push_str(&mut s, "error decoding UTF16 string"),
            Error::PackageNameOutOfBounds => push_str(&mut s, "cursor position out of bounds"),
            Error::PackageNameTooLong => push_str(
                &mut s,
                "Can not create a package with a length greater than 256",
            ),
            Error::AttributeOutOfBounds => push_str(&mut s, "requested attribute out of bounds"),
            Error::InvalidConfigurationSlice => push_str(&mut s, "configuration slice is not valid"),
            Error::ConfigurationFieldMissing => push_str(
                &mut s,
                "not enough bytes to retrieve the field",
            ),
            Error::EntryNotFound => push_str(&mut s, "entry not found"),
            Error::EntryOutOfBounds => push_str(&mut s, "entry out of bound"),
            Error::MissingString => push_str(&mut s, "String not found"),
            Error::UnknownEntry => push_str(&mut s, "could not find entry"),
            Error::NoEntriesStringTable => push_str(
                &mut s,
                "string not found on entries string table",
            ),
            Error::NoSpecStringTable => push_str(&mut s, "string not found on spec string table"),
            Error::FlagOutOfBounds => push_str(&mut s, "flag out of bounds"),
            Error::NotSimpleEntry => push_str(&mut s, "asked for a complex entry on a simple one"),
            Error::NotComplexEntry => push_str(&mut s, "asked for a simple entry on a complex one"),
            Error::InvalidUnitIndex { index } => {
                push_str(&mut s, "expected a valid unit index, got: ");
                push_decimal(&mut s, index as u64);
            },
            Error::NotArscFile { token } => {
                push_str(&mut s, "file does not start with ARSC token: ");
                push_hex_upper(&mut s, token as u64);
            },
            Error::NotXmlDocument { token } => {
                push_str(&mut s, "document does not start with XML token: ");
                push_hex_upper(&mut s, token as u64);
            },
            Error::PackageNotFound => push_str(&mut s, "Package not found"),
            Error::SpecNotFound => push_str(&mut s, "could not retrieve spec as string"),
            Error::ReferenceNotResolved => push_str(&mut s, "Error resolving reference"),
            Error::NoStringTable => push_str(&mut s, "No string table found"),
            Error::NoMainStringTable => push_str(&mut s, "No main string table found!"),
            Error::NoRootElement => push_str(&mut s, "No root on target XML"),
            Error::NamespaceNotFound => push_str(&mut s, "Namespace not found"),
        }
        s
    }
}

} // verus!
