//! Representations of logical structures found on android binary files.

use crate::errors::Error;
use crate::model::owned::EntryView;
use vstd::prelude::*;

pub mod builder;
pub mod element;
pub mod owned;
pub mod value;
pub mod walk;

pub use self::element::{AttributeValue, Element, ElementContainer, Tag};
pub use self::value::Value;

verus! {

/// The package byte of a resource id; a package byte of 0 stands for package 1.
pub open spec fn package_of(id: u32) -> u8 {
    if id / 0x0100_0000 == 0 {
        1
    } else {
        (id / 0x0100_0000) as u8
    }
}

/// The type-spec byte of a resource id.
pub open spec fn spec_of(id: u32) -> u8 {
    ((id / 0x1_0000) % 0x100) as u8
}

/// The entry half of a resource id.
pub open spec fn entry_of(id: u32) -> u16 {
    (id % 0x1_0000) as u16
}

/// The parts of a resource id `0xPPTTEEEE`: package, type spec and entry.
pub trait Identifier {
    spec fn spec_package(&self) -> u8;

    spec fn spec_spec(&self) -> u8;

    spec fn spec_id(&self) -> u16;

    fn package(&self) -> (r: u8)
        ensures
            r == self.spec_package(),
    ;

    fn spec(&self) -> (r: u8)
        ensures
            r == self.spec_spec(),
    ;

    fn id(&self) -> (r: u16)
        ensures
            r == self.spec_id(),
    ;
}

impl Identifier for u32 {
    open spec fn spec_package(&self) -> u8 {
        package_of(*self)
    }

    open spec fn spec_spec(&self) -> u8 {
        spec_of(*self)
    }

    open spec fn spec_id(&self) -> u16 {
        entry_of(*self)
    }

    fn package(&self) -> (r: u8) {
        let v: u32 = *self;
        assert((v >> 24) == v / 0x0100_0000 && (v >> 24) < 0x100) by (bit_vector);
        let package_id = (v >> 24) as u8;
        assert(package_id as int == v / 0x0100_0000);
        assert(self.spec_package() == package_of(v));
        if package_id == 0 {
            1
        } else {
            package_id
        }
    }

    fn spec(&self) -> (r: u8) {
        let v = *self;
        assert(((v & 0x00FF_0000) >> 16) == (v / 0x1_0000) % 0x100) by (bit_vector);
        ((v & 0x00FF_0000) >> 16) as u8
    }

    fn id(&self) -> (r: u16) {
        let v = *self;
        assert((v & 0xFFFF) == v % 0x1_0000) by (bit_vector);
        (v & 0xFFFF) as u16
    }
}

/// The view of a string result: the characters of the string, or the error.
pub open spec fn string_result(r: Result<String, Error>) -> Result<Seq<char>, Error> {
    match r {
        Ok(s) => Ok(s@),
        Err(e) => Err(e),
    }
}

/// The string that an index result names in `table`: the lookup of the index, or the
/// error that reading the index gave.
pub open spec fn lookup<S: StringTable>(table: &S, index: Result<u32, Error>) -> Result<
    Seq<char>,
    Error,
> {
    match index {
        Ok(i) => table.spec_string(i),
        Err(e) => Err(e),
    }
}

/// A table of strings, looked up by index.
pub trait StringTable {
    /// The amount of strings that the table announces.
    spec fn spec_strings_len(&self) -> u32;

    /// The amount of styles that the table announces.
    spec fn spec_styles_len(&self) -> u32;

    /// What looking up the string at `idx` gives.
    spec fn spec_string(&self, idx: u32) -> Result<Seq<char>, Error>;

    fn strings_len(&self) -> (r: u32)
        ensures
            r == self.spec_strings_len(),
    ;

    fn styles_len(&self) -> (r: u32)
        ensures
            r == self.spec_styles_len(),
    ;

    fn get_string(&self, idx: u32) -> (r: Result<String, Error>)
        ensures
            string_result(r) == self.spec_string(idx),
    ;
}

/// The value that an attribute with the given type word, payload and class stands for:
/// a string reference when the class names a string, else the value of the type byte
/// (the top byte of the type word) and the payload.
pub open spec fn attribute_value(
    resource_value: Result<u32, Error>,
    data: Result<u32, Error>,
    class: Result<u32, Error>,
    v: Result<Value, Error>,
) -> bool {
    match (resource_value, data, class) {
        (Err(e), _, _) => v == Err::<Value, Error>(e),
        (Ok(_), Err(e), _) => v == Err::<Value, Error>(e),
        (Ok(_), Ok(_), Err(e)) => v == Err::<Value, Error>(e),
        (Ok(rv), Ok(d), Ok(c)) => if c != 0xFFFF_FFFF {
            v == Ok::<Value, Error>(Value::StringReference(c))
        } else if value::has_invalid_unit((rv / 0x0100_0000) as u8, d) {
            v == Err::<Value, Error>(Error::InvalidUnitIndex { index: d % 16 })
        } else {
            v matches Ok(val) && value::is_value_of(val, (rv / 0x0100_0000) as u8, d)
        },
    }
}

pub trait AttributeTrait {
    spec fn spec_namespace(&self) -> Result<u32, Error>;

    spec fn spec_name(&self) -> Result<u32, Error>;

    spec fn spec_class(&self) -> Result<u32, Error>;

    spec fn spec_resource_value(&self) -> Result<u32, Error>;

    spec fn spec_data(&self) -> Result<u32, Error>;

    /// Return the namespace index. If there is no namespace, it will return 0xFFFF_FFFF
    fn namespace(&self) -> (r: Result<u32, Error>)
        ensures
            r == self.spec_namespace(),
    ;

    /// Returns the index of the attribute on the string table
    fn name(&self) -> (r: Result<u32, Error>)
        ensures
            r == self.spec_name(),
    ;

    /// Returns the ¿class?
    fn class(&self) -> (r: Result<u32, Error>)
        ensures
            r == self.spec_class(),
    ;

    /// Returns the data type (see `Values`)
    fn resource_value(&self) -> (r: Result<u32, Error>)
        ensures
            r == self.spec_resource_value(),
    ;

    /// Returns the value (see `Values`)
    fn data(&self) -> (r: Result<u32, Error>)
        ensures
            r == self.spec_data(),
    ;

    /// Creates a `Value` depending on the data type and data value
    fn value(&self) -> (r: Result<Value, Error>)
        ensures
            attribute_value(self.spec_resource_value(), self.spec_data(), self.spec_class(), r),
    {
        let resource_value = self.resource_value()?;
        let data_type = ((resource_value >> 24) & 0xFF) as u8;
        assert(((resource_value >> 24) & 0xFF) == resource_value / 0x0100_0000) by (bit_vector);
        let data_value = self.data()?;
        let class = self.class()?;
        if class == 0xFFFF_FFFF {
            Value::new(data_type, data_value)
        } else {
            Ok(Value::StringReference(class))
        }
    }
}

/// Trait that represents a XML tag start
pub trait TagStart {
    /// Type of the attributes
    type Attribute: AttributeTrait;

    spec fn spec_line(&self) -> Result<u32, Error>;

    spec fn spec_field1(&self) -> Result<u32, Error>;

    spec fn spec_namespace_index(&self) -> Result<u32, Error>;

    spec fn spec_element_name_index(&self) -> Result<u32, Error>;

    spec fn spec_field2(&self) -> Result<u32, Error>;

    spec fn spec_attributes_amount(&self) -> Result<u32, Error>;

    spec fn spec_class(&self) -> Result<u32, Error>;

    /// Whether there is an attribute at `index`.
    spec fn spec_has_attribute(&self, index: u32) -> bool;

    /// Whether `attribute` is the attribute at `index`.
    spec fn spec_attribute_is(&self, index: u32, attribute: Self::Attribute) -> bool;

    /// Return the ¿line in which the tag appear?
    fn line(&self) -> (r: Result<u32, Error>)
        ensures
            r == self.spec_line(),
    ;

    /// Return the content of the unknown field1
    fn field1(&self) -> (r: Result<u32, Error>)
        ensures
            r == self.spec_field1(),
    ;

    /// Return the namespace index. If there is no namespace, it will return 0xFFFF_FFFF
    fn namespace_index(&self) -> (r: Result<u32, Error>)
        ensures
            r == self.spec_namespace_index(),
    ;

    /// Returns the index of the tag name on the string table
    fn element_name_index(&self) -> (r: Result<u32, Error>)
        ensures
            r == self.spec_element_name_index(),
    ;

    /// Return the content of the unknown field2
    fn field2(&self) -> (r: Result<u32, Error>)
        ensures
            r == self.spec_field2(),
    ;

    /// Return the amount of attributes this tag contains
    fn attributes_amount(&self) -> (r: Result<u32, Error>)
        ensures
            r == self.spec_attributes_amount(),
    ;

    /// Returns the ¿class?
    fn class(&self) -> (r: Result<u32, Error>)
        ensures
            r == self.spec_class(),
    ;

    /// Returns the attribute on the `index` position or error if it is greater than
    /// `attributes_amount()`.
    fn attribute(&self, index: u32) -> (r: Result<Self::Attribute, Error>)
        ensures
            self.spec_has_attribute(index) ==> (r matches Ok(a) && self.spec_attribute_is(
                index,
                a,
            )),
            !self.spec_has_attribute(index) ==> r == Err::<Self::Attribute, Error>(
                Error::AttributeOutOfBounds,
            ),
    ;
}

/// Trait that represents the start of a namespace in a XML document.
pub trait NamespaceStart {
    spec fn spec_line(&self) -> Result<u32, Error>;

    spec fn spec_prefix_index(&self) -> Result<u32, Error>;

    spec fn spec_namespace_index(&self) -> Result<u32, Error>;

    fn line(&self) -> (r: Result<u32, Error>)
        ensures
            r == self.spec_line(),
    ;

    fn prefix<S: StringTable>(&self, string_table: &S) -> (r: Result<String, Error>)
        ensures
            string_result(r) == lookup(string_table, self.spec_prefix_index()),
    ;

    fn namespace<S: StringTable>(&self, string_table: &S) -> (r: Result<String, Error>)
        ensures
            string_result(r) == lookup(string_table, self.spec_namespace_index()),
    ;
}

/// Trait that represents the end of a namespace in a XML document.
pub trait NamespaceEnd {
    spec fn spec_line(&self) -> Result<u32, Error>;

    spec fn spec_prefix_index(&self) -> Result<u32, Error>;

    spec fn spec_namespace_index(&self) -> Result<u32, Error>;

    fn line(&self) -> (r: Result<u32, Error>)
        ensures
            r == self.spec_line(),
    ;

    fn prefix<S: StringTable>(&self, string_table: &S) -> (r: Result<String, Error>)
        ensures
            string_result(r) == lookup(string_table, self.spec_prefix_index()),
    ;

    fn namespace<S: StringTable>(&self, string_table: &S) -> (r: Result<String, Error>)
        ensures
            string_result(r) == lookup(string_table, self.spec_namespace_index()),
    ;
}

/// Trait that represents the flags of the entries of one type.
pub trait TypeSpec {
    spec fn spec_id(&self) -> Result<u16, Error>;

    spec fn spec_amount(&self) -> Result<u32, Error>;

    /// Whether `flag` may be asked for the flag at `index`.
    spec fn spec_flag_requires(&self, index: u32) -> bool;

    spec fn spec_flag(&self, index: u32) -> Result<u32, Error>;

    fn id(&self) -> (r: Result<u16, Error>)
        ensures
            r == self.spec_id(),
    ;

    fn amount(&self) -> (r: Result<u32, Error>)
        ensures
            r == self.spec_amount(),
    ;

    fn flag(&self, index: u32) -> (r: Result<u32, Error>)
        requires
            self.spec_flag_requires(index),
        ensures
            r == self.spec_flag(index),
    ;
}

/// Trait that represents a XML tag end.
pub trait TagEnd {
    /// What `id` reads.
    spec fn spec_id(&self) -> Result<u32, Error>;

    /// The id of the tag that ends.
    fn id(&self) -> (r: Result<u32, Error>)
        ensures
            r == self.spec_id(),
    ;
}


/// The view of an optional string result.
pub open spec fn optional_string_result(r: Result<Option<String>, Error>) -> Result<
    Option<Seq<char>>,
    Error,
> {
    match r {
        Ok(Some(s)) => Ok(Some(s@)),
        Ok(None) => Ok(None),
        Err(e) => Err(e),
    }
}

/// The configuration (device features such as language, density or screen size) that a
/// table type applies to.
pub trait Configuration {
    /// Whether the byte at `index` may be indexed directly, as some getters of the
    /// in-place form do.
    spec fn spec_indexable(&self, index: int) -> bool;

    spec fn spec_size(&self) -> Result<u32, Error>;
    spec fn spec_mcc(&self) -> Result<u16, Error>;
    spec fn spec_mnc(&self) -> Result<u16, Error>;
    spec fn spec_language(&self) -> Result<Seq<char>, Error>;
    spec fn spec_region(&self) -> Result<Seq<char>, Error>;
    spec fn spec_orientation(&self) -> Result<u8, Error>;
    spec fn spec_touchscreen(&self) -> Result<u8, Error>;
    spec fn spec_density(&self) -> Result<u16, Error>;
    spec fn spec_keyboard(&self) -> Result<u8, Error>;
    spec fn spec_navigation(&self) -> Result<u8, Error>;
    spec fn spec_input_flags(&self) -> Result<u8, Error>;
    spec fn spec_width(&self) -> Result<u16, Error>;
    spec fn spec_height(&self) -> Result<u16, Error>;
    spec fn spec_sdk_version(&self) -> Result<u16, Error>;
    spec fn spec_min_sdk_version(&self) -> Result<u16, Error>;
    spec fn spec_screen_layout(&self) -> Result<u8, Error>;
    spec fn spec_ui_mode(&self) -> Result<u8, Error>;
    spec fn spec_smallest_screen(&self) -> Result<u16, Error>;
    spec fn spec_screen_width(&self) -> Result<u16, Error>;
    spec fn spec_screen_height(&self) -> Result<u16, Error>;
    spec fn spec_locale_script(&self) -> Result<Option<Seq<char>>, Error>;
    spec fn spec_locale_variant(&self) -> Result<Option<Seq<char>>, Error>;
    spec fn spec_secondary_layout(&self) -> Result<Option<u8>, Error>;

    fn get_size(&self) -> (r: Result<u32, Error>)
        ensures
            r == self.spec_size(),
    ;

    fn get_mcc(&self) -> (r: Result<u16, Error>)
        ensures
            r == self.spec_mcc(),
    ;

    fn get_mnc(&self) -> (r: Result<u16, Error>)
        ensures
            r == self.spec_mnc(),
    ;

    /// The language, as its two bytes give it (`any` for none).
    fn get_language(&self) -> (r: Result<String, Error>)
        requires
            self.spec_indexable(9),
        ensures
            string_result(r) == self.spec_language(),
    ;

    /// The region, as its two bytes give it (`any` for none).
    fn get_region(&self) -> (r: Result<String, Error>)
        requires
            self.spec_indexable(11),
        ensures
            string_result(r) == self.spec_region(),
    ;

    fn get_orientation(&self) -> (r: Result<u8, Error>)
        requires
            self.spec_indexable(12),
        ensures
            r == self.spec_orientation(),
    ;

    fn get_touchscreen(&self) -> (r: Result<u8, Error>)
        requires
            self.spec_indexable(13),
        ensures
            r == self.spec_touchscreen(),
    ;

    fn get_density(&self) -> (r: Result<u16, Error>)
        ensures
            r == self.spec_density(),
    ;

    fn get_keyboard(&self) -> (r: Result<u8, Error>)
        requires
            self.spec_indexable(16),
        ensures
            r == self.spec_keyboard(),
    ;

    fn get_navigation(&self) -> (r: Result<u8, Error>)
        requires
            self.spec_indexable(17),
        ensures
            r == self.spec_navigation(),
    ;

    fn get_input_flags(&self) -> (r: Result<u8, Error>)
        requires
            self.spec_indexable(18),
        ensures
            r == self.spec_input_flags(),
    ;

    fn get_width(&self) -> (r: Result<u16, Error>)
        ensures
            r == self.spec_width(),
    ;

    fn get_height(&self) -> (r: Result<u16, Error>)
        ensures
            r == self.spec_height(),
    ;

    fn get_sdk_version(&self) -> (r: Result<u16, Error>)
        ensures
            r == self.spec_sdk_version(),
    ;

    fn get_min_sdk_version(&self) -> (r: Result<u16, Error>)
        ensures
            r == self.spec_min_sdk_version(),
    ;

    fn get_screen_layout(&self) -> (r: Result<u8, Error>)
        requires
            self.spec_size() matches Ok(s) && s >= 28 ==> self.spec_indexable(28),
        ensures
            r == self.spec_screen_layout(),
    ;

    fn get_ui_mode(&self) -> (r: Result<u8, Error>)
        requires
            self.spec_size() matches Ok(s) && s >= 29 ==> self.spec_indexable(29),
        ensures
            r == self.spec_ui_mode(),
    ;

    fn get_smallest_screen(&self) -> (r: Result<u16, Error>)
        ensures
            r == self.spec_smallest_screen(),
    ;

    fn get_screen_width(&self) -> (r: Result<u16, Error>)
        ensures
            r == self.spec_screen_width(),
    ;

    fn get_screen_height(&self) -> (r: Result<u16, Error>)
        ensures
            r == self.spec_screen_height(),
    ;

    fn get_locale_script(&self) -> (r: Result<Option<String>, Error>)
        ensures
            optional_string_result(r) == self.spec_locale_script(),
    ;

    fn get_locale_variant(&self) -> (r: Result<Option<String>, Error>)
        ensures
            optional_string_result(r) == self.spec_locale_variant(),
    ;

    fn get_secondary_layout(&self) -> (r: Result<Option<u8>, Error>)
        ensures
            r == self.spec_secondary_layout(),
    ;
}

/// The view of an entry result.
pub open spec fn entry_result(r: Result<crate::model::owned::Entry, Error>) -> Result<
    EntryView,
    Error,
> {
    match r {
        Ok(e) => Ok(e@),
        Err(e) => Err(e),
    }
}

/// The entries of one type of resource for one configuration.
pub trait TableType {
    type Configuration: Configuration + View;

    spec fn spec_id(&self) -> Result<u8, Error>;

    spec fn spec_amount(&self) -> Result<u32, Error>;

    spec fn spec_configuration(&self) -> Result<<Self::Configuration as View>::V, Error>;

    spec fn spec_entry(&self, index: u32) -> Result<EntryView, Error>;

    fn get_id(&self) -> (r: Result<u8, Error>)
        ensures
            r == self.spec_id(),
    ;

    fn get_amount(&self) -> (r: Result<u32, Error>)
        ensures
            r == self.spec_amount(),
    ;

    fn get_configuration(&self) -> (r: Result<Self::Configuration, Error>)
        ensures
            match r {
                Ok(c) => self.spec_configuration() == Ok::<
                    <Self::Configuration as View>::V,
                    Error,
                >(c@),
                Err(e) => self.spec_configuration() == Err::<
                    <Self::Configuration as View>::V,
                    Error,
                >(e),
            },
    ;

    fn get_entry(&self, index: u32) -> (r: Result<crate::model::owned::Entry, Error>)
        ensures
            entry_result(r) == self.spec_entry(index),
    ;
}

/// A package of resources.
pub trait Package {
    spec fn spec_id(&self) -> Result<u32, Error>;

    spec fn spec_name(&self) -> Result<Seq<char>, Error>;

    fn id(&self) -> (r: Result<u32, Error>)
        ensures
            r == self.spec_id(),
    ;

    fn name(&self) -> (r: Result<String, Error>)
        ensures
            string_result(r) == self.spec_name(),
    ;
}

} // verus!
