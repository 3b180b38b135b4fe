use crate::chunks::TOKEN_XML_TAG_START;
use crate::endian::{push_u32, u32_bytes};
use crate::errors::Error;
use crate::model::owned::{AttributeBuf, OwnedBuf};
use crate::model::{AttributeTrait, TagStart};
use vstd::prelude::*;

verus! {

/// The encoded bytes of one attribute: namespace, name, class, type word and payload.
pub open spec fn attribute_bytes(a: AttributeBuf) -> Seq<u8> {
    u32_bytes(a.spec_attribute_namespace()) + u32_bytes(a.spec_attribute_name()) + u32_bytes(
        a.spec_attribute_class(),
    ) + u32_bytes(a.spec_attribute_type()) + u32_bytes(a.spec_attribute_data())
}

/// The encoded bytes of the first `n` attributes of `attributes`.
pub open spec fn attributes_bytes(attributes: Seq<AttributeBuf>, n: nat) -> Seq<u8>
    decreases n,
{
    if n == 0 || n > attributes.len() {
        Seq::empty()
    } else {
        attributes_bytes(attributes, (n - 1) as nat) + attribute_bytes(attributes[n - 1])
    }
}

/// The encoded bytes of the first `n` attributes take twenty bytes each.
pub proof fn lemma_attributes_bytes_len(attributes: Seq<AttributeBuf>, n: nat)
    requires
        n <= attributes.len(),
    ensures
        attributes_bytes(attributes, n).len() == 20 * n,
    decreases n,
{
    if n > 0 {
        lemma_attributes_bytes_len(attributes, (n - 1) as nat);
    }
}

/// Representation of a XML Tag start chunk
#[derive(Debug)]
pub struct XmlTagStartBuf {
    /// Attributes of the tag
    attributes: Vec<AttributeBuf>,
    /// Index of the string on the main string table
    name: u32,
    /// Index of the namespace
    namespace: u32,
    /// ¿Line of the xml?
    line: u32,
    /// Unknown field
    field1: u32,
    /// Unknown field
    field2: u32,
    /// ¿Class?
    class: u32,
}

impl XmlTagStartBuf {
    pub closed spec fn spec_attributes(&self) -> Seq<AttributeBuf> {
        self.attributes@
    }

    pub closed spec fn spec_name_value(&self) -> u32 {
        self.name
    }

    pub closed spec fn spec_namespace_value(&self) -> u32 {
        self.namespace
    }

    pub closed spec fn spec_line_value(&self) -> u32 {
        self.line
    }

    pub closed spec fn spec_field1_value(&self) -> u32 {
        self.field1
    }

    pub closed spec fn spec_field2_value(&self) -> u32 {
        self.field2
    }

    pub closed spec fn spec_class_value(&self) -> u32 {
        self.class
    }

    /// Creates a new `XmlTagStartBuf` with the given data
    pub fn new(line: u32, field1: u32, namespace: u32, name: u32, field2: u32, class: u32) -> (r:
        Self)
        ensures
            r.spec_line_value() == line,
            r.spec_field1_value() == field1,
            r.spec_namespace_value() == namespace,
            r.spec_name_value() == name,
            r.spec_field2_value() == field2,
            r.spec_class_value() == class,
            r.spec_attributes() == Seq::<AttributeBuf>::empty(),
    {
        Self { attributes: Vec::new(), name, namespace, line, field1, field2, class }
    }

    /// Adds a new attribute to the XML tag
    pub fn add_attribute(&mut self, attribute: AttributeBuf)
        ensures
            final(self).spec_attributes() == old(self).spec_attributes().push(attribute),
            final(self).spec_line_value() == old(self).spec_line_value(),
            final(self).spec_field1_value() == old(self).spec_field1_value(),
            final(self).spec_namespace_value() == old(self).spec_namespace_value(),
            final(self).spec_name_value() == old(self).spec_name_value(),
            final(self).spec_field2_value() == old(self).spec_field2_value(),
            final(self).spec_class_value() == old(self).spec_class_value(),
    {
        self.attributes.push(attribute);
    }
}

impl TagStart for XmlTagStartBuf {
    type Attribute = AttributeBuf;

    open spec fn spec_line(&self) -> Result<u32, Error> {
        Ok(self.spec_line_value())
    }

    open spec fn spec_field1(&self) -> Result<u32, Error> {
        Ok(self.spec_field1_value())
    }

    open spec fn spec_namespace_index(&self) -> Result<u32, Error> {
        Ok(self.spec_namespace_value())
    }

    open spec fn spec_element_name_index(&self) -> Result<u32, Error> {
        Ok(self.spec_name_value())
    }

    open spec fn spec_field2(&self) -> Result<u32, Error> {
        Ok(self.spec_field2_value())
    }

    /// The amount of attributes, truncated to 32 bits.
    open spec fn spec_attributes_amount(&self) -> Result<u32, Error> {
        Ok(self.spec_attributes().len() as u32)
    }

    open spec fn spec_class(&self) -> Result<u32, Error> {
        Ok(self.spec_class_value())
    }

    open spec fn spec_has_attribute(&self, index: u32) -> bool {
        index < self.spec_attributes().len()
    }

    open spec fn spec_attribute_is(&self, index: u32, attribute: AttributeBuf) -> bool {
        attribute == self.spec_attributes()[index as int]
    }

    fn line(&self) -> (r: Result<u32, Error>) {
        Ok(self.line)
    }

    fn field1(&self) -> (r: Result<u32, Error>) {
        Ok(self.field1)
    }

    fn namespace_index(&self) -> (r: Result<u32, Error>) {
        Ok(self.namespace)
    }

    fn element_name_index(&self) -> (r: Result<u32, Error>) {
        Ok(self.name)
    }

    fn field2(&self) -> (r: Result<u32, Error>) {
        Ok(self.field2)
    }

    fn attributes_amount(&self) -> (r: Result<u32, Error>) {
        Ok(self.attributes.len() as u32)
    }

    fn class(&self) -> (r: Result<u32, Error>) {
        Ok(self.class)
    }

    fn attribute(&self, index: u32) -> (r: Result<AttributeBuf, Error>) {
        if (index as usize) < self.attributes.len() {
            Ok(self.attributes[index as usize])
        } else {
            Err(Error::AttributeOutOfBounds)
        }
    }
}

impl OwnedBuf for XmlTagStartBuf {
    open spec fn spec_token(&self) -> u16 {
        TOKEN_XML_TAG_START
    }

    /// Line and the first unknown field.
    open spec fn spec_header(&self) -> Seq<u8> {
        u32_bytes(self.spec_line_value()) + u32_bytes(self.spec_field1_value())
    }

    open spec fn spec_header_size(&self) -> u16 {
        16
    }

    /// Namespace, name, second unknown field, amount of attributes, class, then the
    /// attributes.
    open spec fn spec_body(&self) -> Seq<u8> {
        u32_bytes(self.spec_namespace_value()) + u32_bytes(self.spec_name_value()) + u32_bytes(
            self.spec_field2_value(),
        ) + u32_bytes(self.spec_attributes().len() as u32) + u32_bytes(self.spec_class_value())
            + attributes_bytes(self.spec_attributes(), self.spec_attributes().len())
    }

    open spec fn spec_fits(&self) -> bool {
        self.spec_attributes().len() <= u32::MAX
    }

    fn token(&self) -> (r: u16) {
        TOKEN_XML_TAG_START
    }

    fn body_data(&self) -> (r: Result<Vec<u8>, Error>) {
        let mut out = Vec::new();
        push_u32(&mut out, self.namespace);
        push_u32(&mut out, self.name);
        push_u32(&mut out, self.field2);
        push_u32(&mut out, self.attributes.len() as u32);
        push_u32(&mut out, self.class);
        let ghost fixed = out@;
        let mut i: usize = 0;
        while i < self.attributes.len()
            invariant
                i <= self.attributes@.len(),
                out@ == fixed + attributes_bytes(self.attributes@, i as nat),
            decreases self.attributes@.len() - i,
        {
            let a = &self.attributes[i];
            push_u32(&mut out, a.namespace().unwrap());
            push_u32(&mut out, a.name().unwrap());
            push_u32(&mut out, a.class().unwrap());
            push_u32(&mut out, a.resource_value().unwrap());
            push_u32(&mut out, a.data().unwrap());
            i = i + 1;
            assert(out@ =~= fixed + attributes_bytes(self.attributes@, i as nat));
        }
        assert(out@ =~= self.spec_body());
        Ok(out)
    }

    fn header(&self) -> (r: Result<Vec<u8>, Error>) {
        let mut out = Vec::new();
        push_u32(&mut out, self.line);
        push_u32(&mut out, self.field1);
        assert(out@ =~= self.spec_header());
        Ok(out)
    }

    fn header_size(&self) -> (r: u16) {
        16
    }
}

} // verus!
