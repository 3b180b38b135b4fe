//! The chunks of binary XML documents, read in place.

use super::{
    TOKEN_XML_END_NAMESPACE, TOKEN_XML_START_NAMESPACE, TOKEN_XML_TAG_END, TOKEN_XML_TAG_START,
};
use crate::endian::{
    block_at, get_u16, get_u32, lemma_agree_by_blocks, lemma_read_u16_of_u32,
    lemma_read_u32_in_part, lemma_u32_bytes_at, or_eof, read_u16_spec, read_u32_spec, u16_bytes,
    u32_at, u32_bytes,
};
use crate::errors::Error;
use crate::model::owned::{
    attribute_bytes, attributes_bytes, chunk_bytes, lemma_chunk_layout, AttributeBuf, OwnedBuf,
    XmlNamespaceEndBuf, XmlNamespaceStartBuf, XmlTagEndBuf, XmlTagStartBuf,
};
use crate::model::{
    lookup, string_result, AttributeTrait, NamespaceEnd, NamespaceStart, StringTable, TagEnd,
    TagStart,
};
use vstd::prelude::*;

verus! {

/// The `u32` field at `pos` of a chunk, or the end-of-data error.
pub open spec fn field_u32(data: Seq<u8>, pos: int) -> Result<u32, Error> {
    or_eof(read_u32_spec(data, pos))
}

/// The amount of attributes of a tag start chunk: the `u16` at 28.
pub open spec fn tag_start_attributes_amount(data: Seq<u8>) -> Result<u32, Error> {
    match read_u16_spec(data, 28) {
        Some(v) => Ok(v as u32),
        None => Err(Error::UnexpectedEof),
    }
}

/// Where the attribute at `index` of a tag start chunk starts.
pub open spec fn attribute_start(index: u32) -> int {
    36 + 20 * index
}

fn string_at<S: StringTable>(string_table: &S, index: Result<u32, Error>) -> (r: Result<
    String,
    Error,
>)
    ensures
        string_result(r) == lookup(string_table, index),
{
    let i = index?;
    string_table.get_string(i)
}

#[derive(Debug)]
pub struct XmlNamespaceStartWrapper<'a> {
    raw_data: &'a [u8],
}

impl<'a> View for XmlNamespaceStartWrapper<'a> {
    type V = Seq<u8>;

    closed spec fn view(&self) -> Seq<u8> {
        self.raw_data@
    }
}

impl<'a> XmlNamespaceStartWrapper<'a> {
    pub fn new(raw_data: &'a [u8]) -> (r: Self)
        ensures
            r@ == raw_data@,
    {
        Self { raw_data }
    }

    pub fn prefix_index(&self) -> (r: Result<u32, Error>)
        ensures
            r == field_u32(self@, 16),
    {
        get_u32(self.raw_data, 16)
    }

    pub fn namespace_index(&self) -> (r: Result<u32, Error>)
        ensures
            r == field_u32(self@, 20),
    {
        get_u32(self.raw_data, 20)
    }

    pub fn to_buffer(&self) -> (r: Result<XmlNamespaceStartBuf, Error>)
        ensures
            r is Ok <==> (self.spec_line() is Ok && self.spec_prefix_index() is Ok
                && self.spec_namespace_index() is Ok),
            r matches Ok(b) ==> Ok::<u32, Error>(b.spec_line_value()) == self.spec_line() && Ok::<
                u32,
                Error,
            >(b.spec_prefix_index_value()) == self.spec_prefix_index() && Ok::<u32, Error>(
                b.spec_namespace_index_value(),
            ) == self.spec_namespace_index(),
    {
        let namespace_start = XmlNamespaceStartBuf::new(
            self.line()?,
            self.prefix_index()?,
            self.namespace_index()?,
        );
        Ok(namespace_start)
    }
}

impl<'a> NamespaceStart for XmlNamespaceStartWrapper<'a> {
    open spec fn spec_line(&self) -> Result<u32, Error> {
        field_u32(self@, 8)
    }

    open spec fn spec_prefix_index(&self) -> Result<u32, Error> {
        field_u32(self@, 16)
    }

    open spec fn spec_namespace_index(&self) -> Result<u32, Error> {
        field_u32(self@, 20)
    }

    fn line(&self) -> (r: Result<u32, Error>) {
        get_u32(self.raw_data, 8)
    }

    fn prefix<S: StringTable>(&self, string_table: &S) -> (r: Result<String, Error>) {
        string_at(string_table, self.prefix_index())
    }

    fn namespace<S: StringTable>(&self, string_table: &S) -> (r: Result<String, Error>) {
        string_at(string_table, self.namespace_index())
    }
}

#[derive(Debug)]
pub struct XmlNamespaceEndWrapper<'a> {
    raw_data: &'a [u8],
}

impl<'a> View for XmlNamespaceEndWrapper<'a> {
    type V = Seq<u8>;

    closed spec fn view(&self) -> Seq<u8> {
        self.raw_data@
    }
}

impl<'a> XmlNamespaceEndWrapper<'a> {
    pub fn new(raw_data: &'a [u8]) -> (r: Self)
        ensures
            r@ == raw_data@,
    {
        Self { raw_data }
    }

    pub fn prefix_index(&self) -> (r: Result<u32, Error>)
        ensures
            r == field_u32(self@, 16),
    {
        get_u32(self.raw_data, 16)
    }

    pub fn namespace_index(&self) -> (r: Result<u32, Error>)
        ensures
            r == field_u32(self@, 20),
    {
        get_u32(self.raw_data, 20)
    }

    pub fn to_buffer(&self) -> (r: Result<XmlNamespaceEndBuf, Error>)
        ensures
            r is Ok <==> (self.spec_line() is Ok && self.spec_prefix_index() is Ok
                && self.spec_namespace_index() is Ok),
            r matches Ok(b) ==> Ok::<u32, Error>(b.spec_line_value()) == self.spec_line() && Ok::<
                u32,
                Error,
            >(b.spec_prefix_index_value()) == self.spec_prefix_index() && Ok::<u32, Error>(
                b.spec_namespace_index_value(),
            ) == self.spec_namespace_index(),
    {
        let namespace_end = XmlNamespaceEndBuf::new(
            self.line()?,
            self.prefix_index()?,
            self.namespace_index()?,
        );
        Ok(namespace_end)
    }
}

impl<'a> NamespaceEnd for XmlNamespaceEndWrapper<'a> {
    open spec fn spec_line(&self) -> Result<u32, Error> {
        field_u32(self@, 8)
    }

    open spec fn spec_prefix_index(&self) -> Result<u32, Error> {
        field_u32(self@, 16)
    }

    open spec fn spec_namespace_index(&self) -> Result<u32, Error> {
        field_u32(self@, 20)
    }

    fn line(&self) -> (r: Result<u32, Error>) {
        get_u32(self.raw_data, 8)
    }

    fn prefix<S: StringTable>(&self, string_table: &S) -> (r: Result<String, Error>) {
        string_at(string_table, self.prefix_index())
    }

    fn namespace<S: StringTable>(&self, string_table: &S) -> (r: Result<String, Error>) {
        string_at(string_table, self.namespace_index())
    }
}

/// Contains a reference to the whole buffer of a `TagStart` chunk.
#[derive(Debug)]
pub struct XmlTagStartWrapper<'a> {
    raw_data: &'a [u8],
}

impl<'a> View for XmlTagStartWrapper<'a> {
    type V = Seq<u8>;

    closed spec fn view(&self) -> Seq<u8> {
        self.raw_data@
    }
}

impl<'a> TagStart for XmlTagStartWrapper<'a> {
    type Attribute = AttributeWrapper<'a>;

    open spec fn spec_line(&self) -> Result<u32, Error> {
        field_u32(self@, 8)
    }

    open spec fn spec_field1(&self) -> Result<u32, Error> {
        field_u32(self@, 12)
    }

    open spec fn spec_namespace_index(&self) -> Result<u32, Error> {
        field_u32(self@, 16)
    }

    open spec fn spec_element_name_index(&self) -> Result<u32, Error> {
        field_u32(self@, 20)
    }

    open spec fn spec_field2(&self) -> Result<u32, Error> {
        field_u32(self@, 24)
    }

    open spec fn spec_attributes_amount(&self) -> Result<u32, Error> {
        tag_start_attributes_amount(self@)
    }

    open spec fn spec_class(&self) -> Result<u32, Error> {
        field_u32(self@, 32)
    }

    open spec fn spec_has_attribute(&self, index: u32) -> bool {
        &&& tag_start_attributes_amount(self@) matches Ok(n) && index < n
        &&& attribute_start(index) + 20 <= self@.len()
    }

    open spec fn spec_attribute_is(&self, index: u32, attribute: AttributeWrapper<'a>) -> bool {
        attribute@ == self@.subrange(attribute_start(index), attribute_start(index) + 20)
    }

    fn line(&self) -> (r: Result<u32, Error>) {
        get_u32(self.raw_data, 8)
    }

    fn field1(&self) -> (r: Result<u32, Error>) {
        get_u32(self.raw_data, 12)
    }

    fn namespace_index(&self) -> (r: Result<u32, Error>) {
        get_u32(self.raw_data, 16)
    }

    fn element_name_index(&self) -> (r: Result<u32, Error>) {
        get_u32(self.raw_data, 20)
    }

    fn field2(&self) -> (r: Result<u32, Error>) {
        get_u32(self.raw_data, 24)
    }

    fn attributes_amount(&self) -> (r: Result<u32, Error>) {
        let amount = get_u16(self.raw_data, 28)?;
        Ok(amount as u32)
    }

    fn class(&self) -> (r: Result<u32, Error>) {
        get_u32(self.raw_data, 32)
    }

    fn attribute(&self, index: u32) -> (r: Result<AttributeWrapper<'a>, Error>) {
        match self.attributes_amount() {
            Ok(amount) => if index >= amount {
                return Err(Error::AttributeOutOfBounds);
            },
            Err(_) => {
                return Err(Error::AttributeOutOfBounds);
            },
        }
        let offset: u64 = 36 + (index as u64) * 20;
        let final_position: u64 = offset + 20;
        if (self.raw_data.len() as u64) < final_position {
            return Err(Error::AttributeOutOfBounds);
        }
        let slice = &self.raw_data[offset as usize..final_position as usize];
        Ok(AttributeWrapper::new(slice))
    }
}

impl<'a> XmlTagStartWrapper<'a> {
    /// Creates a new `XmlTagStartWrapper`
    pub fn new(raw_data: &'a [u8]) -> (r: Self)
        ensures
            r@ == raw_data@,
    {
        Self { raw_data }
    }

    /// It converts the wrapper into a `XmlTagStartBuf` which can be later manipulated
    pub fn to_buffer(&self) -> (r: Result<XmlTagStartBuf, Error>)
        ensures
            r is Ok <==> tag_start_decodes(self@),
            r matches Ok(b) ==> tag_start_matches(self@, b),
            !tag_start_decodes(self@) ==> r == Err::<XmlTagStartBuf, Error>(
                if self@.len() < 36 {
                    Error::UnexpectedEof
                } else {
                    Error::AttributeOutOfBounds
                },
            ),
    {
        let line = self.line()?;
        let field1 = self.field1()?;
        let namespace = self.namespace_index()?;
        let name = self.element_name_index()?;
        let field2 = self.field2()?;
        let class = self.class()?;
        let mut tag_start = XmlTagStartBuf::new(line, field1, namespace, name, field2, class);
        let amount = self.attributes_amount()?;
        let mut i: u32 = 0;
        while i < amount
            invariant
                i <= amount,
                self.spec_attributes_amount() == Ok::<u32, Error>(amount),
                tag_start.spec_line_value() == line,
                tag_start.spec_field1_value() == field1,
                tag_start.spec_namespace_value() == namespace,
                tag_start.spec_name_value() == name,
                tag_start.spec_field2_value() == field2,
                tag_start.spec_class_value() == class,
                tag_start.spec_attributes().len() == i,
                forall|j: int|
                    0 <= j < i ==> attribute_matches(
                        self@,
                        j as u32,
                        #[trigger] tag_start.spec_attributes()[j],
                    ),
                forall|j: u32| j < i ==> #[trigger] attribute_start(j) + 20 <= self@.len(),
                self@.len() >= 36,
            decreases amount - i,
        {
            let attr = self.attribute(i)?;
            let buf = attr.to_buffer()?;
            proof {
                lemma_attribute_fields(self@, i, attr@);
                reveal(attribute_fields_at);
            }
            tag_start.add_attribute(buf);
            i = i + 1;
        }
        Ok(tag_start)
    }
}

/// Whether the five fields of an attribute stored at `start` in `data` are those of `a`.
#[verifier::opaque]
pub open spec fn attribute_fields_at(data: Seq<u8>, start: int, a: AttributeBuf) -> bool {
    &&& read_u32_spec(data, start) == Some(a.spec_attribute_namespace())
    &&& read_u32_spec(data, start + 4) == Some(a.spec_attribute_name())
    &&& read_u32_spec(data, start + 8) == Some(a.spec_attribute_class())
    &&& read_u32_spec(data, start + 12) == Some(a.spec_attribute_type())
    &&& read_u32_spec(data, start + 16) == Some(a.spec_attribute_data())
}

/// Whether the attribute at `index` of a tag start chunk is `a`.
pub open spec fn attribute_matches(data: Seq<u8>, index: u32, a: AttributeBuf) -> bool {
    attribute_fields_at(data, attribute_start(index), a)
}

/// Whether a tag start chunk decodes: its fixed fields, and all the attributes that it
/// announces, lie inside its bytes.
pub open spec fn tag_start_decodes(data: Seq<u8>) -> bool {
    &&& data.len() >= 36
    &&& tag_start_attributes_amount(data) matches Ok(n) && forall|j: u32|
        j < n ==> #[trigger] attribute_start(j) + 20 <= data.len()
}

/// Whether `b` holds the fields and the attributes of the tag start chunk `data`.
pub open spec fn tag_start_matches(data: Seq<u8>, b: XmlTagStartBuf) -> bool {
    &&& field_u32(data, 8) == Ok::<u32, Error>(b.spec_line_value())
    &&& field_u32(data, 12) == Ok::<u32, Error>(b.spec_field1_value())
    &&& field_u32(data, 16) == Ok::<u32, Error>(b.spec_namespace_value())
    &&& field_u32(data, 20) == Ok::<u32, Error>(b.spec_name_value())
    &&& field_u32(data, 24) == Ok::<u32, Error>(b.spec_field2_value())
    &&& field_u32(data, 32) == Ok::<u32, Error>(b.spec_class_value())
    &&& tag_start_attributes_amount(data) == Ok::<u32, Error>(b.spec_attributes().len() as u32)
    &&& forall|j: int|
        0 <= j < b.spec_attributes().len() ==> attribute_matches(
            data,
            j as u32,
            #[trigger] b.spec_attributes()[j],
        )
}

proof fn lemma_attribute_fields(data: Seq<u8>, index: u32, slice: Seq<u8>)
    requires
        attribute_start(index) + 20 <= data.len(),
        slice == data.subrange(attribute_start(index), attribute_start(index) + 20),
    ensures
        forall|k: int|
            0 <= k <= 16 ==> #[trigger] read_u32_spec(slice, k) == read_u32_spec(
                data,
                attribute_start(index) + k,
            ),
{
}

/// Contains a slice that represents an attribute
#[derive(Debug)]
pub struct AttributeWrapper<'a> {
    slice: &'a [u8],
}

impl<'a> View for AttributeWrapper<'a> {
    type V = Seq<u8>;

    closed spec fn view(&self) -> Seq<u8> {
        self.slice@
    }
}

impl<'a> AttributeTrait for AttributeWrapper<'a> {
    open spec fn spec_namespace(&self) -> Result<u32, Error> {
        field_u32(self@, 0)
    }

    open spec fn spec_name(&self) -> Result<u32, Error> {
        field_u32(self@, 4)
    }

    open spec fn spec_class(&self) -> Result<u32, Error> {
        field_u32(self@, 8)
    }

    open spec fn spec_resource_value(&self) -> Result<u32, Error> {
        field_u32(self@, 12)
    }

    open spec fn spec_data(&self) -> Result<u32, Error> {
        field_u32(self@, 16)
    }

    fn namespace(&self) -> (r: Result<u32, Error>) {
        get_u32(self.slice, 0)
    }

    fn name(&self) -> (r: Result<u32, Error>) {
        get_u32(self.slice, 4)
    }

    fn class(&self) -> (r: Result<u32, Error>) {
        get_u32(self.slice, 8)
    }

    fn resource_value(&self) -> (r: Result<u32, Error>) {
        get_u32(self.slice, 12)
    }

    fn data(&self) -> (r: Result<u32, Error>) {
        get_u32(self.slice, 16)
    }
}

impl<'a> AttributeWrapper<'a> {
    /// Creates a new `AttributeWrapper`
    pub fn new(slice: &'a [u8]) -> (r: Self)
        ensures
            r@ == slice@,
    {
        Self { slice }
    }

    /// It converts the wrapper into a `AttributeBuf` which can be later manipulated
    pub fn to_buffer(&self) -> (r: Result<AttributeBuf, Error>)
        ensures
            r is Ok <==> self@.len() >= 20,
            r matches Ok(a) ==> attribute_fields_at(self@, 0, a),
    {
        let attr = AttributeBuf::new(
            self.namespace()?,
            self.name()?,
            self.class()?,
            self.resource_value()?,
            self.data()?,
        );
        proof {
            reveal(attribute_fields_at);
        }
        Ok(attr)
    }
}

#[derive(Debug)]
pub struct XmlTagEndWrapper<'a> {
    raw_data: &'a [u8],
}

impl<'a> View for XmlTagEndWrapper<'a> {
    type V = Seq<u8>;

    closed spec fn view(&self) -> Seq<u8> {
        self.raw_data@
    }
}

impl<'a> XmlTagEndWrapper<'a> {
    pub fn new(raw_data: &'a [u8]) -> (r: Self)
        ensures
            r@ == raw_data@,
    {
        Self { raw_data }
    }

    pub fn to_buffer(&self) -> (r: Result<XmlTagEndBuf, Error>)
        ensures
            r is Ok <==> self.spec_id() is Ok,
            r matches Ok(b) ==> Ok::<u32, Error>(b.id_value()) == self.spec_id(),
    {
        Ok(XmlTagEndBuf::new(self.id()?))
    }
}

impl<'a> TagEnd for XmlTagEndWrapper<'a> {
    open spec fn spec_id(&self) -> Result<u32, Error> {
        field_u32(self@, 20)
    }

    fn id(&self) -> (r: Result<u32, Error>) {
        get_u32(self.raw_data, 20)
    }
}

#[derive(Debug)]
pub struct XmlTextWrapper<'a> {
    raw_data: &'a [u8],
}

impl<'a> View for XmlTextWrapper<'a> {
    type V = Seq<u8>;

    closed spec fn view(&self) -> Seq<u8> {
        self.raw_data@
    }
}

impl<'a> XmlTextWrapper<'a> {
    pub fn new(raw_data: &'a [u8]) -> (r: Self)
        ensures
            r@ == raw_data@,
    {
        Self { raw_data }
    }

    pub fn text_index(&self) -> (r: Result<u32, Error>)
        ensures
            r == field_u32(self@, 16),
    {
        get_u32(self.raw_data, 16)
    }
}

/// The bytes that an owned chunk encodes to.
pub open spec fn encoded<B: OwnedBuf>(b: B) -> Seq<u8> {
    chunk_bytes(b.spec_token(), b.spec_header_size(), b.spec_header(), b.spec_body())
}

/// A tag end that is encoded and read back has the same id.
pub proof fn lemma_tag_end_roundtrip(b: XmlTagEndBuf)
    ensures
        field_u32(encoded(b), 20) == b.spec_id(),
{
    let c = encoded(b);
    let body = b.spec_body();
    lemma_chunk_layout(b.spec_token(), b.spec_header_size(), b.spec_header(), body);
    assert(body.subrange(4, 8) =~= u32_bytes(b.id_value()));
    lemma_read_u32_in_part(c, 16, body, 4, b.id_value());
}

/// A namespace start that is encoded and read back has the same line, prefix and
/// namespace.
pub proof fn lemma_namespace_start_roundtrip(b: XmlNamespaceStartBuf)
    ensures
        field_u32(encoded(b), 8) == Ok::<u32, Error>(b.spec_line_value()),
        field_u32(encoded(b), 16) == Ok::<u32, Error>(b.spec_prefix_index_value()),
        field_u32(encoded(b), 20) == Ok::<u32, Error>(b.spec_namespace_index_value()),
{
    let c = encoded(b);
    let header = b.spec_header();
    let body = b.spec_body();
    lemma_chunk_layout(b.spec_token(), b.spec_header_size(), header, body);
    assert(header.subrange(0, 4) =~= u32_bytes(b.spec_line_value()));
    assert(body.subrange(0, 4) =~= u32_bytes(b.spec_prefix_index_value()));
    assert(body.subrange(4, 8) =~= u32_bytes(b.spec_namespace_index_value()));
    lemma_read_u32_in_part(c, 8, header, 0, b.spec_line_value());
    lemma_read_u32_in_part(c, 16, body, 0, b.spec_prefix_index_value());
    lemma_read_u32_in_part(c, 16, body, 4, b.spec_namespace_index_value());
}

/// A namespace end that is encoded and read back has the same line, prefix and
/// namespace.
pub proof fn lemma_namespace_end_roundtrip(b: XmlNamespaceEndBuf)
    ensures
        field_u32(encoded(b), 8) == Ok::<u32, Error>(b.spec_line_value()),
        field_u32(encoded(b), 16) == Ok::<u32, Error>(b.spec_prefix_index_value()),
        field_u32(encoded(b), 20) == Ok::<u32, Error>(b.spec_namespace_index_value()),
{
    let c = encoded(b);
    let header = b.spec_header();
    let body = b.spec_body();
    lemma_chunk_layout(b.spec_token(), b.spec_header_size(), header, body);
    assert(header.subrange(0, 4) =~= u32_bytes(b.spec_line_value()));
    assert(body.subrange(0, 4) =~= u32_bytes(b.spec_prefix_index_value()));
    assert(body.subrange(4, 8) =~= u32_bytes(b.spec_namespace_index_value()));
    lemma_read_u32_in_part(c, 8, header, 0, b.spec_line_value());
    lemma_read_u32_in_part(c, 16, body, 0, b.spec_prefix_index_value());
    lemma_read_u32_in_part(c, 16, body, 4, b.spec_namespace_index_value());
}

/// Twenty-four bytes are the chunk header that announces them with `token` and a header of
/// sixteen bytes, then the four `u32` that they hold from 8 on.
proof fn lemma_small_chunk(data: Seq<u8>, token: u16)
    requires
        data.len() == 24,
        data.subrange(0, 8) == u16_bytes(token) + u16_bytes(16) + u32_bytes(24),
    ensures
        data == u16_bytes(token) + u16_bytes(16) + u32_bytes(24) + u32_bytes(u32_at(data, 8))
            + u32_bytes(u32_at(data, 12)) + u32_bytes(u32_at(data, 16)) + u32_bytes(
            u32_at(data, 20),
        ),
{
    lemma_u32_bytes_at(data, 8);
    lemma_u32_bytes_at(data, 12);
    lemma_u32_bytes_at(data, 16);
    lemma_u32_bytes_at(data, 20);
    assert(data =~= data.subrange(0, 8) + data.subrange(8, 12) + data.subrange(12, 16)
        + data.subrange(16, 20) + data.subrange(20, 24));
}

/// A namespace start read from bytes writes them back, when they are laid out as it writes
/// them: twenty-four bytes announced as such, a header of sixteen bytes and no comment.
pub proof fn lemma_namespace_start_identity(data: Seq<u8>, b: XmlNamespaceStartBuf)
    requires
        data.len() == 24,
        data.subrange(0, 8) == u16_bytes(TOKEN_XML_START_NAMESPACE) + u16_bytes(16) + u32_bytes(
            24,
        ),
        data.subrange(12, 16) == u32_bytes(0xFFFF_FFFF),
        field_u32(data, 8) == Ok::<u32, Error>(b.spec_line_value()),
        field_u32(data, 16) == Ok::<u32, Error>(b.spec_prefix_index_value()),
        field_u32(data, 20) == Ok::<u32, Error>(b.spec_namespace_index_value()),
    ensures
        encoded(b) == data,
{
    lemma_small_chunk(data, TOKEN_XML_START_NAMESPACE);
    lemma_u32_bytes_at(data, 12);
    assert(encoded(b) =~= data);
}

/// A namespace end read from bytes writes them back, when they are laid out as it writes
/// them: twenty-four bytes announced as such, a header of sixteen bytes and no comment.
pub proof fn lemma_namespace_end_identity(data: Seq<u8>, b: XmlNamespaceEndBuf)
    requires
        data.len() == 24,
        data.subrange(0, 8) == u16_bytes(TOKEN_XML_END_NAMESPACE) + u16_bytes(16) + u32_bytes(
            24,
        ),
        data.subrange(12, 16) == u32_bytes(0xFFFF_FFFF),
        field_u32(data, 8) == Ok::<u32, Error>(b.spec_line_value()),
        field_u32(data, 16) == Ok::<u32, Error>(b.spec_prefix_index_value()),
        field_u32(data, 20) == Ok::<u32, Error>(b.spec_namespace_index_value()),
    ensures
        encoded(b) == data,
{
    lemma_small_chunk(data, TOKEN_XML_END_NAMESPACE);
    lemma_u32_bytes_at(data, 12);
    assert(encoded(b) =~= data);
}

/// A tag end read from bytes writes them back, when they are laid out as it writes them:
/// twenty-four bytes announced as such, a header of sixteen bytes, line 3, and neither
/// comment nor namespace.
pub proof fn lemma_tag_end_identity(data: Seq<u8>, b: XmlTagEndBuf)
    requires
        data.len() == 24,
        data.subrange(0, 8) == u16_bytes(TOKEN_XML_TAG_END) + u16_bytes(16) + u32_bytes(24),
        data.subrange(8, 20) == u32_bytes(3) + u32_bytes(0xFFFF_FFFF) + u32_bytes(0xFFFF_FFFF),
        field_u32(data, 20) == b.spec_id(),
    ensures
        encoded(b) == data,
{
    lemma_small_chunk(data, TOKEN_XML_TAG_END);
    assert(data.subrange(8, 12) =~= data.subrange(8, 20).subrange(0, 4));
    assert(data.subrange(12, 16) =~= data.subrange(8, 20).subrange(4, 8));
    assert(data.subrange(16, 20) =~= data.subrange(8, 20).subrange(8, 12));
    lemma_u32_bytes_at(data, 8);
    lemma_u32_bytes_at(data, 12);
    lemma_u32_bytes_at(data, 16);
    assert(encoded(b) =~= data);
}

proof fn lemma_attributes_bytes(attributes: Seq<AttributeBuf>, n: nat)
    requires
        n <= attributes.len(),
    ensures
        attributes_bytes(attributes, n).len() == 20 * n,
        forall|j: int|
            0 <= j < n ==> #[trigger] attributes_bytes(attributes, n).subrange(
                20 * j,
                20 * j + 20,
            ) == attribute_bytes(attributes[j]),
    decreases n,
{
    if n > 0 {
        lemma_attributes_bytes(attributes, (n - 1) as nat);
        let prev = attributes_bytes(attributes, (n - 1) as nat);
        let all = attributes_bytes(attributes, n);
        assert forall|j: int| 0 <= j < n implies #[trigger] all.subrange(20 * j, 20 * j + 20)
            == attribute_bytes(attributes[j]) by {
            if j < n - 1 {
                assert(all.subrange(20 * j, 20 * j + 20) =~= prev.subrange(20 * j, 20 * j + 20));
            } else {
                assert(all.subrange(20 * j, 20 * j + 20) =~= attribute_bytes(attributes[j]));
            }
        }
    }
}

proof fn lemma_attribute_placed(c: Seq<u8>, st: int, a: AttributeBuf)
    requires
        0 <= st,
        st + 20 <= c.len(),
        c.subrange(st, st + 20) == attribute_bytes(a),
    ensures
        attribute_fields_at(c, st, a),
{
    let w = attribute_bytes(a);
    assert(w.subrange(0, 4) =~= u32_bytes(a.spec_attribute_namespace()));
    assert(w.subrange(4, 8) =~= u32_bytes(a.spec_attribute_name()));
    assert(w.subrange(8, 12) =~= u32_bytes(a.spec_attribute_class()));
    assert(w.subrange(12, 16) =~= u32_bytes(a.spec_attribute_type()));
    assert(w.subrange(16, 20) =~= u32_bytes(a.spec_attribute_data()));
    lemma_read_u32_in_part(c, st, w, 0, a.spec_attribute_namespace());
    lemma_read_u32_in_part(c, st, w, 4, a.spec_attribute_name());
    lemma_read_u32_in_part(c, st, w, 8, a.spec_attribute_class());
    lemma_read_u32_in_part(c, st, w, 12, a.spec_attribute_type());
    lemma_read_u32_in_part(c, st, w, 16, a.spec_attribute_data());
    reveal(attribute_fields_at);
}

#[verifier::spinoff_prover]
#[verifier::rlimit(40)]
proof fn lemma_tag_start_fields(b: XmlTagStartBuf)
    ensures
        field_u32(encoded(b), 8) == Ok::<u32, Error>(b.spec_line_value()),
        field_u32(encoded(b), 12) == Ok::<u32, Error>(b.spec_field1_value()),
        field_u32(encoded(b), 16) == Ok::<u32, Error>(b.spec_namespace_value()),
        field_u32(encoded(b), 20) == Ok::<u32, Error>(b.spec_name_value()),
        field_u32(encoded(b), 24) == Ok::<u32, Error>(b.spec_field2_value()),
        read_u16_spec(encoded(b), 28) == Some(
            ((b.spec_attributes().len() as u32) % 0x1_0000) as u16,
        ),
        field_u32(encoded(b), 32) == Ok::<u32, Error>(b.spec_class_value()),
        encoded(b).subrange(36, encoded(b).len() as int) == attributes_bytes(
            b.spec_attributes(),
            b.spec_attributes().len(),
        ),
{
    let c = encoded(b);
    let n = b.spec_attributes().len();
    let header = b.spec_header();
    let body = b.spec_body();
    lemma_chunk_layout(b.spec_token(), b.spec_header_size(), header, body);
    assert(header.subrange(0, 4) =~= u32_bytes(b.spec_line_value()));
    assert(header.subrange(4, 8) =~= u32_bytes(b.spec_field1_value()));
    lemma_read_u32_in_part(c, 8, header, 0, b.spec_line_value());
    lemma_read_u32_in_part(c, 8, header, 4, b.spec_field1_value());
    assert(body.subrange(0, 4) =~= u32_bytes(b.spec_namespace_value()));
    assert(body.subrange(4, 8) =~= u32_bytes(b.spec_name_value()));
    assert(body.subrange(8, 12) =~= u32_bytes(b.spec_field2_value()));
    assert(body.subrange(12, 16) =~= u32_bytes(n as u32));
    assert(body.subrange(16, 20) =~= u32_bytes(b.spec_class_value()));
    lemma_read_u32_in_part(c, 16, body, 0, b.spec_namespace_value());
    lemma_read_u32_in_part(c, 16, body, 4, b.spec_name_value());
    lemma_read_u32_in_part(c, 16, body, 8, b.spec_field2_value());
    lemma_read_u32_in_part(c, 16, body, 12, n as u32);
    lemma_read_u32_in_part(c, 16, body, 16, b.spec_class_value());
    assert(c.subrange(28, 32) =~= body.subrange(12, 16));
    lemma_read_u16_of_u32(c, 28, n as u32);
    assert(c.subrange(36, c.len() as int) =~= body.subrange(20, body.len() as int));
    assert(body.subrange(20, body.len() as int) =~= attributes_bytes(b.spec_attributes(), n));
}

proof fn lemma_inner_subrange(c: Seq<u8>, off: int, part: Seq<u8>, x: int, y: int)
    requires
        0 <= off,
        off + part.len() <= c.len(),
        c.subrange(off, off + part.len()) == part,
        0 <= x <= y <= part.len(),
    ensures
        c.subrange(off + x, off + y) == part.subrange(x, y),
{
    assert(c.subrange(off + x, off + y) =~= part.subrange(x, y));
}

proof fn lemma_attributes_placed(c: Seq<u8>, attrs: Seq<AttributeBuf>)
    requires
        c.len() >= 36,
        attrs.len() <= 0xFFFF,
        c.subrange(36, c.len() as int) == attributes_bytes(attrs, attrs.len()),
    ensures
        c.len() == 36 + 20 * attrs.len(),
        forall|j: u32| j < attrs.len() ==> #[trigger] attribute_start(j) + 20 <= c.len(),
        forall|j: int|
            0 <= j < attrs.len() ==> attribute_matches(c, j as u32, #[trigger] attrs[j]),
{
    let n = attrs.len();
    lemma_attributes_bytes(attrs, n);
    let ab = attributes_bytes(attrs, n);
    assert forall|j: u32| j < n implies #[trigger] attribute_start(j) + 20 <= c.len() by {}
    assert(c.subrange(36, 36 + ab.len() as int) == ab);
    assert forall|j: int| 0 <= j < n implies attribute_matches(c, j as u32, #[trigger] attrs[j]) by {
        let st = attribute_start(j as u32);
        assert(st == 36 + 20 * j);
        assert(ab.subrange(20 * j, 20 * j + 20) == attribute_bytes(attrs[j]));
        lemma_inner_subrange(c, 36, ab, 20 * j, 20 * j + 20);
        lemma_attribute_placed(c, st, attrs[j]);
    }
}

/// A tag start with fewer than 65536 attributes that is encoded and read back has the
/// same fields and the same attributes.
pub proof fn lemma_tag_start_roundtrip(b: XmlTagStartBuf)
    requires
        b.spec_attributes().len() <= 0xFFFF,
    ensures
        tag_start_decodes(encoded(b)),
        tag_start_matches(encoded(b), b),
{
    lemma_tag_start_fields(b);
    lemma_attributes_placed(encoded(b), b.spec_attributes());
}

/// Twenty bytes that hold the five fields of an attribute are the bytes of the attribute.
proof fn lemma_attribute_bytes_from_fields(data: Seq<u8>, st: int, a: AttributeBuf)
    requires
        0 <= st,
        st + 20 <= data.len(),
        attribute_fields_at(data, st, a),
    ensures
        data.subrange(st, st + 20) == attribute_bytes(a),
{
    reveal(attribute_fields_at);
    lemma_u32_bytes_at(data, st);
    lemma_u32_bytes_at(data, st + 4);
    lemma_u32_bytes_at(data, st + 8);
    lemma_u32_bytes_at(data, st + 12);
    lemma_u32_bytes_at(data, st + 16);
    assert(data.subrange(st, st + 20) =~= data.subrange(st, st + 4) + data.subrange(st + 4, st + 8)
        + data.subrange(st + 8, st + 12) + data.subrange(st + 12, st + 16) + data.subrange(
        st + 16,
        st + 20,
    ));
}

/// The `u32` at `p` of two byte strings that both read `v` there are the same bytes.
proof fn lemma_same_word(c: Seq<u8>, d: Seq<u8>, p: int, v: u32)
    requires
        0 <= p,
        p + 4 <= c.len(),
        p + 4 <= d.len(),
        read_u32_spec(c, p) == Some(v),
        read_u32_spec(d, p) == Some(v),
    ensures
        c.subrange(p, p + 4) == d.subrange(p, p + 4),
{
    lemma_u32_bytes_at(c, p);
    lemma_u32_bytes_at(d, p);
}

/// The first thirty-six bytes of an encoded tag start are those of a chunk whose fields it
/// holds, when that chunk is laid out as it writes them.
#[verifier::spinoff_prover]
proof fn lemma_tag_start_prefix(data: Seq<u8>, b: XmlTagStartBuf)
    requires
        data.len() <= u32::MAX,
        data.len() == 36 + 20 * b.spec_attributes().len(),
        data.subrange(0, 8) == u16_bytes(TOKEN_XML_TAG_START) + u16_bytes(16) + u32_bytes(
            data.len() as u32,
        ),
        data[30] == 0,
        data[31] == 0,
        b.spec_attributes().len() <= 0xFFFF,
        tag_start_matches(data, b),
    ensures
        encoded(b).len() == data.len(),
        encoded(b).subrange(0, 36) == data.subrange(0, 36),
{
    let n = b.spec_attributes().len() as int;
    lemma_tag_start_fields(b);
    let c = encoded(b);
    let body = b.spec_body();
    lemma_chunk_layout(b.spec_token(), b.spec_header_size(), b.spec_header(), body);
    lemma_attributes_bytes(b.spec_attributes(), n as nat);
    assert(c.len() == data.len());
    assert(c.subrange(0, 8) =~= data.subrange(0, 8));
    lemma_same_word(c, data, 8, b.spec_line_value());
    lemma_same_word(c, data, 12, b.spec_field1_value());
    lemma_same_word(c, data, 16, b.spec_namespace_value());
    lemma_same_word(c, data, 20, b.spec_name_value());
    lemma_same_word(c, data, 24, b.spec_field2_value());
    lemma_same_word(c, data, 32, b.spec_class_value());
    assert(read_u32_spec(data, 28) == Some(n as u32)) by {
        assert(read_u16_spec(data, 28) == Some(n as u16));
    }
    assert(c.subrange(28, 32) =~= body.subrange(12, 16));
    assert(body.subrange(12, 16) =~= u32_bytes(n as u32));
    crate::endian::lemma_read_u32_placed(c, 28, n as u32);
    lemma_same_word(c, data, 28, n as u32);
    let c0 = c.subrange(0, 36);
    let d0 = data.subrange(0, 36);
    assert forall|i: int| 0 <= i < 7 implies #[trigger] block_at(c0, 8, 4, i) == block_at(
        d0,
        8,
        4,
        i,
    ) by {
        assert(block_at(c0, 8, 4, i) =~= c.subrange(8 + 4 * i, 12 + 4 * i));
        assert(block_at(d0, 8, 4, i) =~= data.subrange(8 + 4 * i, 12 + 4 * i));
    }
    assert(c0.subrange(0, 8) =~= d0.subrange(0, 8));
    lemma_agree_by_blocks(c0, d0, 8, 4, 7);
}

/// A tag start read from bytes writes them back, when they are laid out as it writes them:
/// announced with their length and a header of sixteen bytes, the amount of attributes
/// held in a full `u32`, and exactly the attributes it announces.
#[verifier::spinoff_prover]
pub proof fn lemma_tag_start_identity(data: Seq<u8>, b: XmlTagStartBuf)
    requires
        data.len() <= u32::MAX,
        data.len() == 36 + 20 * b.spec_attributes().len(),
        data.subrange(0, 8) == u16_bytes(TOKEN_XML_TAG_START) + u16_bytes(16) + u32_bytes(
            data.len() as u32,
        ),
        data[30] == 0,
        data[31] == 0,
        tag_start_matches(data, b),
    ensures
        encoded(b) == data,
{
    let attrs = b.spec_attributes();
    let n = attrs.len() as int;
    assert(n <= 0xFFFF) by {
        assert(read_u16_spec(data, 28) matches Some(v) && v as u32 == n as u32);
    }
    lemma_tag_start_prefix(data, b);
    let c = encoded(b);
    lemma_tag_start_fields(b);
    lemma_attributes_placed(c, attrs);
    assert forall|j: int| 0 <= j < n implies #[trigger] block_at(c, 36, 20, j) == block_at(
        data,
        36,
        20,
        j,
    ) by {
        assert(attribute_matches(c, j as u32, attrs[j]));
        assert(attribute_matches(data, j as u32, attrs[j]));
        assert(attribute_start(j as u32) == 36 + 20 * j);
        lemma_attribute_bytes_from_fields(c, 36 + 20 * j, attrs[j]);
        lemma_attribute_bytes_from_fields(data, 36 + 20 * j, attrs[j]);
    }
    lemma_agree_by_blocks(c, data, 36, 20, n);
}

} // verus!
