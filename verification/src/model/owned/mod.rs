//! Owned, editable forms of the chunks, which encode back to bytes.

use crate::endian::{push_bytes, push_u16, push_u32, u16_bytes, u32_bytes};
use crate::errors::Error;
use vstd::prelude::*;

mod package;
mod resources;
mod string_table;
mod table_type;
mod table_type_spec;
pub mod xml;

pub use self::package::{concat_bytes, PackageBuf};
pub use self::resources::{lemma_u32s_bytes, push_u32s, u32s_bytes, ResourcesBuf};
pub use self::string_table::{
    encoded_string, encoded_text, string_offsets, strings_buffer, Encoding, StringTableBuf,
};
pub use self::table_type::{
    child_entry_bytes, children_bytes, complex_entry_bytes, configuration_bytes,
    configuration_decoded, configuration_result, entry_bytes, entry_id, entry_key,
    lemma_configuration_identity, lemma_region_roundtrip, optional_chars, simple_entry_bytes,
    simple_views, ComplexEntry, ComplexEntryView, ConfigurationBuf, ConfigurationView, Entry,
    EntryHeader, EntryView, SimpleEntry, SimpleEntryView, MASK_COMPLEX,
};
pub use self::table_type::{
    entries_body, entry_offsets, entry_views, lemma_entries_body_prefix, TableTypeBuf,
};
pub use self::table_type_spec::TableTypeSpecBuf;

pub use self::xml::{
    attribute_bytes, attributes_bytes, lemma_attributes_bytes_len, AttributeBuf, XmlNamespaceEndBuf,
    XmlNamespaceStartBuf,
    XmlTagEndBuf, XmlTagStartBuf,
};

verus! {

/// The bytes of a chunk: token, header size, chunk size, then the rest of the header
/// and the body.
pub open spec fn chunk_bytes(token: u16, header_size: u16, header: Seq<u8>, body: Seq<u8>) -> Seq<
    u8,
> {
    u16_bytes(token) + u16_bytes(header_size) + u32_bytes((body.len() + header_size) as u32)
        + header + body
}

/// Where the parts of an encoded chunk lie: the announced header size at 2, the chunk
/// size at 4, the rest of the header from 8, then the body.
pub proof fn lemma_chunk_layout(token: u16, header_size: u16, header: Seq<u8>, body: Seq<u8>)
    ensures
        ({
            let c = chunk_bytes(token, header_size, header, body);
            &&& c.len() == 8 + header.len() + body.len()
            &&& c.subrange(0, 2) == u16_bytes(token)
            &&& c.subrange(2, 4) == u16_bytes(header_size)
            &&& c.subrange(4, 8) == u32_bytes((body.len() + header_size) as u32)
            &&& c.subrange(8, 8 + header.len() as int) == header
            &&& c.subrange(8 + header.len() as int, c.len() as int) == body
        }),
{
    let c = chunk_bytes(token, header_size, header, body);
    assert(c.subrange(0, 2) =~= u16_bytes(token));
    assert(c.subrange(2, 4) =~= u16_bytes(header_size));
    assert(c.subrange(4, 8) =~= u32_bytes((body.len() + header_size) as u32));
    assert(c.subrange(8, 8 + header.len() as int) =~= header);
    assert(c.subrange(8 + header.len() as int, c.len() as int) =~= body);
}

/// Implementors are able to be converted to well formed chunks as expected on
/// `ChunkLoaderStream`.
pub trait OwnedBuf {
    /// Token that identifies the chunk.
    spec fn spec_token(&self) -> u16;

    /// The header bytes that follow token, header size and chunk size.
    spec fn spec_header(&self) -> Seq<u8>;

    /// The announced size of the header, the first eight bytes included.
    spec fn spec_header_size(&self) -> u16;

    /// The bytes of the body.
    spec fn spec_body(&self) -> Seq<u8>;

    /// Whether the encoded chunk fits the sizes that its header can announce.
    spec fn spec_fits(&self) -> bool;

    /// Token that identifies the current chunk.
    fn token(&self) -> (r: u16)
        ensures
            r == self.spec_token(),
    ;

    /// Return the bytes corresponding to chunk's body.
    fn body_data(&self) -> (r: Result<Vec<u8>, Error>)
        requires
            self.spec_fits(),
        ensures
            r matches Ok(b) && b@ == self.spec_body(),
    ;

    /// Return the bytes corresponding to chunk's header.
    fn header(&self) -> (r: Result<Vec<u8>, Error>)
        requires
            self.spec_fits(),
        ensures
            r matches Ok(h) && h@ == self.spec_header(),
    ;

    /// The size of the header that the chunk announces: the eight bytes of token, header
    /// size and chunk size, and those that `header` gives.
    fn header_size(&self) -> (r: u16)
        requires
            self.spec_fits(),
        ensures
            r == self.spec_header_size(),
            r == 8 + self.spec_header().len(),
    ;

    /// Writes the header to the output buffer: token, header size and chunk size, then
    /// the data returned by `header`.
    fn write_header(&self, buffer: &mut Vec<u8>, body: &[u8]) -> (r: Result<(), Error>)
        requires
            self.spec_fits(),
            body@.len() + self.spec_header_size() <= u32::MAX,
        ensures
            r is Ok,
            self.spec_header_size() == 8 + self.spec_header().len(),
            final(buffer)@ == old(buffer)@ + u16_bytes(self.spec_token()) + u16_bytes(
                self.spec_header_size(),
            ) + u32_bytes((body@.len() + self.spec_header_size()) as u32) + self.spec_header(),
    {
        let header = self.header()?;
        let header_size = self.header_size();
        push_u16(buffer, self.token());
        push_u16(buffer, header_size);
        push_u32(buffer, body.len() as u32 + header_size as u32);
        push_bytes(buffer, header.as_slice());
        Ok(())
    }

    /// Convert the given `OwnedBuf` to a well formed chunk in form of vector of bytes.
    fn to_vec(&self) -> (r: Result<Vec<u8>, Error>)
        requires
            self.spec_fits(),
            self.spec_body().len() + self.spec_header_size() <= u32::MAX,
        ensures
            r matches Ok(v) && v@ == chunk_bytes(
                self.spec_token(),
                self.spec_header_size(),
                self.spec_header(),
                self.spec_body(),
            ),
    {
        let mut out = Vec::new();
        let body = self.body_data()?;
        self.write_header(&mut out, body.as_slice())?;
        push_bytes(&mut out, body.as_slice());
        assert(out@ =~= chunk_bytes(
            self.spec_token(),
            self.spec_header_size(),
            self.spec_header(),
            self.spec_body(),
        ));
        Ok(out)
    }
}

} // verus!
