use crate::chunks::TOKEN_XML_END_NAMESPACE;
use crate::endian::{push_u32, u32_bytes};
use crate::errors::Error;
use crate::model::owned::OwnedBuf;
use crate::model::{NamespaceEnd, StringTable};
use vstd::prelude::*;

verus! {

/// Owned form of a chunk that marks the end of a namespace in a XML document.
#[derive(Debug, Copy, Clone)]
pub struct XmlNamespaceEndBuf {
    line: u32,
    prefix_index: u32,
    namespace_index: u32,
}

impl XmlNamespaceEndBuf {
    pub closed spec fn spec_line_value(&self) -> u32 {
        self.line
    }

    pub closed spec fn spec_prefix_index_value(&self) -> u32 {
        self.prefix_index
    }

    pub closed spec fn spec_namespace_index_value(&self) -> u32 {
        self.namespace_index
    }

    pub fn new(line: u32, prefix_index: u32, namespace_index: u32) -> (r: Self)
        ensures
            r.spec_line_value() == line,
            r.spec_prefix_index_value() == prefix_index,
            r.spec_namespace_index_value() == namespace_index,
    {
        Self { line, prefix_index, namespace_index }
    }
}

impl NamespaceEnd for XmlNamespaceEndBuf {
    open spec fn spec_line(&self) -> Result<u32, Error> {
        Ok(self.spec_line_value())
    }

    open spec fn spec_prefix_index(&self) -> Result<u32, Error> {
        Ok(self.spec_prefix_index_value())
    }

    open spec fn spec_namespace_index(&self) -> Result<u32, Error> {
        Ok(self.spec_namespace_index_value())
    }

    fn line(&self) -> (r: Result<u32, Error>) {
        Ok(self.line)
    }

    fn prefix<S: StringTable>(&self, string_table: &S) -> (r: Result<String, Error>) {
        string_table.get_string(self.prefix_index)
    }

    fn namespace<S: StringTable>(&self, string_table: &S) -> (r: Result<String, Error>) {
        string_table.get_string(self.namespace_index)
    }
}

impl OwnedBuf for XmlNamespaceEndBuf {
    open spec fn spec_token(&self) -> u16 {
        TOKEN_XML_END_NAMESPACE
    }

    /// Line and comment index (none).
    open spec fn spec_header(&self) -> Seq<u8> {
        u32_bytes(self.spec_line_value()) + u32_bytes(0xFFFF_FFFF)
    }

    open spec fn spec_header_size(&self) -> u16 {
        16
    }

    /// Prefix and namespace indexes.
    open spec fn spec_body(&self) -> Seq<u8> {
        u32_bytes(self.spec_prefix_index_value()) + u32_bytes(self.spec_namespace_index_value())
    }

    open spec fn spec_fits(&self) -> bool {
        true
    }

    fn token(&self) -> (r: u16) {
        TOKEN_XML_END_NAMESPACE
    }

    fn body_data(&self) -> (r: Result<Vec<u8>, Error>) {
        let mut out = Vec::new();
        push_u32(&mut out, self.prefix_index);
        push_u32(&mut out, self.namespace_index);
        assert(out@ =~= self.spec_body());
        Ok(out)
    }

    fn header(&self) -> (r: Result<Vec<u8>, Error>) {
        let mut out = Vec::new();
        push_u32(&mut out, self.line);
        push_u32(&mut out, 0xFFFF_FFFF);
        assert(out@ =~= self.spec_header());
        Ok(out)
    }

    fn header_size(&self) -> (r: u16) {
        16
    }
}

} // verus!
