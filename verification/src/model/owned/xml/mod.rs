//! Owned forms of the XML chunks.

mod attribute;
mod namespace_end;
mod namespace_start;
mod tag_end;
mod tag_start;

pub use self::{
    attribute::AttributeBuf, namespace_end::XmlNamespaceEndBuf,
    namespace_start::XmlNamespaceStartBuf, tag_end::XmlTagEndBuf,
    tag_start::{attribute_bytes, attributes_bytes, lemma_attributes_bytes_len, XmlTagStartBuf},
};
