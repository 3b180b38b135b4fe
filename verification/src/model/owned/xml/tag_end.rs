use crate::chunks::TOKEN_XML_TAG_END;
use crate::endian::{push_u32, u32_bytes};
use crate::errors::Error;
use crate::model::owned::OwnedBuf;
use crate::model::TagEnd;
use vstd::prelude::*;

verus! {

/// Owned form of a XML tag end chunk.
#[derive(Debug, Copy, Clone)]
pub struct XmlTagEndBuf {
    id: u32,
}

impl XmlTagEndBuf {
    /// The id of the tag that ends.
    pub closed spec fn id_value(&self) -> u32 {
        self.id
    }

    pub fn new(id: u32) -> (r: Self)
        ensures
            r.id_value() == id,
    {
        Self { id }
    }
}

impl TagEnd for XmlTagEndBuf {
    open spec fn spec_id(&self) -> Result<u32, Error> {
        Ok(self.id_value())
    }

    fn id(&self) -> (r: Result<u32, Error>) {
        Ok(self.id)
    }
}

impl OwnedBuf for XmlTagEndBuf {
    open spec fn spec_token(&self) -> u16 {
        TOKEN_XML_TAG_END
    }

    /// Line (always 3 here) and comment index (none).
    open spec fn spec_header(&self) -> Seq<u8> {
        u32_bytes(3) + u32_bytes(0xFFFF_FFFF)
    }

    open spec fn spec_header_size(&self) -> u16 {
        16
    }

    /// Namespace index (none) and the id.
    open spec fn spec_body(&self) -> Seq<u8> {
        u32_bytes(0xFFFF_FFFF) + u32_bytes(self.id_value())
    }

    open spec fn spec_fits(&self) -> bool {
        true
    }

    fn token(&self) -> (r: u16) {
        TOKEN_XML_TAG_END
    }

    fn body_data(&self) -> (r: Result<Vec<u8>, Error>) {
        let mut out = Vec::new();
        push_u32(&mut out, 0xFFFF_FFFF);
        push_u32(&mut out, self.id);
        assert(out@ =~= self.spec_body());
        Ok(out)
    }

    fn header(&self) -> (r: Result<Vec<u8>, Error>) {
        let mut out = Vec::new();
        push_u32(&mut out, 3);
        push_u32(&mut out, 0xFFFF_FFFF);
        assert(out@ =~= self.spec_header());
        Ok(out)
    }

    fn header_size(&self) -> (r: u16) {
        16
    }
}

} // verus!
