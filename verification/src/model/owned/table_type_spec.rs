use crate::chunks::TOKEN_TABLE_SPEC;
use crate::endian::{push_u32, u32_bytes};
use crate::errors::Error;
use crate::model::owned::{push_u32s, u32s_bytes, OwnedBuf};
use crate::model::TypeSpec;
use vstd::prelude::*;

verus! {

/// Owned form of a type-spec chunk: an id and the flags of its entries.
#[derive(Debug)]
pub struct TableTypeSpecBuf {
    id: u16,
    flags: Vec<u32>,
}

impl TableTypeSpecBuf {
    pub closed spec fn spec_id_value(&self) -> u16 {
        self.id
    }

    pub closed spec fn spec_flags(&self) -> Seq<u32> {
        self.flags@
    }

    pub fn new(id: u16) -> (r: Self)
        ensures
            r.spec_id_value() == id,
            r.spec_flags() == Seq::<u32>::empty(),
    {
        Self { id, flags: Vec::new() }
    }

    pub fn push_flag(&mut self, flag: u32)
        ensures
            final(self).spec_id_value() == old(self).spec_id_value(),
            final(self).spec_flags() == old(self).spec_flags().push(flag),
    {
        self.flags.push(flag)
    }
}

impl OwnedBuf for TableTypeSpecBuf {
    open spec fn spec_token(&self) -> u16 {
        TOKEN_TABLE_SPEC
    }

    /// The id and the amount of flags.
    open spec fn spec_header(&self) -> Seq<u8> {
        u32_bytes(self.spec_id_value() as u32) + u32_bytes(self.spec_flags().len() as u32)
    }

    open spec fn spec_header_size(&self) -> u16 {
        16
    }

    /// The flags, one after the other.
    open spec fn spec_body(&self) -> Seq<u8> {
        u32s_bytes(self.spec_flags(), self.spec_flags().len())
    }

    open spec fn spec_fits(&self) -> bool {
        true
    }

    fn token(&self) -> (r: u16) {
        TOKEN_TABLE_SPEC
    }

    fn body_data(&self) -> (r: Result<Vec<u8>, Error>) {
        let mut out = Vec::new();
        push_u32s(&mut out, &self.flags);
        assert(out@ =~= self.spec_body());
        Ok(out)
    }

    fn header(&self) -> (r: Result<Vec<u8>, Error>) {
        let mut out = Vec::new();
        push_u32(&mut out, self.id as u32);
        push_u32(&mut out, self.flags.len() as u32);
        assert(out@ =~= self.spec_header());
        Ok(out)
    }

    fn header_size(&self) -> (r: u16) {
        16
    }
}

impl TypeSpec for TableTypeSpecBuf {
    open spec fn spec_id(&self) -> Result<u16, Error> {
        Ok(self.spec_id_value())
    }

    open spec fn spec_amount(&self) -> Result<u32, Error> {
        Ok(self.spec_flags().len() as u32)
    }

    open spec fn spec_flag_requires(&self, index: u32) -> bool {
        true
    }

    open spec fn spec_flag(&self, index: u32) -> Result<u32, Error> {
        if index < self.spec_flags().len() {
            Ok(self.spec_flags()[index as int])
        } else {
            Err(Error::FlagOutOfBounds)
        }
    }

    fn id(&self) -> (r: Result<u16, Error>) {
        Ok(self.id)
    }

    fn amount(&self) -> (r: Result<u32, Error>) {
        Ok(self.flags.len() as u32)
    }

    fn flag(&self, index: u32) -> (r: Result<u32, Error>) {
        if (index as usize) < self.flags.len() {
            Ok(self.flags[index as usize])
        } else {
            Err(Error::FlagOutOfBounds)
        }
    }
}

} // verus!
