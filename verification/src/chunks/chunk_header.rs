//! The header that starts every chunk.

use crate::text::{decimal, hex_upper, push_decimal, push_hex_upper, push_str};
use vstd::prelude::*;

verus! {

/// Where a chunk starts inside its buffer, how long its header is, how long the whole
/// chunk is, and which kind of chunk it is.
#[derive(Debug, Clone, Copy)]
pub struct ChunkHeader {
    offset: u64,
    header_size: u16,
    chunk_size: u32,
    chunk_type: u16,
}

impl ChunkHeader {
    /// Position of the first byte of the chunk.
    pub closed spec fn spec_offset(&self) -> u64 {
        self.offset
    }

    /// Length of the header of the chunk.
    pub closed spec fn spec_header_size(&self) -> u16 {
        self.header_size
    }

    /// Length of the whole chunk, header included.
    pub closed spec fn spec_chunk_size(&self) -> u32 {
        self.chunk_size
    }

    /// Token that tells the kind of the chunk.
    pub closed spec fn spec_token(&self) -> u16 {
        self.chunk_type
    }

    /// Position of the first byte after the header.
    pub open spec fn spec_data_offset(&self) -> int {
        self.spec_offset() + self.spec_header_size()
    }

    /// Position of the first byte after the chunk.
    pub open spec fn spec_chunk_end(&self) -> int {
        self.spec_offset() + self.spec_chunk_size()
    }

    pub fn new(offset: u64, header_size: u16, chunk_size: u32, chunk_type: u16) -> (r: Self)
        ensures
            r.spec_offset() == offset,
            r.spec_header_size() == header_size,
            r.spec_chunk_size() == chunk_size,
            r.spec_token() == chunk_type,
    {
        ChunkHeader { offset, header_size, chunk_size, chunk_type }
    }

    pub fn get_offset(&self) -> (r: u64)
        ensures
            r == self.spec_offset(),
    {
        self.offset
    }

    pub fn get_header_size(&self) -> (r: u16)
        ensures
            r == self.spec_header_size(),
    {
        self.header_size
    }

    pub fn get_token(&self) -> (r: u16)
        ensures
            r == self.spec_token(),
    {
        self.chunk_type
    }

    pub fn get_data_offset(&self) -> (r: u64)
        requires
            self.spec_data_offset() <= u64::MAX,
        ensures
            r == self.spec_data_offset(),
    {
        self.offset + self.header_size as u64
    }

    pub fn get_chunk_end(&self) -> (r: u64)
        requires
            self.spec_chunk_end() <= u64::MAX,
        ensures
            r == self.spec_chunk_end(),
    {
        self.offset + self.chunk_size as u64
    }

    /// The position `relative` bytes after the start of the chunk, which must not lie
    /// past the end of the chunk.
    pub fn absolute(&self, relative: u64) -> (r: u64)
        requires
            self.spec_offset() + relative <= self.spec_chunk_end(),
            self.spec_chunk_end() <= u64::MAX,
        ensures
            r == self.spec_offset() + relative,
    {
        self.offset + relative
    }

    /// The rendering `(Token:<token in hex>; Start: <offset>; Data: <data offset>; End <end>)`.
    pub open spec fn spec_description(&self) -> Seq<char> {
        "(Token:"@ + hex_upper(self.spec_token() as nat) + "; Start: "@ + decimal(
            self.spec_offset() as nat,
        ) + "; Data: "@ + decimal(self.spec_data_offset() as nat) + "; End "@ + decimal(
            self.spec_chunk_end() as nat,
        ) + ")"@
    }

    /// Describes the chunk as `(Token:<token in hex>; Start: <offset>; Data: <data offset>;
    /// End <end>)`.
    pub fn description(&self) -> (r: String)
        requires
            self.spec_data_offset() <= u64::MAX,
            self.spec_chunk_end() <= u64::MAX,
        ensures
            r@ == self.spec_description(),
    {
        let mut s = String::new();
        push_str(&mut s, "(Token:");
        push_hex_upper(&mut s, self.chunk_type as u64);
        push_str(&mut s, "; Start: ");
        push_decimal(&mut s, self.offset);
        push_str(&mut s, "; Data: ");
        push_decimal(&mut s, self.get_data_offset());
        push_str(&mut s, "; End ");
        push_decimal(&mut s, self.get_chunk_end());
        push_str(&mut s, ")");
        assert(s@ =~= self.spec_description());
        s
    }
}

} // verus!
