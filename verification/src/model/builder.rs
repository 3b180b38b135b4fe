//! Builders of whole binary documents from owned chunks.

use crate::endian::{push_bytes, push_u16, push_u32, u16_bytes, u32_bytes};
use crate::errors::Error;
use crate::model::owned::{chunk_bytes, concat_bytes, OwnedBuf};
use vstd::prelude::*;

verus! {

/// The encoded bytes of an owned chunk.
pub open spec fn encoded_chunk<B: OwnedBuf>(chunk: &B) -> Seq<u8> {
    chunk_bytes(chunk.spec_token(), chunk.spec_header_size(), chunk.spec_header(), chunk.spec_body())
}

/// Whether an owned chunk can be encoded.
pub open spec fn encodable<B: OwnedBuf>(chunk: &B) -> bool {
    chunk.spec_fits() && chunk.spec_body().len() + chunk.spec_header_size() <= u32::MAX
}

/// Appends the encoded bytes of all of `chunks`.
fn push_all(out: &mut Vec<u8>, chunks: &Vec<Vec<u8>>)
    ensures
        final(out)@ == old(out)@ + concat_bytes(
            chunks@.map_values(|c: Vec<u8>| c@),
            chunks@.len(),
        ),
{
    let ghost parts = chunks@.map_values(|c: Vec<u8>| c@);
    let mut i: usize = 0;
    while i < chunks.len()
        invariant
            i <= chunks@.len(),
            parts == chunks@.map_values(|c: Vec<u8>| c@),
            out@ == old(out)@ + concat_bytes(parts, i as nat),
        decreases chunks@.len() - i,
    {
        push_bytes(out, chunks[i].as_slice());
        i = i + 1;
        assert(out@ =~= old(out)@ + concat_bytes(parts, i as nat));
    }
}

/// The total length of the encoded chunks.
fn total_len(chunks: &Vec<Vec<u8>>) -> (r: usize)
    requires
        concat_bytes(chunks@.map_values(|c: Vec<u8>| c@), chunks@.len()).len() <= usize::MAX,
    ensures
        r == concat_bytes(chunks@.map_values(|c: Vec<u8>| c@), chunks@.len()).len(),
{
    let ghost parts = chunks@.map_values(|c: Vec<u8>| c@);
    let mut total: usize = 0;
    let mut i: usize = 0;
    while i < chunks.len()
        invariant
            i <= chunks@.len(),
            parts == chunks@.map_values(|c: Vec<u8>| c@),
            concat_bytes(parts, parts.len()).len() <= usize::MAX,
            total == concat_bytes(parts, i as nat).len(),
        decreases chunks@.len() - i,
    {
        proof {
            lemma_concat_bytes_grows(parts, (i + 1) as nat, parts.len());
        }
        total = total + chunks[i].len();
        i = i + 1;
    }
    total
}

/// The bytes of the first parts are no more than those of more parts.
proof fn lemma_concat_bytes_grows(parts: Seq<Seq<u8>>, k: nat, n: nat)
    requires
        k <= n <= parts.len(),
    ensures
        concat_bytes(parts, k).len() <= concat_bytes(parts, n).len(),
    decreases n,
{
    if k < n {
        lemma_concat_bytes_grows(parts, k, (n - 1) as nat);
    }
}

/// Builds a `resources.arsc` file.
pub struct Arsc {
    chunks: Vec<Vec<u8>>,
}

impl Arsc {
    /// The encoded chunks, in order.
    pub closed spec fn spec_chunks(&self) -> Seq<Seq<u8>> {
        self.chunks@.map_values(|c: Vec<u8>| c@)
    }

    pub fn new() -> (r: Self)
        ensures
            r.spec_chunks() == Seq::<Seq<u8>>::empty(),
    {
        let r = Arsc { chunks: Vec::new() };
        assert(r.spec_chunks() =~= Seq::<Seq<u8>>::empty());
        r
    }

    /// Appends a chunk, encoded.
    pub fn push_owned<B: OwnedBuf>(&mut self, chunk: &B) -> (r: Result<(), Error>)
        requires
            encodable(chunk),
        ensures
            r is Ok,
            final(self).spec_chunks() == old(self).spec_chunks().push(encoded_chunk(chunk)),
    {
        let bytes = chunk.to_vec()?;
        let ghost v = bytes@;
        self.chunks.push(bytes);
        assert(self.spec_chunks() =~= old(self).spec_chunks().push(v));
        Ok(())
    }

    /// The file: token 2, a header of twelve bytes whose chunk size is the length of the
    /// chunks (modulo 2^32) and whose package amount is 0, then the chunks.
    pub fn to_vec(&self) -> (r: Result<Vec<u8>, Error>)
        requires
            concat_bytes(self.spec_chunks(), self.spec_chunks().len()).len() <= usize::MAX,
        ensures
            r matches Ok(v) && v@ == u16_bytes(2) + u16_bytes(12) + u32_bytes(
                concat_bytes(self.spec_chunks(), self.spec_chunks().len()).len() as u32,
            ) + u32_bytes(0) + concat_bytes(self.spec_chunks(), self.spec_chunks().len()),
    {
        let file_size = total_len(&self.chunks);
        let mut out = Vec::new();
        push_u16(&mut out, 2);
        push_u16(&mut out, 12);
        push_u32(&mut out, file_size as u32);
        push_u32(&mut out, 0);
        push_all(&mut out, &self.chunks);
        Ok(out)
    }
}

impl Default for Arsc {
    /// A file without chunks.
    fn default() -> (r: Self)
        ensures
            r.spec_chunks() == Seq::<Seq<u8>>::empty(),
    {
        Arsc::new()
    }
}

/// Builds a binary XML document.
pub struct Xml {
    chunks: Vec<Vec<u8>>,
}

impl Xml {
    /// The encoded chunks, in order.
    pub closed spec fn spec_chunks(&self) -> Seq<Seq<u8>> {
        self.chunks@.map_values(|c: Vec<u8>| c@)
    }

    pub fn new() -> (r: Self)
        ensures
            r.spec_chunks() == Seq::<Seq<u8>>::empty(),
    {
        let r = Xml { chunks: Vec::new() };
        assert(r.spec_chunks() =~= Seq::<Seq<u8>>::empty());
        r
    }

    /// Appends a chunk, encoded.
    pub fn push_owned<B: OwnedBuf>(&mut self, chunk: &B) -> (r: Result<(), Error>)
        requires
            encodable(chunk),
        ensures
            r is Ok,
            final(self).spec_chunks() == old(self).spec_chunks().push(encoded_chunk(chunk)),
    {
        let bytes = chunk.to_vec()?;
        let ghost v = bytes@;
        self.chunks.push(bytes);
        assert(self.spec_chunks() =~= old(self).spec_chunks().push(v));
        Ok(())
    }

    /// The document: token 3, a header of eight bytes whose chunk size is the length of
    /// the chunks (modulo 2^32), then the chunks.
    pub fn into_vec(self) -> (r: Result<Vec<u8>, Error>)
        requires
            concat_bytes(self.spec_chunks(), self.spec_chunks().len()).len() <= usize::MAX,
        ensures
            r matches Ok(v) && v@ == u16_bytes(3) + u16_bytes(8) + u32_bytes(
                concat_bytes(self.spec_chunks(), self.spec_chunks().len()).len() as u32,
            ) + concat_bytes(self.spec_chunks(), self.spec_chunks().len()),
    {
        let file_size = total_len(&self.chunks);
        let mut out = Vec::new();
        push_u16(&mut out, 3);
        push_u16(&mut out, 8);
        push_u32(&mut out, file_size as u32);
        push_all(&mut out, &self.chunks);
        Ok(out)
    }
}

impl Default for Xml {
    /// A document without chunks.
    fn default() -> (r: Self)
        ensures
            r.spec_chunks() == Seq::<Seq<u8>>::empty(),
    {
        Xml::new()
    }
}

} // verus!
