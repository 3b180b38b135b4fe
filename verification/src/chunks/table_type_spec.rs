//! The chunk that holds the flags of the entries of one type.

use super::TOKEN_TABLE_SPEC;
use crate::endian::{
    block_at, get_u32, lemma_agree_by_blocks, lemma_read_u32_in_part, lemma_u32_bytes_at, or_eof,
    read_u32_spec, u16_bytes, u32_at, u32_bytes,
};
use crate::errors::Error;
use crate::model::owned::{
    chunk_bytes, lemma_chunk_layout, u32s_bytes, OwnedBuf, TableTypeSpecBuf,
};
use crate::model::TypeSpec;
use vstd::prelude::*;

verus! {

/// The id of a type-spec chunk: the low byte of the `u32` at 8.
pub open spec fn type_spec_id(data: Seq<u8>) -> Result<u16, Error> {
    match read_u32_spec(data, 8) {
        Some(v) => Ok((v % 256) as u16),
        None => Err(Error::UnexpectedEof),
    }
}

/// The flag at `index` of a type-spec chunk, when `index` is below the announced amount.
pub open spec fn type_spec_flag(data: Seq<u8>, index: u32) -> Result<u32, Error> {
    match read_u32_spec(data, 12) {
        None => Err(Error::UnexpectedEof),
        Some(amount) => if index >= amount {
            Err(Error::InvalidFlag { index, amount })
        } else {
            or_eof(read_u32_spec(data, 16 + 4 * index))
        },
    }
}

/// Whether the id, the amount and all the flags of a type-spec chunk are there.
pub open spec fn type_spec_decodes(data: Seq<u8>) -> bool {
    &&& type_spec_id(data) is Ok
    &&& read_u32_spec(data, 12) matches Some(amount) && 16 + 4 * amount <= data.len()
}

#[derive(Debug, Clone, Copy)]
pub struct TypeSpecWrapper<'a> {
    raw_data: &'a [u8],
}

impl<'a> View for TypeSpecWrapper<'a> {
    type V = Seq<u8>;

    closed spec fn view(&self) -> Seq<u8> {
        self.raw_data@
    }
}

impl<'a> TypeSpecWrapper<'a> {
    pub fn new(raw_data: &'a [u8]) -> (r: Self)
        ensures
            r@ == raw_data@,
    {
        Self { raw_data }
    }

    /// Copies the id and all the flags into a `TableTypeSpecBuf`.
    pub fn to_owned(self) -> (r: Result<TableTypeSpecBuf, Error>)
        requires
            self@.len() <= u32::MAX,
        ensures
            r is Ok <==> type_spec_decodes(self@),
            match r {
                Ok(b) => {
                    &&& type_spec_id(self@) == Ok::<u16, Error>(b.spec_id_value())
                    &&& read_u32_spec(self@, 12) == Some(b.spec_flags().len() as u32)
                    &&& forall|i: int|
                        0 <= i < b.spec_flags().len() ==> read_u32_spec(self@, 16 + 4 * i)
                            == Some(#[trigger] b.spec_flags()[i])
                },
                Err(e) => e == Error::UnexpectedEof && !type_spec_decodes(self@),
            },
    {
        let id = self.id()?;
        let mut owned = TableTypeSpecBuf::new(id);
        let amount = self.amount()?;
        let mut i: u32 = 0;
        while i < amount
            invariant
                i <= amount,
                self@.len() <= u32::MAX,
                read_u32_spec(self@, 12) == Some(amount),
                16 + 4 * i <= self@.len(),
                type_spec_id(self@) == Ok::<u16, Error>(owned.spec_id_value()),
                owned.spec_flags().len() == i,
                forall|k: int|
                    0 <= k < i ==> read_u32_spec(self@, 16 + 4 * k) == Some(
                        #[trigger] owned.spec_flags()[k],
                    ),
            decreases amount - i,
        {
            let flag = self.flag(i)?;
            owned.push_flag(flag);
            i = i + 1;
        }
        Ok(owned)
    }
}

impl<'a> TypeSpec for TypeSpecWrapper<'a> {
    open spec fn spec_id(&self) -> Result<u16, Error> {
        type_spec_id(self@)
    }

    open spec fn spec_amount(&self) -> Result<u32, Error> {
        or_eof(read_u32_spec(self@, 12))
    }

    /// The offset of a flag is computed in 32 bits: flags at index 2^30 and above that
    /// lie below the amount are out of reach.
    open spec fn spec_flag_requires(&self, index: u32) -> bool {
        (read_u32_spec(self@, 12) matches Some(amount) && index < amount) ==> index < 0x4000_0000
    }

    open spec fn spec_flag(&self, index: u32) -> Result<u32, Error> {
        type_spec_flag(self@, index)
    }

    fn id(&self) -> (r: Result<u16, Error>) {
        let v = get_u32(self.raw_data, 8)?;
        assert(v & 0xFF == v % 256) by (bit_vector);
        Ok((v & 0xFF) as u16)
    }

    fn amount(&self) -> (r: Result<u32, Error>) {
        get_u32(self.raw_data, 12)
    }

    fn flag(&self, index: u32) -> (r: Result<u32, Error>) {
        let amount = self.amount()?;
        if index >= amount {
            return Err(Error::InvalidFlag { index, amount });
        }
        let flag_offset = 16 + (index * 4) as u64;
        get_u32(self.raw_data, flag_offset)
    }
}

/// A type spec whose id is below 256 that is encoded and read back has the same id and
/// the same flags.
pub proof fn lemma_type_spec_roundtrip(b: TableTypeSpecBuf)
    requires
        b.spec_id_value() < 256,
        b.spec_flags().len() <= 0x3FFF_FFFF,
    ensures
        ({
            let c = chunk_bytes(b.spec_token(), b.spec_header_size(), b.spec_header(), b.spec_body());
            &&& type_spec_id(c) == Ok::<u16, Error>(b.spec_id_value())
            &&& read_u32_spec(c, 12) == Some(b.spec_flags().len() as u32)
            &&& forall|i: u32|
                i < b.spec_flags().len() ==> #[trigger] type_spec_flag(c, i) == Ok::<u32, Error>(
                    b.spec_flags()[i as int],
                )
        }),
{
    let c = chunk_bytes(b.spec_token(), b.spec_header_size(), b.spec_header(), b.spec_body());
    let header = b.spec_header();
    let body = b.spec_body();
    let flags = b.spec_flags();
    lemma_chunk_layout(b.spec_token(), b.spec_header_size(), header, body);
    assert(header.subrange(0, 4) =~= u32_bytes(b.spec_id_value() as u32));
    assert(header.subrange(4, 8) =~= u32_bytes(flags.len() as u32));
    lemma_read_u32_in_part(c, 8, header, 0, b.spec_id_value() as u32);
    lemma_read_u32_in_part(c, 8, header, 4, flags.len() as u32);
    crate::model::owned::lemma_u32s_bytes(flags, flags.len());
    assert forall|i: u32| i < flags.len() implies #[trigger] type_spec_flag(c, i) == Ok::<
        u32,
        Error,
    >(flags[i as int]) by {
        assert(body.subrange(4 * i, 4 * i + 4) == u32_bytes(flags[i as int]));
        lemma_read_u32_in_part(c, 16, body, 4 * i, flags[i as int]);
    }
}

/// A type spec read from bytes writes them back, when they are laid out as it writes them:
/// announced with their length and a header of sixteen bytes, an id below 256, and
/// exactly as many flags as announced.
pub proof fn lemma_type_spec_identity(data: Seq<u8>, b: TableTypeSpecBuf)
    requires
        16 <= data.len() <= u32::MAX,
        data.subrange(0, 8) == u16_bytes(TOKEN_TABLE_SPEC) + u16_bytes(16) + u32_bytes(
            data.len() as u32,
        ),
        read_u32_spec(data, 8) matches Some(id) && id < 256,
        data.len() == 16 + 4 * b.spec_flags().len(),
        type_spec_id(data) == Ok::<u16, Error>(b.spec_id_value()),
        read_u32_spec(data, 12) == Some(b.spec_flags().len() as u32),
        forall|i: int|
            0 <= i < b.spec_flags().len() ==> read_u32_spec(data, 16 + 4 * i) == Some(
                #[trigger] b.spec_flags()[i],
            ),
    ensures
        chunk_bytes(b.spec_token(), b.spec_header_size(), b.spec_header(), b.spec_body()) == data,
{
    let flags = b.spec_flags();
    let n = flags.len() as int;
    let c = chunk_bytes(b.spec_token(), b.spec_header_size(), b.spec_header(), b.spec_body());
    let body = b.spec_body();
    lemma_chunk_layout(b.spec_token(), b.spec_header_size(), b.spec_header(), body);
    crate::model::owned::lemma_u32s_bytes(flags, flags.len());
    lemma_u32_bytes_at(data, 8);
    lemma_u32_bytes_at(data, 12);
    assert(u32_at(data, 8) == b.spec_id_value() as u32);
    assert(c.subrange(0, 8) =~= data.subrange(0, 8));
    assert(c.subrange(8, 16) =~= data.subrange(8, 16)) by {
        assert(c.subrange(8, 16) == b.spec_header());
        assert(data.subrange(8, 16) =~= data.subrange(8, 12) + data.subrange(12, 16));
    }
    assert(c.subrange(0, 16) =~= data.subrange(0, 16)) by {
        assert(c.subrange(0, 16) =~= c.subrange(0, 8) + c.subrange(8, 16));
        assert(data.subrange(0, 16) =~= data.subrange(0, 8) + data.subrange(8, 16));
    }
    assert forall|i: int| 0 <= i < n implies #[trigger] block_at(c, 16, 4, i) == block_at(data, 16, 4, i) by {
        assert(read_u32_spec(data, 16 + 4 * i) == Some(flags[i]));
        lemma_u32_bytes_at(data, 16 + 4 * i);
        assert(body.subrange(4 * i, 4 * i + 4) == u32_bytes(flags[i]));
        assert(c.subrange(16 + 4 * i, 20 + 4 * i) =~= body.subrange(4 * i, 4 * i + 4));
    }
    lemma_agree_by_blocks(c, data, 16, 4, n);
}

/// A flag pushed onto a type spec whose id is below 256 is read back, encoded, at the
/// index it was pushed at, after the flags that were there, which read back as before;
/// the amount of flags grows by one.
pub proof fn lemma_push_flag_read_back(before: TableTypeSpecBuf, after: TableTypeSpecBuf, flag: u32)
    requires
        before.spec_id_value() < 256,
        after.spec_id_value() == before.spec_id_value(),
        after.spec_flags() == before.spec_flags().push(flag),
        after.spec_flags().len() <= 0x3FFF_FFFF,
    ensures
        ({
            let c = chunk_bytes(after.spec_token(), after.spec_header_size(), after.spec_header(), after.spec_body());
            let n = before.spec_flags().len();
            &&& type_spec_id(c) == Ok::<u16, Error>(before.spec_id_value())
            &&& read_u32_spec(c, 12) == Some((n + 1) as u32)
            &&& type_spec_flag(c, n as u32) == Ok::<u32, Error>(flag)
            &&& forall|i: u32|
                i < n ==> #[trigger] type_spec_flag(c, i) == Ok::<u32, Error>(before.spec_flags()[i as int])
        }),
{
    lemma_type_spec_roundtrip(after);
    let n = before.spec_flags().len();
    assert(after.spec_flags()[n as int] == flag);
    assert forall|i: u32| i < n implies after.spec_flags()[i as int] == before.spec_flags()[i as int] by {}
}

} // verus!
