//! The chunk that lists the resource ids of the attribute names of a XML document.

use super::TOKEN_RESOURCE;
use crate::endian::{
    block_at, get_u32, lemma_agree_by_blocks, lemma_read_u32_placed, lemma_u32_bytes_at, or_eof,
    read_u32_spec, u16_bytes, u32_bytes,
};
use crate::errors::Error;
use crate::model::owned::{
    chunk_bytes, lemma_chunk_layout, lemma_u32s_bytes, u32s_bytes, OwnedBuf, ResourcesBuf,
};
use vstd::prelude::*;

verus! {

/// How many resource ids a resources chunk of announced size `count` holds: a quarter
/// of it less the two words of the chunk header, wrapping around below zero.
pub open spec fn resources_amount(count: u32) -> nat {
    if count / 4 >= 2 {
        (count / 4 - 2) as nat
    } else {
        (count / 4 + u32::MAX - 1) as nat
    }
}

/// The resource ids of a resources chunk: as many `u32` after the first eight bytes as
/// `resources_amount` gives for its announced size, when that size lies inside the chunk
/// and the chunk holds them all.
pub open spec fn resources_spec(data: Seq<u8>) -> Result<Seq<u32>, Error> {
    match read_u32_spec(data, 4) {
        None => Err(Error::UnexpectedEof),
        Some(count) => if count > (data.len() as u32) {
            Err(Error::ResourcesCountOutOfBounds { buffer_len: data.len() as u32, count })
        } else if 8 + 4 * resources_amount(count) > data.len() {
            Err(Error::UnexpectedEof)
        } else {
            Ok(
                Seq::new(
                    resources_amount(count),
                    |k: int| read_u32_spec(data, 8 + 4 * k)->Some_0,
                ),
            )
        },
    }
}

#[derive(Debug)]
pub struct ResourceWrapper<'a> {
    raw_data: &'a [u8],
}

impl<'a> View for ResourceWrapper<'a> {
    type V = Seq<u8>;

    closed spec fn view(&self) -> Seq<u8> {
        self.raw_data@
    }
}

impl<'a> ResourceWrapper<'a> {
    pub fn new(raw_data: &'a [u8]) -> (r: Self)
        ensures
            r@ == raw_data@,
    {
        Self { raw_data }
    }

    pub fn get_resources(&self) -> (r: Result<Vec<u32>, Error>)
        ensures
            match (r, resources_spec(self@)) {
                (Ok(v), Ok(s)) => v@ == s,
                (Err(e), Err(f)) => e == f,
                _ => false,
            },
    {
        let count = get_u32(self.raw_data, 4)?;
        let quarter = count / 4;
        let amount_of_resources: u32 = if quarter >= 2 {
            quarter - 2
        } else {
            quarter + (u32::MAX - 1)
        };
        let buffer_len = self.raw_data.len() as u32;
        if count > buffer_len {
            return Err(Error::ResourcesCountOutOfBounds { buffer_len, count });
        }
        let mut resources = Vec::new();
        let mut i: u32 = 0;
        while i < amount_of_resources
            invariant
                i <= amount_of_resources,
                amount_of_resources == resources_amount(count),
                count <= self@.len() as u32,
                read_u32_spec(self@, 4) == Some(count),
                8 + 4 * i <= self@.len(),
                resources@.len() == i,
                forall|k: int|
                    0 <= k < i ==> resources@[k] == #[trigger] read_u32_spec(
                        self@,
                        8 + 4 * k,
                    )->Some_0,
            decreases amount_of_resources - i,
        {
            let pos: u64 = 8 + 4 * (i as u64);
            let v = match get_u32(self.raw_data, pos) {
                Ok(v) => v,
                Err(e) => {
                    assert(8 + 4 * resources_amount(count) > self@.len());
                    return Err(e);
                },
            };
            resources.push(v);
            i = i + 1;
        }
        proof {
            let s = resources_spec(self@)->Ok_0;
            assert(resources@ =~= s);
        }
        Ok(resources)
    }

    pub fn to_buffer(&self) -> (r: Result<ResourcesBuf, Error>)
        ensures
            match (r, resources_spec(self@)) {
                (Ok(b), Ok(s)) => b.spec_resources() == s,
                (Err(e), Err(f)) => e == f,
                _ => false,
            },
    {
        let mut owned = ResourcesBuf::default();
        let resources = self.get_resources()?;
        let mut i: usize = 0;
        while i < resources.len()
            invariant
                i <= resources@.len(),
                owned.spec_resources() == resources@.subrange(0, i as int),
            decreases resources@.len() - i,
        {
            owned.push_resource(resources[i]);
            i = i + 1;
            assert(owned.spec_resources() =~= resources@.subrange(0, i as int));
        }
        assert(resources@.subrange(0, i as int) =~= resources@);
        Ok(owned)
    }
}

/// The bytes of an encoded list of resource ids.
pub open spec fn resources_bytes(b: ResourcesBuf) -> Seq<u8> {
    chunk_bytes(b.spec_token(), b.spec_header_size(), b.spec_header(), b.spec_body())
}

/// A list of resource ids, encoded and read back, gives the ids it was written with.
pub proof fn lemma_resources_roundtrip(b: ResourcesBuf)
    requires
        8 + 4 * b.spec_resources().len() <= u32::MAX,
    ensures
        resources_spec(resources_bytes(b)) == Ok::<Seq<u32>, Error>(b.spec_resources()),
{
    let ids = b.spec_resources();
    let n = ids.len() as int;
    let body = b.spec_body();
    let c = resources_bytes(b);
    lemma_u32s_bytes(ids, n as nat);
    lemma_chunk_layout(b.spec_token(), b.spec_header_size(), b.spec_header(), body);
    let count = (8 + 4 * n) as u32;
    assert(c.subrange(4, 8) == u32_bytes(count));
    lemma_read_u32_placed(c, 4, count);
    assert(c.len() == 8 + 4 * n);
    assert(c.subrange(8, c.len() as int) == body);
    let read = Seq::new((count / 4 - 2) as nat, |k: int| read_u32_spec(c, 8 + 4 * k)->Some_0);
    assert forall|k: int| 0 <= k < n implies read[k] == ids[k] by {
        assert(body.subrange(4 * k, 4 * k + 4) == u32_bytes(ids[k]));
        assert(c.subrange(8 + 4 * k, 8 + 4 * k + 4) =~= body.subrange(4 * k, 4 * k + 4)) by {
            assert(c.subrange(8 + 4 * k, 8 + 4 * k + 4) =~= c.subrange(8, c.len() as int).subrange(
                4 * k,
                4 * k + 4,
            ));
        }
        lemma_read_u32_placed(c, 8 + 4 * k, ids[k]);
    }
    assert(read =~= ids);
}

/// A list of resource ids read from bytes writes them back, when they are laid out as it
/// writes them: announced with their length, a multiple of four, and a header of eight
/// bytes.
pub proof fn lemma_resources_identity(data: Seq<u8>, b: ResourcesBuf)
    requires
        8 <= data.len() <= u32::MAX,
        data.len() % 4 == 0,
        data.subrange(0, 8) == u16_bytes(TOKEN_RESOURCE) + u16_bytes(8) + u32_bytes(
            data.len() as u32,
        ),
        resources_spec(data) == Ok::<Seq<u32>, Error>(b.spec_resources()),
    ensures
        resources_bytes(b) == data,
{
    let ids = b.spec_resources();
    let c = resources_bytes(b);
    let body = b.spec_body();
    assert(data.subrange(4, 8) =~= data.subrange(0, 8).subrange(4, 8));
    assert((u16_bytes(TOKEN_RESOURCE) + u16_bytes(8) + u32_bytes(data.len() as u32)).subrange(4, 8)
        =~= u32_bytes(data.len() as u32));
    lemma_read_u32_placed(data, 4, data.len() as u32);
    let n = ids.len() as int;
    assert(n == (data.len() as u32) / 4 - 2);
    lemma_u32s_bytes(ids, n as nat);
    lemma_chunk_layout(b.spec_token(), b.spec_header_size(), b.spec_header(), body);
    assert(c.len() == data.len());
    assert(c.subrange(0, 8) =~= data.subrange(0, 8));
    assert forall|i: int| 0 <= i < n implies #[trigger] block_at(c, 8, 4, i) == block_at(data, 8, 4, i) by {
        assert(ids[i] == read_u32_spec(data, 8 + 4 * i)->Some_0);
        lemma_u32_bytes_at(data, 8 + 4 * i);
        assert(body.subrange(4 * i, 4 * i + 4) == u32_bytes(ids[i]));
        assert(c.subrange(8 + 4 * i, 12 + 4 * i) =~= body.subrange(4 * i, 4 * i + 4));
    }
    lemma_agree_by_blocks(c, data, 8, 4, n);
}

/// Pushing a resource id onto a list makes its encoding four bytes longer: the same bytes
/// after the chunk header, then the new id; read back, it gives the ids with the new one
/// last.
pub proof fn lemma_push_resource_bytes(before: ResourcesBuf, after: ResourcesBuf, resource: u32)
    requires
        after.spec_resources() == before.spec_resources().push(resource),
        8 + 4 * after.spec_resources().len() <= u32::MAX,
    ensures
        resources_bytes(after).len() == resources_bytes(before).len() + 4,
        resources_bytes(after).subrange(8, resources_bytes(before).len() as int)
            == resources_bytes(before).subrange(8, resources_bytes(before).len() as int),
        resources_bytes(after).subrange(
            resources_bytes(before).len() as int,
            resources_bytes(after).len() as int,
        ) == u32_bytes(resource),
        resources_spec(resources_bytes(after)) == Ok::<Seq<u32>, Error>(
            before.spec_resources().push(resource),
        ),
{
    let ids = before.spec_resources();
    let n = ids.len();
    lemma_u32s_bytes(ids, n);
    lemma_u32s_bytes(after.spec_resources(), n + 1);
    lemma_chunk_layout(before.spec_token(), before.spec_header_size(), before.spec_header(), before.spec_body());
    lemma_chunk_layout(after.spec_token(), after.spec_header_size(), after.spec_header(), after.spec_body());
    let b0 = before.spec_body();
    let b1 = after.spec_body();
    assert(u32s_bytes(after.spec_resources(), n) == u32s_bytes(ids, n)) by {
        lemma_u32s_prefix(after.spec_resources(), ids, n);
    }
    assert(b1 == b0 + u32_bytes(resource));
    let c0 = resources_bytes(before);
    let c1 = resources_bytes(after);
    assert(c1.subrange(8, c0.len() as int) =~= b1.subrange(0, b0.len() as int));
    assert(c0.subrange(8, c0.len() as int) =~= b0);
    assert(b1.subrange(0, b0.len() as int) =~= b0);
    assert(c1.subrange(c0.len() as int, c1.len() as int) =~= b1.subrange(b0.len() as int, b1.len() as int));
    assert(b1.subrange(b0.len() as int, b1.len() as int) =~= u32_bytes(resource));
    lemma_resources_roundtrip(after);
}

/// The encodings of the first `n` ids of two lists that agree on them are the same.
proof fn lemma_u32s_prefix(a: Seq<u32>, b: Seq<u32>, n: nat)
    requires
        n <= a.len(),
        n <= b.len(),
        forall|i: int| 0 <= i < n ==> a[i] == b[i],
    ensures
        u32s_bytes(a, n) == u32s_bytes(b, n),
    decreases n,
{
    if n > 0 {
        lemma_u32s_prefix(a, b, (n - 1) as nat);
    }
}

} // verus!
