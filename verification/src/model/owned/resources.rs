use crate::chunks::TOKEN_RESOURCE;
use crate::endian::{push_u32, u32_bytes};
use crate::errors::Error;
use crate::model::owned::OwnedBuf;
use vstd::prelude::*;

verus! {

/// The encoded bytes of the first `n` of `values`.
pub open spec fn u32s_bytes(values: Seq<u32>, n: nat) -> Seq<u8>
    decreases n,
{
    if n == 0 || n > values.len() {
        Seq::empty()
    } else {
        u32s_bytes(values, (n - 1) as nat) + u32_bytes(values[n - 1])
    }
}

/// The encoded bytes of `n` values are four bytes per value, in order.
pub proof fn lemma_u32s_bytes(values: Seq<u32>, n: nat)
    requires
        n <= values.len(),
    ensures
        u32s_bytes(values, n).len() == 4 * n,
        forall|j: int|
            0 <= j < n ==> #[trigger] u32s_bytes(values, n).subrange(4 * j, 4 * j + 4)
                == u32_bytes(values[j]),
    decreases n,
{
    if n > 0 {
        lemma_u32s_bytes(values, (n - 1) as nat);
        let prev = u32s_bytes(values, (n - 1) as nat);
        let all = u32s_bytes(values, n);
        assert forall|j: int| 0 <= j < n implies #[trigger] all.subrange(4 * j, 4 * j + 4)
            == u32_bytes(values[j]) by {
            if j < n - 1 {
                assert(all.subrange(4 * j, 4 * j + 4) =~= prev.subrange(4 * j, 4 * j + 4));
            } else {
                assert(all.subrange(4 * j, 4 * j + 4) =~= u32_bytes(values[j]));
            }
        }
    }
}

/// Appends the encoded bytes of all of `values`.
pub fn push_u32s(out: &mut Vec<u8>, values: &Vec<u32>)
    ensures
        final(out)@ == old(out)@ + u32s_bytes(values@, values@.len()),
{
    let mut i: usize = 0;
    while i < values.len()
        invariant
            i <= values@.len(),
            out@ == old(out)@ + u32s_bytes(values@, i as nat),
        decreases values@.len() - i,
    {
        push_u32(out, values[i]);
        i = i + 1;
        assert(out@ =~= old(out)@ + u32s_bytes(values@, i as nat));
    }
}

/// Owned form of the chunk that lists resource ids.
#[derive(Debug)]
pub struct ResourcesBuf {
    resources: Vec<u32>,
}

impl ResourcesBuf {
    pub closed spec fn spec_resources(&self) -> Seq<u32> {
        self.resources@
    }

    pub fn push_resource(&mut self, resource: u32)
        ensures
            final(self).spec_resources() == old(self).spec_resources().push(resource),
    {
        self.resources.push(resource);
    }

    pub fn pop_resource(&mut self) -> (r: Option<u32>)
        ensures
            old(self).spec_resources().len() == 0 ==> r is None && final(self).spec_resources()
                == old(self).spec_resources(),
            old(self).spec_resources().len() > 0 ==> r == Some(old(self).spec_resources().last())
                && final(self).spec_resources() == old(self).spec_resources().drop_last(),
    {
        self.resources.pop()
    }
}

/// Popping a resource id just pushed gives it back and leaves the ids as they were.
pub proof fn lemma_push_pop_resource(b: ResourcesBuf, resource: u32)
    ensures
        b.spec_resources().push(resource).len() > 0,
        b.spec_resources().push(resource).last() == resource,
        b.spec_resources().push(resource).drop_last() == b.spec_resources(),
{
    assert(b.spec_resources().push(resource).drop_last() =~= b.spec_resources());
}

impl Default for ResourcesBuf {
    /// An empty list of resources.
    fn default() -> (r: Self)
        ensures
            r.spec_resources() == Seq::<u32>::empty(),
    {
        Self { resources: Vec::new() }
    }
}

impl OwnedBuf for ResourcesBuf {
    open spec fn spec_token(&self) -> u16 {
        TOKEN_RESOURCE
    }

    open spec fn spec_header(&self) -> Seq<u8> {
        Seq::empty()
    }

    open spec fn spec_header_size(&self) -> u16 {
        8
    }

    /// The resource ids, one after the other.
    open spec fn spec_body(&self) -> Seq<u8> {
        u32s_bytes(self.spec_resources(), self.spec_resources().len())
    }

    open spec fn spec_fits(&self) -> bool {
        true
    }

    fn token(&self) -> (r: u16) {
        TOKEN_RESOURCE
    }

    fn body_data(&self) -> (r: Result<Vec<u8>, Error>) {
        let mut out = Vec::new();
        push_u32s(&mut out, &self.resources);
        assert(out@ =~= self.spec_body());
        Ok(out)
    }

    fn header(&self) -> (r: Result<Vec<u8>, Error>) {
        Ok(Vec::new())
    }

    fn header_size(&self) -> (r: u16) {
        8
    }
}

} // verus!
