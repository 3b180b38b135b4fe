use crate::chunks::package::{name_ends_at, name_length, package_name, zero_pair_at};
use crate::chunks::TOKEN_PACKAGE;
use crate::codec::{lemma_utf16le_text_of_bytes, utf16le_bytes, utf16le_encode};
use crate::endian::{lemma_read_u32_in_part, push_bytes, push_u32, push_u8, read_u32_spec, u32_bytes};
use crate::errors::Error;
use crate::model::owned::{chunk_bytes, lemma_chunk_layout, OwnedBuf};
use vstd::prelude::*;
use vstd::utf8::encode_utf8;

verus! {

/// The first `n` of a list of byte strings, one after the other.
pub open spec fn concat_bytes(parts: Seq<Seq<u8>>, n: nat) -> Seq<u8>
    decreases n,
{
    if n == 0 || n > parts.len() {
        Seq::empty()
    } else {
        concat_bytes(parts, (n - 1) as nat) + parts[n - 1]
    }
}

/// Owned form of a package: its id, its name and the chunks it holds, kept encoded.
#[derive(Debug)]
pub struct PackageBuf {
    id: u32,
    package_name: String,
    inner_chunks: Vec<Vec<u8>>,
}

impl PackageBuf {
    pub closed spec fn spec_id_value(&self) -> u32 {
        self.id
    }

    pub closed spec fn spec_name(&self) -> Seq<char> {
        self.package_name@
    }

    /// The encoded chunks, in order.
    pub closed spec fn spec_chunks(&self) -> Seq<Seq<u8>> {
        self.inner_chunks@.map_values(|c: Vec<u8>| c@)
    }

    /// A package without chunks; its name may take at most 256 bytes of UTF-8.
    pub fn new(id: u32, package_name: String) -> (r: Result<Self, Error>)
        ensures
            encode_utf8(package_name@).len() > 256 ==> r == Err::<Self, Error>(
                Error::PackageNameTooLong,
            ),
            encode_utf8(package_name@).len() <= 256 ==> (r matches Ok(p) && p.spec_id_value() == id
                && p.spec_name() == package_name@ && p.spec_chunks() == Seq::<Seq<u8>>::empty()),
    {
        if package_name.as_str().as_bytes().len() > 256 {
            return Err(Error::PackageNameTooLong);
        }
        let p = PackageBuf { id, package_name, inner_chunks: Vec::new() };
        assert(p.spec_chunks() =~= Seq::<Seq<u8>>::empty());
        Ok(p)
    }

    /// Appends a chunk, encoded.
    pub fn add_chunk<B: OwnedBuf>(&mut self, chunk: &B) -> (r: Result<(), Error>)
        requires
            chunk.spec_fits(),
            chunk.spec_body().len() + chunk.spec_header_size() <= u32::MAX,
        ensures
            r is Ok,
            final(self).spec_chunks() == old(self).spec_chunks().push(
                chunk_bytes(
                    chunk.spec_token(),
                    chunk.spec_header_size(),
                    chunk.spec_header(),
                    chunk.spec_body(),
                ),
            ),
            final(self).spec_id_value() == old(self).spec_id_value(),
            final(self).spec_name() == old(self).spec_name(),
    {
        let bytes = chunk.to_vec()?;
        let ghost v = bytes@;
        self.inner_chunks.push(bytes);
        assert(self.spec_chunks() =~= old(self).spec_chunks().push(v));
        Ok(())
    }
}

impl OwnedBuf for PackageBuf {
    open spec fn spec_token(&self) -> u16 {
        TOKEN_PACKAGE
    }

    /// The id, then the name in UTF-16, padded with zero bytes to 256 bytes, then the
    /// five zero `u32` of the offsets that this package leaves unset: 280 bytes.
    open spec fn spec_header(&self) -> Seq<u8> {
        let name = utf16le_bytes(self.spec_name());
        u32_bytes(self.spec_id_value()) + name + Seq::new(
            (276 - name.len()) as nat,
            |i: int| 0u8,
        )
    }

    /// Always 288: the eight bytes of the chunk header and the 280 that follow them.
    open spec fn spec_header_size(&self) -> u16 {
        288
    }

    /// The chunks, one after the other.
    open spec fn spec_body(&self) -> Seq<u8> {
        concat_bytes(self.spec_chunks(), self.spec_chunks().len())
    }

    /// The name takes at most 256 bytes of UTF-16.
    open spec fn spec_fits(&self) -> bool {
        utf16le_bytes(self.spec_name()).len() <= 256
    }

    fn token(&self) -> (r: u16) {
        TOKEN_PACKAGE
    }

    fn header(&self) -> (r: Result<Vec<u8>, Error>) {
        let mut out = Vec::new();
        push_u32(&mut out, self.id);
        let (_size, encoded) = utf16le_encode(self.package_name.as_str());
        push_bytes(&mut out, encoded.as_slice());
        let ghost before = out@;
        let padding: usize = 276 - encoded.len();
        let mut k: usize = 0;
        while k < padding
            invariant
                k <= padding,
                out@ == before + Seq::new(k as nat, |i: int| 0u8),
            decreases padding - k,
        {
            push_u8(&mut out, 0);
            k = k + 1;
            assert(out@ =~= before + Seq::new(k as nat, |i: int| 0u8));
        }
        assert(out@ =~= self.spec_header());
        Ok(out)
    }

    fn header_size(&self) -> (r: u16) {
        288
    }

    fn body_data(&self) -> (r: Result<Vec<u8>, Error>) {
        let ghost parts = self.spec_chunks();
        let mut out = Vec::new();
        let mut i: usize = 0;
        while i < self.inner_chunks.len()
            invariant
                parts == self.spec_chunks(),
                i <= self.inner_chunks@.len(),
                out@ == concat_bytes(parts, i as nat),
            decreases self.inner_chunks@.len() - i,
        {
            push_bytes(&mut out, self.inner_chunks[i].as_slice());
            i = i + 1;
            assert(out@ =~= concat_bytes(parts, i as nat));
        }
        Ok(out)
    }
}

/// The bytes of an encoded package.
pub open spec fn package_bytes(b: PackageBuf) -> Seq<u8> {
    chunk_bytes(b.spec_token(), b.spec_header_size(), b.spec_header(), b.spec_body())
}

/// Where the id and the name lie in an encoded package: the id at 8, the UTF-16 bytes of
/// the name from 12, then zero bytes.
#[verifier::spinoff_prover]
proof fn lemma_package_layout(b: PackageBuf)
    requires
        b.spec_body().len() + 288 <= u32::MAX,
        b.spec_fits(),
    ensures
        package_bytes(b).len() >= 288,
        read_u32_spec(package_bytes(b), 8) == Some(b.spec_id_value()),
        forall|j: int|
            0 <= j < utf16le_bytes(b.spec_name()).len() ==> #[trigger] package_bytes(b)[12 + j]
                == utf16le_bytes(b.spec_name())[j],
        forall|j: int|
            utf16le_bytes(b.spec_name()).len() <= j < 276 ==> #[trigger] package_bytes(b)[12 + j]
                == 0,
{
    let name = b.spec_name();
    let u = utf16le_bytes(name);
    let m = u.len() as int;
    let h = b.spec_header();
    let c = package_bytes(b);
    lemma_chunk_layout(b.spec_token(), b.spec_header_size(), h, b.spec_body());
    let pad = Seq::new((276 - m) as nat, |i: int| 0u8);
    assert(h == u32_bytes(b.spec_id_value()) + u + pad);
    let part = c.subrange(8, 8 + h.len() as int);
    assert(part == h);
    assert(h.subrange(0, 4) =~= u32_bytes(b.spec_id_value()));
    lemma_read_u32_in_part(c, 8, h, 0, b.spec_id_value());
    assert forall|j: int| 0 <= j < m implies #[trigger] c[12 + j] == u[j] by {
        assert(part[4 + j] == c[12 + j]);
        assert(h[4 + j] == u[j]);
    }
    assert forall|j: int| m <= j < 276 implies #[trigger] c[12 + j] == 0 by {
        assert(part[4 + j] == c[12 + j]);
        assert(h[4 + j] == pad[j - m]);
    }
}

/// A package, encoded and read back, has the id and the name it was given, when the
/// name's UTF-16 bytes, two to 256 of them, hold no two zero bytes in a row and, short of
/// 256, end in a zero byte (as those of every name of ASCII characters other than NUL do).
#[verifier::spinoff_prover]
pub proof fn lemma_package_roundtrip(b: PackageBuf)
    requires
        b.spec_body().len() + 288 <= u32::MAX,
        2 <= utf16le_bytes(b.spec_name()).len() <= 256,
        forall|j: int|
            1 <= j < utf16le_bytes(b.spec_name()).len() ==> !(utf16le_bytes(b.spec_name())[j - 1]
                == 0 && #[trigger] utf16le_bytes(b.spec_name())[j] == 0),
        utf16le_bytes(b.spec_name()).len() < 256 ==> utf16le_bytes(b.spec_name()).last() == 0,
    ensures
        read_u32_spec(package_bytes(b), 8) == Some(b.spec_id_value()),
        package_name(package_bytes(b)) == Ok::<Seq<char>, Error>(b.spec_name()),
{
    let name = b.spec_name();
    let u = utf16le_bytes(name);
    let m = u.len() as int;
    lemma_utf16le_text_of_bytes(name);
    lemma_package_layout(b);
    let c = package_bytes(b);
    assert forall|j: int| 1 <= j < m implies !#[trigger] zero_pair_at(c, j) by {
        assert(c[12 + (j - 1)] == u[j - 1]);
        assert(c[12 + j] == u[j]);
    }
    if m < 256 {
        assert(c[12 + (m - 1)] == u[m - 1]);
        assert(c[12 + m] == 0);
        assert(name_ends_at(c, m));
        let k0 = choose|k: int| name_ends_at(c, k);
        if k0 < m {
            assert(zero_pair_at(c, k0));
        } else if k0 > m {
            assert(!zero_pair_at(c, m));
        }
        assert(name_length(c) == m);
    } else {
        assert(!exists|k: int| name_ends_at(c, k)) by {
            if exists|k: int| name_ends_at(c, k) {
                let k0 = choose|k: int| name_ends_at(c, k);
                assert(zero_pair_at(c, k0));
            }
        }
        assert(name_length(c) == 256);
    }
    assert forall|j: int| 0 <= j < m implies c.subrange(12, 12 + m)[j] == u[j] by {
        assert(c[12 + j] == u[j]);
    }
    assert(c.subrange(12, 12 + m) =~= u);
}

} // verus!
