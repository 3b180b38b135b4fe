//! Which runs of chunks a stream can walk, and that documents built from owned chunks are
//! such runs.

use crate::chunks::{stream_done, stream_error, stream_in_bounds, stream_next_position, TOKEN_PACKAGE};
use crate::endian::{read_u16_spec, u16_at, u16_bytes, u32_at, u32_bytes};
use crate::errors::Error;
use crate::model::builder::{encodable, encoded_chunk, Arsc, Xml};
use crate::model::owned::{concat_bytes, lemma_chunk_layout, OwnedBuf, PackageBuf};
use crate::visitor::{walk_result, walkable};
use vstd::prelude::*;

verus! {

/// Whether `s` is a run of chunks that each announce a length of at least eight bytes
/// inside the run, none of them a package.
pub open spec fn flat_run(s: Seq<u8>) -> bool
    decreases s.len(),
{
    if s.len() == 0 {
        true
    } else if s.len() < 8 || u16_at(s, 0) == TOKEN_PACKAGE || u32_at(s, 4) < 8 || u32_at(s, 4)
        > s.len() {
        false
    } else {
        flat_run(s.subrange(u32_at(s, 4) as int, s.len() as int))
    }
}

/// Whether `s` is a run of chunks that each announce a length of at least eight bytes
/// inside the run; a package among them announces a header of at least eight bytes that it
/// holds, and its bytes after the header are a flat run.
pub open spec fn chunk_run(s: Seq<u8>) -> bool
    decreases s.len(),
{
    if s.len() == 0 {
        true
    } else if s.len() < 8 || u32_at(s, 4) < 8 || u32_at(s, 4) > s.len() {
        false
    } else if u16_at(s, 0) == TOKEN_PACKAGE && !(8 <= u16_at(s, 2) <= u32_at(s, 4) && flat_run(
        s.subrange(u16_at(s, 2) as int, u32_at(s, 4) as int),
    )) {
        false
    } else {
        chunk_run(s.subrange(u32_at(s, 4) as int, s.len() as int))
    }
}

/// The bytes of a `resources.arsc` file built from the encoded chunks `chunks`.
pub open spec fn arsc_bytes(chunks: Seq<Seq<u8>>) -> Seq<u8> {
    let all = concat_bytes(chunks, chunks.len());
    u16_bytes(2) + u16_bytes(12) + u32_bytes(all.len() as u32) + u32_bytes(0) + all
}

/// The bytes of a binary XML document built from the encoded chunks `chunks`.
pub open spec fn xml_bytes(chunks: Seq<Seq<u8>>) -> Seq<u8> {
    let all = concat_bytes(chunks, chunks.len());
    u16_bytes(3) + u16_bytes(8) + u32_bytes(all.len() as u32) + all
}

/// The `u16` and the `u32` that a chunk starts with are read the same from the data that
/// holds it.
proof fn lemma_reads_in_suffix(data: Seq<u8>, pos: int)
    requires
        0 <= pos,
        pos + 8 <= data.len(),
    ensures
        u16_at(data, pos) == u16_at(data.subrange(pos, data.len() as int), 0),
        u16_at(data, pos + 2) == u16_at(data.subrange(pos, data.len() as int), 2),
        u32_at(data, pos + 4) == u32_at(data.subrange(pos, data.len() as int), 4),
{
    let s = data.subrange(pos, data.len() as int);
    assert(s[0] == data[pos] && s[1] == data[pos + 1] && s[2] == data[pos + 2] && s[3] == data[pos
        + 3]);
    assert(s[4] == data[pos + 4] && s[5] == data[pos + 5] && s[6] == data[pos + 6] && s[7]
        == data[pos + 7]);
}

/// A stream over a flat run that ends at `end`, after which the data holds a run of chunks,
/// reads every chunk inside the data and ends without error.
proof fn lemma_flat_run_stream(data: Seq<u8>, pos: int, end: int, previous: Option<u64>)
    requires
        0 <= pos <= end <= data.len(),
        data.len() + 0x1_0000 <= u64::MAX,
        flat_run(data.subrange(pos, end)),
        chunk_run(data.subrange(end, data.len() as int)),
        previous != Some(pos as u64),
    ensures
        stream_in_bounds(data, pos, previous),
        stream_error(data, pos, previous) is None,
    decreases data.len() - pos, 1int,
{
    let s = data.subrange(pos, end);
    if pos == end {
        lemma_chunk_run_stream(data, end, previous);
    } else {
        lemma_reads_in_suffix(data, pos);
        assert(s[0] == data[pos] && s[1] == data[pos + 1]);
        assert(s[4] == data[pos + 4] && s[5] == data[pos + 5] && s[6] == data[pos + 6] && s[7]
            == data[pos + 7]);
        assert(u16_at(s, 0) == u16_at(data, pos));
        assert(u32_at(s, 4) == u32_at(data, pos + 4));
        let size = u32_at(data, pos + 4) as int;
        assert(!stream_done(data, pos, previous));
        assert(stream_next_position(data, pos) == pos + size);
        assert(s.subrange(size, s.len() as int) =~= data.subrange(pos + size, end));
        lemma_flat_run_stream(data, pos + size, end, Some(pos as u64));
    }
}

/// A stream over a run of chunks that goes up to the end of the data reads every chunk
/// inside the data and ends without error.
proof fn lemma_chunk_run_stream(data: Seq<u8>, pos: int, previous: Option<u64>)
    requires
        0 <= pos <= data.len(),
        data.len() + 0x1_0000 <= u64::MAX,
        chunk_run(data.subrange(pos, data.len() as int)),
        previous != Some(pos as u64),
    ensures
        stream_in_bounds(data, pos, previous),
        stream_error(data, pos, previous) is None,
    decreases data.len() - pos, 0int,
{
    let s = data.subrange(pos, data.len() as int);
    if pos == data.len() {
        assert(stream_done(data, pos, previous));
    } else {
        lemma_reads_in_suffix(data, pos);
        let size = u32_at(data, pos + 4) as int;
        assert(!stream_done(data, pos, previous));
        assert(s.subrange(size, s.len() as int) =~= data.subrange(pos + size, data.len() as int));
        if u16_at(data, pos) == TOKEN_PACKAGE {
            let hs = u16_at(data, pos + 2) as int;
            assert(stream_next_position(data, pos) == pos + hs);
            assert(s.subrange(hs, size) =~= data.subrange(pos + hs, pos + size));
            lemma_flat_run_stream(data, pos + hs, pos + size, Some(pos as u64));
        } else {
            assert(stream_next_position(data, pos) == pos + size);
            lemma_chunk_run_stream(data, pos + size, Some(pos as u64));
        }
    }
}

/// A document whose bytes after its header are a run of chunks can be walked, and walking
/// it ends without error.
proof fn lemma_document_walk(data: Seq<u8>, token: u16, header_len: int)
    requires
        4 <= header_len <= data.len(),
        header_len < 0x1_0000,
        data.len() + 0x1_0000 <= u64::MAX,
        read_u16_spec(data, 0) == Some(token),
        read_u16_spec(data, 2) == Some(header_len as u16),
        chunk_run(data.subrange(header_len, data.len() as int)),
    ensures
        walkable(data, token, header_len),
        walk_result(data, token, header_len, Error::UnexpectedEof) == Ok::<(), Error>(()),
{
    assert(u16_at(data, 2) == header_len);
    lemma_chunk_run_stream(data, header_len, None);
}

/// A run of chunks followed by another is a run of chunks.
pub proof fn lemma_chunk_run_concat(x: Seq<u8>, y: Seq<u8>)
    requires
        chunk_run(x),
        chunk_run(y),
    ensures
        chunk_run(x + y),
    decreases x.len(),
{
    if x.len() > 0 {
        let s = x + y;
        assert(s.subrange(0, 8) =~= x.subrange(0, 8));
        assert(s[0] == x[0] && s[1] == x[1] && s[2] == x[2] && s[3] == x[3]);
        assert(s[4] == x[4] && s[5] == x[5] && s[6] == x[6] && s[7] == x[7]);
        let size = u32_at(x, 4) as int;
        assert(u32_at(s, 4) == size);
        assert(u16_at(s, 0) == u16_at(x, 0));
        assert(u16_at(s, 2) == u16_at(x, 2));
        if u16_at(x, 0) == TOKEN_PACKAGE {
            let hs = u16_at(x, 2) as int;
            assert(s.subrange(hs, size) =~= x.subrange(hs, size));
        }
        let rest = x.subrange(size, x.len() as int);
        lemma_chunk_run_concat(rest, y);
        assert(s.subrange(size, s.len() as int) =~= rest + y);
    }
}

/// The first `n` parts, one after the other, are a run of chunks when each of them is.
pub proof fn lemma_chunk_run_parts(parts: Seq<Seq<u8>>, n: nat)
    requires
        n <= parts.len(),
        forall|i: int| 0 <= i < n ==> chunk_run(#[trigger] parts[i]),
    ensures
        chunk_run(concat_bytes(parts, n)),
    decreases n,
{
    if n == 0 {
        assert(concat_bytes(parts, 0).len() == 0);
    } else {
        lemma_chunk_run_parts(parts, (n - 1) as nat);
        lemma_chunk_run_concat(concat_bytes(parts, (n - 1) as nat), parts[n - 1]);
    }
}

/// The first `n` parts, one after the other, are a flat run when each of them is.
pub proof fn lemma_flat_run_parts(parts: Seq<Seq<u8>>, n: nat)
    requires
        n <= parts.len(),
        forall|i: int| 0 <= i < n ==> flat_run(#[trigger] parts[i]),
    ensures
        flat_run(concat_bytes(parts, n)),
    decreases n,
{
    if n == 0 {
        assert(concat_bytes(parts, 0).len() == 0);
    } else {
        lemma_flat_run_parts(parts, (n - 1) as nat);
        lemma_flat_run_concat(concat_bytes(parts, (n - 1) as nat), parts[n - 1]);
    }
}

/// A flat run followed by another is a flat run.
proof fn lemma_flat_run_concat(x: Seq<u8>, y: Seq<u8>)
    requires
        flat_run(x),
        flat_run(y),
    ensures
        flat_run(x + y),
    decreases x.len(),
{
    if x.len() > 0 {
        let s = x + y;
        assert(s[0] == x[0] && s[1] == x[1] && s[2] == x[2] && s[3] == x[3]);
        assert(s[4] == x[4] && s[5] == x[5] && s[6] == x[6] && s[7] == x[7]);
        let size = u32_at(x, 4) as int;
        assert(u32_at(s, 4) == size);
        assert(u16_at(s, 0) == u16_at(x, 0));
        let rest = x.subrange(size, x.len() as int);
        lemma_flat_run_concat(rest, y);
        assert(s.subrange(size, s.len() as int) =~= rest + y);
    }
}

/// An owned chunk that announces as its header size the eight bytes of token and sizes
/// plus its header encodes to a chunk that announces its own length; when it is not a
/// package, it is a flat run (and so a run of chunks) by itself.
pub proof fn lemma_encoded_chunk_run<B: OwnedBuf>(chunk: &B)
    requires
        encodable(chunk),
        chunk.spec_header_size() == 8 + chunk.spec_header().len(),
    ensures
        encoded_chunk(chunk).len() >= 8,
        u32_at(encoded_chunk(chunk), 4) == encoded_chunk(chunk).len(),
        u16_at(encoded_chunk(chunk), 0) == chunk.spec_token(),
        chunk.spec_token() != TOKEN_PACKAGE ==> flat_run(encoded_chunk(chunk)) && chunk_run(
            encoded_chunk(chunk),
        ),
{
    let c = encoded_chunk(chunk);
    let body = chunk.spec_body();
    let hs = chunk.spec_header_size();
    lemma_chunk_layout(chunk.spec_token(), hs, chunk.spec_header(), body);
    let size = (body.len() + hs) as u32;
    assert(c.subrange(4, 8) == u32_bytes(size));
    crate::endian::lemma_read_u32_placed(c, 4, size);
    assert(c.subrange(0, 2) == u16_bytes(chunk.spec_token()));
    crate::endian::lemma_read_u16_placed(c, 0, chunk.spec_token());
    assert(c.subrange(c.len() as int, c.len() as int).len() == 0);
    assert(flat_run(c.subrange(c.len() as int, c.len() as int)));
    assert(chunk_run(c.subrange(c.len() as int, c.len() as int)));
}

/// A package whose header is as long as it announces, holding chunks that make a flat
/// run, encodes to a run of chunks.
pub proof fn lemma_package_chunk_run(p: PackageBuf)
    requires
        p.spec_fits(),
        p.spec_body().len() + 288 <= u32::MAX,
        p.spec_header().len() + 8 == 288,
        flat_run(concat_bytes(p.spec_chunks(), p.spec_chunks().len())),
    ensures
        chunk_run(encoded_chunk(&p)),
{
    let c = encoded_chunk(&p);
    let body = p.spec_body();
    lemma_chunk_layout(p.spec_token(), 288, p.spec_header(), body);
    let size = (body.len() + 288) as u32;
    assert(c.subrange(4, 8) == u32_bytes(size));
    crate::endian::lemma_read_u32_placed(c, 4, size);
    assert(c.subrange(0, 2) == u16_bytes(p.spec_token()));
    crate::endian::lemma_read_u16_placed(c, 0, p.spec_token());
    assert(c.subrange(2, 4) == u16_bytes(288));
    crate::endian::lemma_read_u16_placed(c, 2, 288);
    assert(c.subrange(288, c.len() as int) == body);
    assert(c.subrange(c.len() as int, c.len() as int).len() == 0);
    assert(chunk_run(c.subrange(c.len() as int, c.len() as int)));
}

/// A `resources.arsc` file built from chunks that make a run of chunks can be walked, and
/// walking it ends without error.
pub proof fn lemma_arsc_walk(a: Arsc)
    requires
        chunk_run(concat_bytes(a.spec_chunks(), a.spec_chunks().len())),
        arsc_bytes(a.spec_chunks()).len() + 0x1_0000 <= u64::MAX,
    ensures
        walkable(arsc_bytes(a.spec_chunks()), 2, 12),
        walk_result(
            arsc_bytes(a.spec_chunks()),
            2,
            12,
            Error::NotArscFile { token: u16_at(arsc_bytes(a.spec_chunks()), 0) },
        ) == Ok::<(), Error>(()),
{
    let parts = a.spec_chunks();
    let data = arsc_bytes(parts);
    let all = concat_bytes(parts, parts.len());
    assert(data.subrange(0, 2) =~= u16_bytes(2));
    crate::endian::lemma_read_u16_placed(data, 0, 2);
    assert(data.subrange(2, 4) =~= u16_bytes(12));
    crate::endian::lemma_read_u16_placed(data, 2, 12);
    assert(data.subrange(12, data.len() as int) =~= all);
    lemma_document_walk(data, 2, 12);
}

/// A binary XML document built from chunks that make a run of chunks can be walked, and
/// walking it ends without error.
pub proof fn lemma_xml_walk(x: Xml)
    requires
        chunk_run(concat_bytes(x.spec_chunks(), x.spec_chunks().len())),
        xml_bytes(x.spec_chunks()).len() + 0x1_0000 <= u64::MAX,
    ensures
        walkable(xml_bytes(x.spec_chunks()), 3, 8),
        walk_result(
            xml_bytes(x.spec_chunks()),
            3,
            8,
            Error::NotXmlDocument { token: u16_at(xml_bytes(x.spec_chunks()), 0) },
        ) == Ok::<(), Error>(()),
{
    let parts = x.spec_chunks();
    let data = xml_bytes(parts);
    let all = concat_bytes(parts, parts.len());
    assert(data.subrange(0, 2) =~= u16_bytes(3));
    crate::endian::lemma_read_u16_placed(data, 0, 3);
    assert(data.subrange(2, 4) =~= u16_bytes(8));
    crate::endian::lemma_read_u16_placed(data, 2, 8);
    assert(data.subrange(8, data.len() as int) =~= all);
    lemma_document_walk(data, 3, 8);
}

} // verus!
