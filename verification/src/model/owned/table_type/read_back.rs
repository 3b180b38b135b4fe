//! What a table type reads back of the entries it was written with.

use super::{
    child_entry_bytes, children_bytes, complex_entry_bytes, entries_body, entry_bytes,
    entry_offsets, lemma_entries_body_prefix, simple_entry_bytes, ComplexEntryView, EntryView,
    SimpleEntryView, TableTypeBuf,
};
use crate::chunks::table_type::{child_at, entries_from, entry_at, table_amount, table_entries};
use crate::endian::{
    lemma_read_u16_placed, lemma_read_u32_placed, read_u16_spec, read_u32_spec, u16_at, u16_bytes,
    u32_at, u32_bytes,
};
use crate::errors::Error;
use crate::model::owned::{chunk_bytes, lemma_chunk_layout, lemma_u32s_bytes, u32s_bytes, OwnedBuf};
use vstd::prelude::*;

verus! {

/// Whether an entry written at index `id` reads back as itself: it has `id` as id (and,
/// when empty, as key); a complex entry has values, all with its key.
pub open spec fn entry_reads_back(e: EntryView, id: u32) -> bool {
    match e {
        EntryView::Empty(i, k) => i == id && k == id,
        EntryView::Simple(s) => s.id == id,
        EntryView::Complex(c) => {
            &&& c.id == id
            &&& 1 <= c.entries.len() < 0xFFFF_FFFF
            &&& forall|k: int| 0 <= k < c.entries.len() ==> (#[trigger] c.entries[k]).key == c.key
        },
    }
}

/// A `u32` placed at `p` of `data` is what `u32_at` reads there.
proof fn lemma_u32_placed(data: Seq<u8>, p: int, v: u32)
    requires
        0 <= p,
        p + 4 <= data.len(),
        data.subrange(p, p + 4) == u32_bytes(v),
    ensures
        u32_at(data, p) == v,
{
    lemma_read_u32_placed(data, p, v);
}

/// A `u16` placed at `p` of `data` is what `u16_at` reads there.
proof fn lemma_u16_placed(data: Seq<u8>, p: int, v: u16)
    requires
        0 <= p,
        p + 2 <= data.len(),
        data.subrange(p, p + 2) == u16_bytes(v),
    ensures
        u16_at(data, p) == v,
{
    lemma_read_u16_placed(data, p, v);
}

/// The values of a complex entry lie twelve bytes each, one after the other.
proof fn lemma_children_bytes(children: Seq<SimpleEntryView>, n: nat)
    requires
        n <= children.len(),
    ensures
        children_bytes(children, n).len() == 12 * n,
        forall|k: int|
            0 <= k < n ==> #[trigger] children_bytes(children, n).subrange(12 * k, 12 * k + 12)
                == child_entry_bytes(children[k]),
    decreases n,
{
    if n > 0 {
        lemma_children_bytes(children, (n - 1) as nat);
        let prev = children_bytes(children, (n - 1) as nat);
        let all = children_bytes(children, n);
        assert forall|k: int| 0 <= k < n implies #[trigger] all.subrange(12 * k, 12 * k + 12)
            == child_entry_bytes(children[k]) by {
            if k < n - 1 {
                assert(all.subrange(12 * k, 12 * k + 12) =~= prev.subrange(12 * k, 12 * k + 12));
            } else {
                assert(all.subrange(12 * k, 12 * k + 12) =~= child_entry_bytes(children[k]));
            }
        }
    }
}

/// A value of a complex entry is read back from where its bytes lie.
proof fn lemma_child_read(data: Seq<u8>, c: int, child: SimpleEntryView, key: u32)
    requires
        0 <= c,
        c + 12 <= data.len(),
        data.subrange(c, c + 12) == child_entry_bytes(child),
        child.key == key,
    ensures
        child_at(data, c, key) == child,
{
    let b = child_entry_bytes(child);
    assert(data.subrange(c, c + 4) =~= b.subrange(0, 4));
    assert(b.subrange(0, 4) =~= u32_bytes(child.id));
    lemma_u32_placed(data, c, child.id);
    assert(data.subrange(c + 8, c + 12) =~= b.subrange(8, 12));
    assert(b.subrange(8, 12) =~= u32_bytes(child.value));
    lemma_u32_placed(data, c + 8, child.value);
    assert(data[c + 7] == b[7]);
}

/// A simple entry is read back from where its bytes lie.
proof fn lemma_simple_read(data: Seq<u8>, pos: int, s: SimpleEntryView, id: u32)
    requires
        0 <= pos,
        pos + 16 <= data.len(),
        data.subrange(pos, pos + 16) == simple_entry_bytes(s),
        s.id == id,
    ensures
        entry_at(data, pos, id) == Ok::<(Option<EntryView>, int), Error>(
            (Some(EntryView::Simple(s)), pos + 16),
        ),
{
    let b = simple_entry_bytes(s);
    assert(data.subrange(pos + 2, pos + 4) =~= b.subrange(2, 4));
    assert(b.subrange(2, 4) =~= u16_bytes(0));
    lemma_u16_placed(data, pos + 2, 0);
    assert(data.subrange(pos + 4, pos + 8) =~= b.subrange(4, 8));
    assert(b.subrange(4, 8) =~= u32_bytes(s.key));
    lemma_u32_placed(data, pos + 4, s.key);
    assert(data.subrange(pos + 12, pos + 16) =~= b.subrange(12, 16));
    assert(b.subrange(12, 16) =~= u32_bytes(s.value));
    lemma_u32_placed(data, pos + 12, s.value);
    assert(data[pos + 11] == b[11]);
    assert(0u16 & 1u16 == 0u16) by (bit_vector);
}

/// A complex entry with values, all of its key, is read back from where its bytes lie.
proof fn lemma_complex_read(data: Seq<u8>, pos: int, c: ComplexEntryView, id: u32)
    requires
        0 <= pos,
        pos + complex_entry_bytes(c).len() <= data.len(),
        data.subrange(pos, pos + complex_entry_bytes(c).len()) == complex_entry_bytes(c),
        entry_reads_back(EntryView::Complex(c), id),
    ensures
        entry_at(data, pos, id) == Ok::<(Option<EntryView>, int), Error>(
            (Some(EntryView::Complex(c)), pos + complex_entry_bytes(c).len()),
        ),
{
    let n = c.entries.len() as int;
    let b = complex_entry_bytes(c);
    lemma_children_bytes(c.entries, n as nat);
    assert(n as u32 == n);
    assert(b.len() == 16 + 12 * n);
    assert(data.subrange(pos + 2, pos + 4) =~= b.subrange(2, 4));
    assert(b.subrange(2, 4) =~= u16_bytes(1));
    lemma_u16_placed(data, pos + 2, 1);
    assert(data.subrange(pos + 4, pos + 8) =~= b.subrange(4, 8));
    assert(b.subrange(4, 8) =~= u32_bytes(c.key));
    lemma_u32_placed(data, pos + 4, c.key);
    assert(data.subrange(pos + 8, pos + 12) =~= b.subrange(8, 12));
    assert(b.subrange(8, 12) =~= u32_bytes(c.parent));
    lemma_u32_placed(data, pos + 8, c.parent);
    assert(data.subrange(pos + 12, pos + 16) =~= b.subrange(12, 16));
    assert(b.subrange(12, 16) =~= u32_bytes(n as u32));
    lemma_u32_placed(data, pos + 12, n as u32);
    assert(1u16 & 1u16 == 1u16) by (bit_vector);
    let children = children_bytes(c.entries, n as nat);
    assert(b.subrange(16, 16 + 12 * n) =~= children);
    let read = Seq::new(n as nat, |k: int| child_at(data, pos + 16 + 12 * k, c.key));
    assert forall|k: int| 0 <= k < n implies read[k] == c.entries[k] by {
        assert(children.subrange(12 * k, 12 * k + 12) == child_entry_bytes(c.entries[k]));
        assert(data.subrange(pos + 16 + 12 * k, pos + 16 + 12 * k + 12) =~= b.subrange(
            16 + 12 * k,
            16 + 12 * k + 12,
        ));
        assert(b.subrange(16 + 12 * k, 16 + 12 * k + 12) =~= children.subrange(
            12 * k,
            12 * k + 12,
        ));
        assert(c.entries[k].key == c.key);
        lemma_child_read(data, pos + 16 + 12 * k, c.entries[k], c.key);
    }
    assert(read =~= c.entries);
}

/// The `i`-th entry, when it is not empty, is read back from where it was written, and
/// its offset is not the mark of an empty entry.
#[verifier::spinoff_prover]
proof fn lemma_entry_step(data: Seq<u8>, entries: Seq<EntryView>, i: nat, start: int)
    requires
        0 <= start,
        i < entries.len() <= 0x1_0000,
        start + entries_body(entries, entries.len()).len() <= data.len(),
        data.subrange(start, start + entries_body(entries, entries.len()).len()) == entries_body(
            entries,
            entries.len(),
        ),
        entries_body(entries, entries.len()).len() <= u32::MAX,
        entries[i as int] !is Empty,
        entry_reads_back(entries[i as int], i as u32),
    ensures
        entry_offsets(entries)[i as int] != 0xFFFF_FFFFu32,
        entries_body(entries, i + 1).len() == entries_body(entries, i).len() + entry_bytes(
            entries[i as int],
        ).len(),
        entry_at(data, start + entries_body(entries, i).len(), i as u32) == Ok::<
            (Option<EntryView>, int),
            Error,
        >((Some(entries[i as int]), start + entries_body(entries, i + 1).len())),
{
    let n = entries.len();
    let e = entries[i as int];
    let bi = entries_body(entries, i).len() as int;
    lemma_entries_body_prefix(entries, i + 1, n);
    let all = entries_body(entries, n);
    let next = entries_body(entries, i + 1);
    assert(next == entries_body(entries, i) + entry_bytes(e));
    let bn = next.len() as int;
    assert(entry_bytes(e).len() >= 16) by {
        if e is Complex {
            lemma_children_bytes(e->Complex_0.entries, e->Complex_0.entries.len());
        }
    }
    assert(entry_offsets(entries)[i as int] == bi as u32);
    assert(all.subrange(0, bn) == next);
    assert(data.subrange(start + bi, start + bn) =~= all.subrange(bi, bn)) by {
        assert(data.subrange(start + bi, start + bn) =~= data.subrange(
            start,
            start + all.len(),
        ).subrange(bi, bn));
    }
    assert(all.subrange(bi, bn) =~= entry_bytes(e)) by {
        assert(all.subrange(bi, bn) =~= next.subrange(bi, bn));
    }
    match e {
        EntryView::Simple(sv) => {
            lemma_simple_read(data, start + bi, sv, i as u32);
        },
        EntryView::Complex(cv) => {
            lemma_complex_read(data, start + bi, cv, i as u32);
        },
        EntryView::Empty(_, _) => {},
    }
}

/// The entries from the `i`-th on are read back, one after the other, from where they
/// were written, with the offsets written for them.
#[verifier::spinoff_prover]
proof fn lemma_entries_read(data: Seq<u8>, entries: Seq<EntryView>, i: nat, start: int)
    requires
        0 <= start,
        i <= entries.len() <= 0x1_0000,
        start + entries_body(entries, entries.len()).len() <= data.len(),
        data.subrange(start, start + entries_body(entries, entries.len()).len()) == entries_body(
            entries,
            entries.len(),
        ),
        entries_body(entries, entries.len()).len() <= u32::MAX,
        forall|k: int|
            0 <= k < entries.len() ==> entry_reads_back(#[trigger] entries[k], k as u32),
    ensures
        entries_from(data, entry_offsets(entries), i, start + entries_body(entries, i).len())
            == Ok::<Seq<EntryView>, Error>(entries.subrange(i as int, entries.len() as int)),
    decreases entries.len() - i,
{
    let n = entries.len();
    let offsets = entry_offsets(entries);
    let pos = start + entries_body(entries, i).len();
    if i < n {
        let e = entries[i as int];
        assert(entry_reads_back(e, i as u32));
        assert((i % 0x1_0000) as u32 == i as u32);
        lemma_entries_read(data, entries, i + 1, start);
        let rest = entries.subrange(i + 1 as int, n as int);
        assert(seq![e] + rest =~= entries.subrange(i as int, n as int));
        if e is Empty {
            assert(offsets[i as int] == 0xFFFF_FFFFu32);
            assert(entries_body(entries, i + 1) == entries_body(entries, i) + entry_bytes(e));
            assert(entries_body(entries, i + 1) =~= entries_body(entries, i));
            assert(e == EntryView::Empty(i as u32, i as u32));
        } else {
            lemma_entry_step(data, entries, i, start);
        }
    } else {
        assert(entries.subrange(i as int, n as int) =~= Seq::<EntryView>::empty());
    }
}

/// The bytes of an encoded table type.
pub open spec fn table_type_bytes(b: TableTypeBuf) -> Seq<u8> {
    chunk_bytes(b.spec_token(), b.spec_header_size(), b.spec_header(), b.spec_body())
}

/// A table type, encoded and read back from where its header says its entry offsets start,
/// announces as many entries as it was written with and reads back each of them, when
/// there are at most 2^16 and each reads back as itself at its index: its id is its index
/// (and so is its key, when it is empty), and a complex entry has values, all with its key.
#[verifier::spinoff_prover]
#[verifier::rlimit(30)]
pub proof fn lemma_table_type_roundtrip(b: TableTypeBuf)
    requires
        b.spec_fits(),
        b.spec_body().len() + b.spec_header_size() <= u32::MAX,
        b.spec_entries().len() <= 0x1_0000,
        forall|k: int|
            0 <= k < b.spec_entries().len() ==> entry_reads_back(
                #[trigger] b.spec_entries()[k],
                k as u32,
            ),
    ensures
        table_amount(table_type_bytes(b)) == Ok::<u32, Error>(b.spec_entries().len() as u32),
        table_entries(table_type_bytes(b), b.spec_header_size() as u64) == Ok::<
            Seq<EntryView>,
            Error,
        >(b.spec_entries()),
{
    let entries = b.spec_entries();
    let n = entries.len() as int;
    let h = b.spec_header();
    let body = b.spec_body();
    let c = table_type_bytes(b);
    let hs = b.spec_header_size() as int;
    lemma_chunk_layout(b.spec_token(), b.spec_header_size(), h, body);
    let offsets = entry_offsets(entries);
    lemma_u32s_bytes(offsets, n as nat);
    let written = u32s_bytes(offsets, n as nat);
    let all = entries_body(entries, n as nat);
    assert(body == written + all);
    assert(h.len() + 8 == hs);
    assert(c.len() == hs + 4 * n + all.len());
    assert(c.subrange(8, 8 + h.len() as int) == h);
    assert(c.subrange(hs, c.len() as int) == body);
    assert(h.subrange(4, 8) =~= u32_bytes(n as u32));
    crate::endian::lemma_read_u32_in_part(c, 8, h, 4, n as u32);
    assert(table_amount(c) == Ok::<u32, Error>(n as u32));
    let read = Seq::new(n as nat, |k: int| u32_at(c, hs + 4 * k));
    assert forall|k: int| 0 <= k < n implies read[k] == offsets[k] by {
        assert(written.subrange(4 * k, 4 * k + 4) == u32_bytes(offsets[k]));
        assert(c.subrange(hs + 4 * k, hs + 4 * k + 4) =~= body.subrange(4 * k, 4 * k + 4)) by {
            assert(c.subrange(hs + 4 * k, hs + 4 * k + 4) =~= c.subrange(hs, c.len() as int).subrange(
                4 * k,
                4 * k + 4,
            ));
        }
        assert(body.subrange(4 * k, 4 * k + 4) =~= written.subrange(4 * k, 4 * k + 4));
        lemma_u32_placed(c, hs + 4 * k, offsets[k]);
    }
    assert(read =~= offsets);
    let start = hs + 4 * n;
    assert(c.subrange(start, start + all.len()) =~= all) by {
        assert(c.subrange(start, start + all.len()) =~= c.subrange(hs, c.len() as int).subrange(
            4 * n,
            4 * n + all.len(),
        ));
        assert(body.subrange(4 * n, 4 * n + all.len()) =~= all);
    }
    lemma_entries_read(c, entries, 0, start);
    assert(entries.subrange(0, n) =~= entries);
}

} // verus!
