//! Table types: the entries of one type of resource, for one configuration.

pub mod configuration;

pub use self::configuration::{region_of_bytes, region_text, ConfigurationWrapper, Region};
use crate::model::owned::MASK_COMPLEX;

use crate::endian::{get_u16, get_u32, get_u8, read_u32_spec, u16_at, u32_at};
use crate::errors::Error;
use crate::model::owned::{
    configuration_decoded, configuration_result, entry_views, ComplexEntry, ComplexEntryView,
    ConfigurationView, Entry, EntryHeader, EntryView, SimpleEntry, SimpleEntryView, TableTypeBuf,
};
use crate::model::{entry_result, TableType};
use vstd::prelude::*;
use vstd::slice::slice_subrange;

verus! {

/// A value of a complex entry at `c`: its id, then (after two bytes of size and one of
/// padding) its type, then its data; it has the key of its entry.
pub open spec fn child_at(data: Seq<u8>, c: int, key: u32) -> SimpleEntryView {
    SimpleEntryView { id: u32_at(data, c), key, value_type: data[c + 7], value: u32_at(data, c + 8) }
}

/// The entry at `pos` and where the next one starts. A complex entry announcing
/// 0xFFFF_FFFF values is skipped: it gives no entry.
pub open spec fn entry_at(data: Seq<u8>, pos: int, id: u32) -> Result<(Option<EntryView>, int), Error> {
    if pos + 8 > data.len() {
        Err(Error::UnexpectedEof)
    } else {
        let flags = u16_at(data, pos + 2);
        let key = u32_at(data, pos + 4);
        if pos + 16 > data.len() {
            Err(Error::UnexpectedEof)
        } else if flags & 1 == 1 {
            let parent = u32_at(data, pos + 8);
            let count = u32_at(data, pos + 12);
            if count == 0xFFFF_FFFF {
                Ok((None, pos + 16))
            } else if pos + 16 + 12 * count > data.len() {
                Err(Error::UnexpectedEof)
            } else {
                Ok(
                    (
                        Some(
                            EntryView::Complex(
                                ComplexEntryView {
                                    id,
                                    key,
                                    parent,
                                    entries: Seq::new(
                                        count as nat,
                                        |k: int| child_at(data, pos + 16 + 12 * k, key),
                                    ),
                                },
                            ),
                        ),
                        pos + 16 + 12 * count,
                    ),
                )
            }
        } else {
            Ok(
                (
                    Some(
                        EntryView::Simple(
                            SimpleEntryView {
                                id,
                                key,
                                value_type: data[pos + 11],
                                value: u32_at(data, pos + 12),
                            },
                        ),
                    ),
                    pos + 16,
                ),
            )
        }
    }
}

/// The entries from the `i`-th offset on, read one after the other from `pos`: an
/// offset of 0xFFFF_FFFF gives an empty entry, any other the next entry of the data. Each
/// entry gets the low sixteen bits of its index as id.
pub open spec fn entries_from(data: Seq<u8>, offsets: Seq<u32>, i: nat, pos: int) -> Result<
    Seq<EntryView>,
    Error,
>
    decreases offsets.len() - i,
{
    if i >= offsets.len() {
        Ok(Seq::empty())
    } else {
        let id = (i % 0x1_0000) as u32;
        if offsets[i as int] == 0xFFFF_FFFF {
            match entries_from(data, offsets, i + 1, pos) {
                Ok(rest) => Ok(seq![EntryView::Empty(id, id)] + rest),
                Err(e) => Err(e),
            }
        } else {
            match entry_at(data, pos, id) {
                Err(e) => Err(e),
                Ok((found, next)) => match entries_from(data, offsets, i + 1, next) {
                    Err(e) => Err(e),
                    Ok(rest) => match found {
                        Some(entry) => Ok(seq![entry] + rest),
                        None => Ok(rest),
                    },
                },
            }
        }
    }
}

/// The amount of entries of a table type: the `u32` at 12.
pub open spec fn table_amount(data: Seq<u8>) -> Result<u32, Error> {
    match read_u32_spec(data, 12) {
        Some(v) => Ok(v),
        None => Err(Error::UnexpectedEof),
    }
}

/// The entries of a table type whose offsets start at `data_offset`.
pub open spec fn table_entries(data: Seq<u8>, data_offset: u64) -> Result<Seq<EntryView>, Error> {
    match table_amount(data) {
        Err(e) => Err(e),
        Ok(amount) => if amount > 0 && data_offset + 4 * amount > data.len() {
            Err(Error::UnexpectedEof)
        } else {
            entries_from(
                data,
                Seq::new(amount as nat, |k: int| u32_at(data, data_offset + 4 * k)),
                0,
                data_offset + 4 * amount,
            )
        },
    }
}

/// The bytes of the configuration: from 20 up to where the entry offsets start, which
/// must leave more than 28 bytes and lie inside the chunk.
pub open spec fn configuration_slice(data: Seq<u8>, data_offset: u64) -> Result<Seq<u8>, Error> {
    if 20 <= data_offset && data_offset - 20 > 28 && data_offset <= data.len() {
        Ok(data.subrange(20, data_offset as int))
    } else {
        Err(Error::InvalidConfigurationSlice)
    }
}

/// What prepending `prefix` to a result of entries gives.
pub open spec fn prepend(prefix: Seq<EntryView>, r: Result<Seq<EntryView>, Error>) -> Result<
    Seq<EntryView>,
    Error,
> {
    match r {
        Ok(rest) => Ok(prefix + rest),
        Err(e) => Err(e),
    }
}

/// The views of a result of entries.
pub open spec fn entries_result(r: Result<Vec<Entry>, Error>) -> Result<Seq<EntryView>, Error> {
    match r {
        Ok(v) => Ok(entry_views(v@)),
        Err(e) => Err(e),
    }
}

/// A table type read in place; its entry offsets start at `data_offset`.
#[derive(Debug)]
pub struct TableTypeWrapper<'a> {
    raw_data: &'a [u8],
    data_offset: u64,
}

impl<'a> View for TableTypeWrapper<'a> {
    type V = Seq<u8>;

    closed spec fn view(&self) -> Seq<u8> {
        self.raw_data@
    }
}

impl<'a> TableTypeWrapper<'a> {
    /// Where the entry offsets start.
    pub closed spec fn spec_data_offset(&self) -> u64 {
        self.data_offset
    }

    pub fn new(raw_data: &'a [u8], data_offset: u64) -> (r: Self)
        ensures
            r@ == raw_data@,
            r.spec_data_offset() == data_offset,
    {
        Self { raw_data, data_offset }
    }

    /// Reads the values of a complex entry.
    fn decode_children(data: &[u8], start: u64, count: u32, key: u32) -> (r: Vec<SimpleEntry>)
        requires
            start + 12 * count <= data@.len(),
        ensures
            r@.len() == count,
            forall|k: int|
                0 <= k < count ==> (#[trigger] r@[k])@ == child_at(data@, start + 12 * k, key),
    {
        let mut children: Vec<SimpleEntry> = Vec::new();
        let len = data.len() as u64;
        let mut k: u32 = 0;
        while k < count
            invariant
                k <= count,
                len == data@.len(),
                start + 12 * count <= data@.len(),
                children@.len() == k,
                forall|j: int|
                    0 <= j < k ==> (#[trigger] children@[j])@ == child_at(
                        data@,
                        start + 12 * j,
                        key,
                    ),
            decreases count - k,
        {
            let c: u64 = start + 12 * (k as u64);
            let id = match get_u32(data, c) {
                Ok(v) => v,
                Err(_) => 0,
            };
            let value_type = match get_u8(data, c + 7) {
                Ok(v) => v,
                Err(_) => 0,
            };
            let value = match get_u32(data, c + 8) {
                Ok(v) => v,
                Err(_) => 0,
            };
            children.push(SimpleEntry::new(id, key, value_type, value));
            k = k + 1;
        }
        children
    }

    /// Reads the entry at `pos` with the given id, and where the next one starts.
    fn decode_entry(data: &[u8], pos: u64, id: u32) -> (r: Result<(Option<Entry>, u64), Error>)
        requires
            pos <= data@.len(),
        ensures
            match (r, entry_at(data@, pos as int, id)) {
                (Ok((found, next)), Ok((spec_found, spec_next))) => {
                    &&& next == spec_next
                    &&& next <= data@.len()
                    &&& match (found, spec_found) {
                        (Some(e), Some(f)) => e@ == f,
                        (None, None) => true,
                        _ => false,
                    }
                },
                (Err(e), Err(f)) => e == f,
                _ => false,
            },
    {
        let len = data.len() as u64;
        if len - pos < 8 {
            return Err(Error::UnexpectedEof);
        }
        let header_size = get_u16(data, pos)?;
        let flags = get_u16(data, pos + 2)?;
        let key = get_u32(data, pos + 4)?;
        if len - pos < 16 {
            return Err(Error::UnexpectedEof);
        }
        let header = EntryHeader::new(header_size, flags, key);
        assert(flags & 1 == 1 <==> flags & MASK_COMPLEX == MASK_COMPLEX);
        if header.is_complex() {
            let parent = get_u32(data, pos + 8)?;
            let count = get_u32(data, pos + 12)?;
            if count == 0xFFFF_FFFF {
                return Ok((None, pos + 16));
            }
            if (count as u64) * 12 > len - pos - 16 {
                return Err(Error::UnexpectedEof);
            }
            let children = Self::decode_children(data, pos + 16, count, key);
            let complex = ComplexEntry::new(id, header.get_key_index(), parent, children);
            proof {
                let spec_children = Seq::new(
                    count as nat,
                    |k: int| child_at(data@, pos + 16 + 12 * k, key),
                );
                assert(complex@.entries =~= spec_children);
            }
            Ok((Some(Entry::Complex(complex)), pos + 16 + 12 * (count as u64)))
        } else {
            get_u16(data, pos + 8)?;
            get_u8(data, pos + 10)?;
            let value_type = get_u8(data, pos + 11)?;
            let value = get_u32(data, pos + 12)?;
            let simple = SimpleEntry::new(id, header.get_key_index(), value_type, value);
            Ok((Some(Entry::Simple(simple)), pos + 16))
        }
    }

    /// Reads all the entries.
    pub fn entries(&self) -> (r: Result<Vec<Entry>, Error>)
        ensures
            entries_result(r) == table_entries(self@, self.spec_data_offset()),
    {
        let data = self.raw_data;
        let amount = self.get_amount()?;
        let len = data.len() as u64;
        if amount > 0 && (self.data_offset > len || (len - self.data_offset) / 4 < amount as u64) {
            return Err(Error::UnexpectedEof);
        }
        let ghost offsets_spec = Seq::new(
            amount as nat,
            |k: int| u32_at(data@, self.data_offset + 4 * k),
        );
        let mut offsets: Vec<u32> = Vec::new();
        let mut k: u32 = 0;
        while k < amount
            invariant
                k <= amount,
                len == data@.len(),
                amount > 0 ==> self.data_offset + 4 * amount <= data@.len(),
                offsets@ == offsets_spec.subrange(0, k as int),
                offsets_spec == Seq::new(
                    amount as nat,
                    |j: int| u32_at(data@, self.data_offset + 4 * j),
                ),
            decreases amount - k,
        {
            let v = get_u32(data, self.data_offset + 4 * (k as u64))?;
            offsets.push(v);
            k = k + 1;
            assert(offsets@ =~= offsets_spec.subrange(0, k as int));
        }
        assert(offsets@ =~= offsets_spec);
        let start: u64 = if amount > 0 {
            self.data_offset + 4 * (amount as u64)
        } else {
            self.data_offset
        };
        let mut pos: u64 = start;
        let mut entries: Vec<Entry> = Vec::new();
        let mut i: u32 = 0;
        if pos > len {
            assert(entries_from(data@, offsets_spec, 0, start as int) == Ok::<
                Seq<EntryView>,
                Error,
            >(Seq::empty()));
            assert(entry_views(entries@) =~= Seq::<EntryView>::empty());
            return Ok(entries);
        }
        assert(table_entries(self@, self.spec_data_offset()) == entries_from(
            data@,
            offsets_spec,
            0,
            start as int,
        ));
        while i < amount
            invariant
                i <= amount,
                pos <= data@.len(),
                table_entries(self@, self.spec_data_offset()) == entries_from(
                    data@,
                    offsets_spec,
                    0,
                    start as int,
                ),
                offsets@ == offsets_spec,
                offsets_spec.len() == amount,
                entries_from(data@, offsets_spec, 0, start as int) == prepend(
                    entry_views(entries@),
                    entries_from(data@, offsets_spec, i as nat, pos as int),
                ),
            decreases amount - i,
        {
            let id = i & 0xFFFF;
            assert(i & 0xFFFF == i % 0x1_0000) by (bit_vector);
            let ghost before = entry_views(entries@);
            if offsets[i as usize] == 0xFFFF_FFFF {
                entries.push(Entry::Empty(id, id));
                assert(entry_views(entries@) =~= before.push(EntryView::Empty(id, id)));
                assert(before.push(EntryView::Empty(id, id)) =~= before + seq![EntryView::Empty(id, id)]);
                proof {
                    match entries_from(data@, offsets_spec, (i + 1) as nat, pos as int) {
                        Ok(rest) => {
                            assert(before + (seq![EntryView::Empty(id, id)] + rest) =~= (before
                                + seq![EntryView::Empty(id, id)]) + rest);
                        },
                        Err(_) => {},
                    }
                }
            } else {
                let (found, next) = match Self::decode_entry(data, pos, id) {
                    Ok(decoded) => decoded,
                    Err(e) => {
                        assert(entries_from(data@, offsets_spec, i as nat, pos as int) == Err::<
                            Seq<EntryView>,
                            Error,
                        >(e));
                        assert(entries_from(data@, offsets_spec, 0, start as int) == Err::<
                            Seq<EntryView>,
                            Error,
                        >(e));
                        return Err(e);
                    },
                };
                match found {
                    Some(e) => {
                        let ghost v = e@;
                        entries.push(e);
                        assert(entry_views(entries@) =~= before + seq![v]);
                        proof {
                            match entries_from(data@, offsets_spec, (i + 1) as nat, next as int) {
                                Ok(rest) => {
                                    assert(before + (seq![v] + rest) =~= (before + seq![v]) + rest);
                                },
                                Err(_) => {},
                            }
                        }
                    },
                    None => {},
                }
                pos = next;
            }
            i = i + 1;
        }
        proof {
            assert(entries_from(data@, offsets_spec, amount as nat, pos as int) == Ok::<
                Seq<EntryView>,
                Error,
            >(Seq::empty()));
            assert(entry_views(entries@) + Seq::<EntryView>::empty() =~= entry_views(entries@));
        }
        Ok(entries)
    }

    /// Copies the id, the configuration and the announced amount of entries into a
    /// `TableTypeBuf`.
    pub fn to_buffer(&self) -> (r: Result<TableTypeBuf, Error>)
        ensures
            match r {
                Ok(b) => {
                    &&& self.spec_id() == Ok::<u8, Error>(b.spec_id_value())
                    &&& configuration_slice(self@, self.spec_data_offset()) matches Ok(slice)
                        && configuration_decoded(slice) == Ok::<ConfigurationView, Error>(
                        b.spec_config(),
                    )
                    &&& table_amount(self@) == Ok::<u32, Error>(b.spec_entries().len() as u32)
                    &&& b.spec_entries().len() > 0 ==> table_entries(
                        self@,
                        self.spec_data_offset(),
                    ) == Ok::<Seq<EntryView>, Error>(b.spec_entries())
                },
                Err(e) => {
                    ||| self.spec_id() == Err::<u8, Error>(e)
                    ||| table_amount(self@) == Err::<u32, Error>(e)
                    ||| configuration_slice(self@, self.spec_data_offset()) == Err::<
                        Seq<u8>,
                        Error,
                    >(e)
                    ||| (configuration_slice(self@, self.spec_data_offset()) matches Ok(slice)
                        && configuration_decoded(slice) == Err::<ConfigurationView, Error>(e))
                    ||| table_entries(self@, self.spec_data_offset()) == Err::<
                        Seq<EntryView>,
                        Error,
                    >(e)
                    ||| (e == Error::EntryNotFound && (table_entries(
                        self@,
                        self.spec_data_offset(),
                    ) matches Ok(es) && (table_amount(self@) matches Ok(n) && es.len() < n)))
                },
            },
    {
        let id = self.get_id()?;
        let amount = self.get_amount()?;
        let config = self.get_configuration()?.to_buffer()?;
        let mut owned = TableTypeBuf::new(id & 0xF, config);
        assert(id & 0xF == id) by (bit_vector)
            requires
                id < 16,
        ;
        if amount == 0 {
            return Ok(owned);
        }
        let entries = self.entries()?;
        if entries.len() < amount as usize {
            return Err(Error::EntryNotFound);
        }
        let mut i: u32 = 0;
        while i < amount
            invariant
                i <= amount,
                amount as usize <= entries@.len(),
                owned.spec_entries() == entry_views(entries@).subrange(0, i as int),
                owned.spec_id_value() == id,
                self.spec_id() == Ok::<u8, Error>(id),
                owned.spec_config() == config@,
            decreases amount - i,
        {
            let e = entries[i as usize].clone();
            owned.add_entry(e);
            i = i + 1;
            assert(owned.spec_entries() =~= entry_views(entries@).subrange(0, i as int));
        }
        proof {
            lemma_entries_at_most_offsets(self@, self.spec_data_offset());
        }
        assert(entry_views(entries@).subrange(0, amount as int) =~= entry_views(entries@));
        Ok(owned)
    }
}

/// There are never more entries than offsets.
pub proof fn lemma_entries_at_most_offsets(data: Seq<u8>, data_offset: u64)
    ensures
        table_entries(data, data_offset) matches Ok(es) ==> (table_amount(data) matches Ok(n)
            && es.len() <= n),
{
    if let Ok(amount) = table_amount(data) {
        if !(amount > 0 && data_offset + 4 * amount > data.len()) {
            let offsets = Seq::new(amount as nat, |k: int| u32_at(data, data_offset + 4 * k));
            lemma_entries_from_len(data, offsets, 0, data_offset + 4 * amount);
        }
    }
}

/// The entries from the `i`-th offset on are at most as many as the offsets left.
proof fn lemma_entries_from_len(data: Seq<u8>, offsets: Seq<u32>, i: nat, pos: int)
    ensures
        i <= offsets.len() ==> (entries_from(data, offsets, i, pos) matches Ok(es) ==> es.len()
            <= offsets.len() - i),
    decreases offsets.len() - i,
{
    if i < offsets.len() {
        if offsets[i as int] == 0xFFFF_FFFF {
            lemma_entries_from_len(data, offsets, i + 1, pos);
        } else {
            match entry_at(data, pos, (i % 0x1_0000) as u32) {
                Ok((_, next)) => lemma_entries_from_len(data, offsets, i + 1, next),
                Err(_) => {},
            }
        }
    }
}

impl<'a> TableType for TableTypeWrapper<'a> {
    type Configuration = ConfigurationWrapper<'a>;

    /// The low four bits of the `u32` at 8.
    open spec fn spec_id(&self) -> Result<u8, Error> {
        match read_u32_spec(self@, 8) {
            Some(v) => Ok((v % 16) as u8),
            None => Err(Error::UnexpectedEof),
        }
    }

    open spec fn spec_amount(&self) -> Result<u32, Error> {
        table_amount(self@)
    }

    open spec fn spec_configuration(&self) -> Result<Seq<u8>, Error> {
        configuration_slice(self@, self.spec_data_offset())
    }

    open spec fn spec_entry(&self, index: u32) -> Result<EntryView, Error> {
        match table_entries(self@, self.spec_data_offset()) {
            Err(e) => Err(e),
            Ok(es) => if index < es.len() {
                Ok(es[index as int])
            } else {
                Err(Error::EntryNotFound)
            },
        }
    }

    fn get_id(&self) -> (r: Result<u8, Error>) {
        let v = get_u32(self.raw_data, 8)?;
        assert(v & 0xF == v % 16) by (bit_vector);
        Ok((v & 0xF) as u8)
    }

    fn get_amount(&self) -> (r: Result<u32, Error>) {
        get_u32(self.raw_data, 12)
    }

    fn get_configuration(&self) -> (r: Result<ConfigurationWrapper<'a>, Error>) {
        let end = self.data_offset;
        let len = self.raw_data.len() as u64;
        if !(20 <= end && end - 20 > 28 && end <= len) {
            return Err(Error::InvalidConfigurationSlice);
        }
        let slice = slice_subrange(self.raw_data, 20, end as usize);
        Ok(ConfigurationWrapper::new(slice))
    }

    fn get_entry(&self, index: u32) -> (r: Result<Entry, Error>) {
        let entries = self.entries()?;
        let i = index as usize;
        if i < entries.len() {
            let e = entries[i].clone();
            assert(e@ == entry_views(entries@)[index as int]);
            Ok(e)
        } else {
            Err(Error::EntryNotFound)
        }
    }
}

} // verus!
