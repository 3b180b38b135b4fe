mod configuration;
mod entry;
pub mod read_back;

pub use self::configuration::{
    configuration_bytes, configuration_decoded, configuration_result, lemma_configuration_identity,
    lemma_region_roundtrip, optional_chars, ConfigurationBuf, ConfigurationView,
};
pub use self::entry::{
    child_entry_bytes, children_bytes, complex_entry_bytes, entry_bytes, entry_id, entry_key,
    simple_entry_bytes, simple_views, ComplexEntry, ComplexEntryView, Entry, EntryHeader,
    EntryView, SimpleEntry, SimpleEntryView, MASK_COMPLEX,
};

use crate::chunks::TOKEN_TABLE_TYPE;
use crate::endian::{push_bytes, push_u32, u32_bytes};
use crate::errors::Error;
use crate::model::owned::{u32s_bytes, push_u32s, OwnedBuf};
use crate::model::{entry_result, TableType};
use vstd::prelude::*;

verus! {

/// The bytes of the first `n` entries, one after the other.
pub open spec fn entries_body(entries: Seq<EntryView>, n: nat) -> Seq<u8>
    decreases n,
{
    if n == 0 || n > entries.len() {
        Seq::empty()
    } else {
        entries_body(entries, (n - 1) as nat) + entry_bytes(entries[n - 1])
    }
}

/// The offset of each entry from the start of the entries, or 0xFFFF_FFFF for an empty
/// one.
pub open spec fn entry_offsets(entries: Seq<EntryView>) -> Seq<u32> {
    Seq::new(
        entries.len(),
        |k: int|
            if entries[k] is Empty {
                0xFFFF_FFFFu32
            } else {
                entries_body(entries, k as nat).len() as u32
            },
    )
}

/// The views of a list of entries.
pub open spec fn entry_views(entries: Seq<Entry>) -> Seq<EntryView> {
    entries.map_values(|e: Entry| e@)
}

/// Owned form of a table type.
#[derive(Debug)]
pub struct TableTypeBuf {
    id: u8,
    config: ConfigurationBuf,
    entries: Vec<Entry>,
}

impl TableTypeBuf {
    pub closed spec fn spec_id_value(&self) -> u8 {
        self.id
    }

    pub closed spec fn spec_config(&self) -> ConfigurationView {
        self.config@
    }

    pub closed spec fn spec_entries(&self) -> Seq<EntryView> {
        entry_views(self.entries@)
    }

    pub fn new(id: u8, config: ConfigurationBuf) -> (r: Self)
        ensures
            r.spec_id_value() == id,
            r.spec_config() == config@,
            r.spec_entries() == Seq::<EntryView>::empty(),
    {
        let r = Self { id, config, entries: Vec::new() };
        assert(r.spec_entries() =~= Seq::<EntryView>::empty());
        r
    }

    pub fn add_entry(&mut self, entry: Entry)
        ensures
            final(self).spec_entries() == old(self).spec_entries().push(entry@),
            final(self).spec_id_value() == old(self).spec_id_value(),
            final(self).spec_config() == old(self).spec_config(),
    {
        self.entries.push(entry);
        assert(entry_views(self.entries@) =~= old(self).spec_entries().push(entry@));
    }
}

impl OwnedBuf for TableTypeBuf {
    open spec fn spec_token(&self) -> u16 {
        TOKEN_TABLE_TYPE
    }

    /// The id, the amount of entries, where the entries start, and the configuration.
    open spec fn spec_header(&self) -> Seq<u8> {
        let config = configuration_bytes(self.spec_config());
        let n = self.spec_entries().len();
        u32_bytes(self.spec_id_value() as u32) + u32_bytes(n as u32) + u32_bytes(
            (20 + config.len() + 4 * n) as u32,
        ) + config
    }

    open spec fn spec_header_size(&self) -> u16 {
        (20 + configuration_bytes(self.spec_config()).len()) as u16
    }

    /// The offsets of the entries, then the entries.
    open spec fn spec_body(&self) -> Seq<u8> {
        let entries = self.spec_entries();
        u32s_bytes(entry_offsets(entries), entries.len()) + entries_body(entries, entries.len())
    }

    open spec fn spec_fits(&self) -> bool {
        &&& 20 + configuration_bytes(self.spec_config()).len() <= u16::MAX
        &&& 20 + configuration_bytes(self.spec_config()).len() + 4 * self.spec_entries().len()
            <= u32::MAX
        &&& entries_body(self.spec_entries(), self.spec_entries().len()).len() <= u32::MAX
    }

    fn token(&self) -> (r: u16) {
        TOKEN_TABLE_TYPE
    }

    fn header(&self) -> (r: Result<Vec<u8>, Error>) {
        let mut out = Vec::new();
        let config = self.config.to_vec()?;
        let header_size: u32 = 20 + config.len() as u32;
        let n = self.entries.len() as u32;
        push_u32(&mut out, self.id as u32);
        push_u32(&mut out, n);
        push_u32(&mut out, header_size + n * 4);
        push_bytes(&mut out, config.as_slice());
        assert(out@ =~= self.spec_header());
        Ok(out)
    }

    fn header_size(&self) -> (r: u16) {
        let config = match self.config.to_vec() {
            Ok(c) => c,
            Err(_) => Vec::new(),
        };
        20 + config.len() as u16
    }

    fn body_data(&self) -> (r: Result<Vec<u8>, Error>) {
        let ghost entries = self.spec_entries();
        let mut offsets: Vec<u32> = Vec::new();
        let mut body: Vec<u8> = Vec::new();
        let mut current: u32 = 0;
        let mut k: usize = 0;
        while k < self.entries.len()
            invariant
                entries == entry_views(self.entries@),
                entries_body(entries, entries.len()).len() <= u32::MAX,
                k <= entries.len(),
                body@ == entries_body(entries, k as nat),
                current == body@.len(),
                offsets@ == entry_offsets(entries).subrange(0, k as int),
            decreases entries.len() - k,
        {
            let e = &self.entries[k];
            assert(e@ == entries[k as int]);
            let bytes = e.to_vec()?;
            proof {
                lemma_entries_body_prefix(entries, (k + 1) as nat, entries.len());
            }
            if e.is_empty() {
                offsets.push(0xFFFF_FFFF);
            } else {
                offsets.push(current);
            }
            push_bytes(&mut body, bytes.as_slice());
            current = current + bytes.len() as u32;
            k = k + 1;
            assert(body@ =~= entries_body(entries, k as nat));
            assert(offsets@ =~= entry_offsets(entries).subrange(0, k as int));
        }
        let mut out = Vec::new();
        push_u32s(&mut out, &offsets);
        push_bytes(&mut out, body.as_slice());
        assert(offsets@ =~= entry_offsets(entries));
        assert(out@ =~= self.spec_body());
        Ok(out)
    }
}

/// The entries before the `k`-th start the entries before any later one.
pub proof fn lemma_entries_body_prefix(entries: Seq<EntryView>, k: nat, n: nat)
    requires
        k <= n <= entries.len(),
    ensures
        entries_body(entries, k).len() <= entries_body(entries, n).len(),
        entries_body(entries, n).subrange(0, entries_body(entries, k).len() as int)
            == entries_body(entries, k),
    decreases n,
{
    if k < n {
        lemma_entries_body_prefix(entries, k, (n - 1) as nat);
        let before = entries_body(entries, (n - 1) as nat);
        let j = entries_body(entries, k).len() as int;
        assert(entries_body(entries, n).subrange(0, j) =~= before.subrange(0, j));
    } else {
        let all = entries_body(entries, n);
        assert(all.subrange(0, all.len() as int) =~= all);
    }
}

impl TableType for TableTypeBuf {
    type Configuration = ConfigurationBuf;

    open spec fn spec_id(&self) -> Result<u8, Error> {
        Ok(self.spec_id_value())
    }

    open spec fn spec_amount(&self) -> Result<u32, Error> {
        Ok(self.spec_entries().len() as u32)
    }

    open spec fn spec_configuration(&self) -> Result<ConfigurationView, Error> {
        Ok(self.spec_config())
    }

    open spec fn spec_entry(&self, index: u32) -> Result<EntryView, Error> {
        if index < self.spec_entries().len() {
            Ok(self.spec_entries()[index as int])
        } else {
            Err(Error::EntryOutOfBounds)
        }
    }

    fn get_id(&self) -> (r: Result<u8, Error>) {
        Ok(self.id)
    }

    fn get_amount(&self) -> (r: Result<u32, Error>) {
        Ok(self.entries.len() as u32)
    }

    fn get_configuration(&self) -> (r: Result<ConfigurationBuf, Error>) {
        Ok(self.config.clone())
    }

    fn get_entry(&self, index: u32) -> (r: Result<Entry, Error>) {
        let i = index as usize;
        if i < self.entries.len() {
            let e = self.entries[i].clone();
            assert(e@ == self.spec_entries()[index as int]);
            Ok(e)
        } else {
            Err(Error::EntryOutOfBounds)
        }
    }
}

} // verus!
