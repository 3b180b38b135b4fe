use crate::endian::{push_u16, push_u32, push_u8, u16_bytes, u32_bytes};
use crate::errors::Error;
use vstd::prelude::*;

verus! {

/// The flag that marks a complex entry.
pub const MASK_COMPLEX: u16 = 0x0001;

/// The header of an entry of a table type.
#[derive(Debug, Clone, Copy)]
pub struct EntryHeader {
    header_size: u16,
    flags: u16,
    key_index: u32,
}

impl EntryHeader {
    pub closed spec fn spec_flags(self) -> u16 {
        self.flags
    }

    pub closed spec fn spec_key_index(self) -> u32 {
        self.key_index
    }

    pub fn new(header_size: u16, flags: u16, key_index: u32) -> (r: Self)
        ensures
            r.spec_flags() == flags,
            r.spec_key_index() == key_index,
    {
        Self { header_size, flags, key_index }
    }

    /// Whether the flags mark a complex entry.
    pub fn is_complex(self) -> (r: bool)
        ensures
            r == (self.spec_flags() & MASK_COMPLEX == MASK_COMPLEX),
    {
        (self.flags & MASK_COMPLEX) == MASK_COMPLEX
    }

    pub fn get_key_index(self) -> (r: u32)
        ensures
            r == self.spec_key_index(),
    {
        self.key_index
    }
}

/// The fields of a simple entry.
pub struct SimpleEntryView {
    pub id: u32,
    pub key: u32,
    pub value_type: u8,
    pub value: u32,
}

/// An entry that holds one value.
#[derive(Debug, Clone, Copy)]
pub struct SimpleEntry {
    id: u32,
    key_index: u32,
    value_type: u8,
    value_data: u32,
}

impl View for SimpleEntry {
    type V = SimpleEntryView;

    closed spec fn view(&self) -> SimpleEntryView {
        SimpleEntryView {
            id: self.id,
            key: self.key_index,
            value_type: self.value_type,
            value: self.value_data,
        }
    }
}

/// The bytes of a simple entry: header size 8, no flags, the key, then the value (size
/// 8, a zero byte, the type and the data).
pub open spec fn simple_entry_bytes(e: SimpleEntryView) -> Seq<u8> {
    u16_bytes(8) + u16_bytes(0) + u32_bytes(e.key) + u16_bytes(8) + seq![0u8, e.value_type]
        + u32_bytes(e.value)
}

/// The bytes of a value of a complex entry: its id, then the value (size 8, a zero byte,
/// the type and the data).
pub open spec fn child_entry_bytes(e: SimpleEntryView) -> Seq<u8> {
    u32_bytes(e.id) + u16_bytes(8) + seq![0u8, e.value_type] + u32_bytes(e.value)
}

/// The bytes of the first `n` values of a complex entry.
pub open spec fn children_bytes(children: Seq<SimpleEntryView>, n: nat) -> Seq<u8>
    decreases n,
{
    if n == 0 || n > children.len() {
        Seq::empty()
    } else {
        children_bytes(children, (n - 1) as nat) + child_entry_bytes(children[n - 1])
    }
}

fn push_value(out: &mut Vec<u8>, value_type: u8, value: u32)
    ensures
        final(out)@ == old(out)@ + u16_bytes(8) + seq![0u8, value_type] + u32_bytes(value),
{
    push_u16(out, 8);
    push_u8(out, 0);
    push_u8(out, value_type);
    push_u32(out, value);
    assert(out@ =~= old(out)@ + u16_bytes(8) + seq![0u8, value_type] + u32_bytes(value));
}

impl SimpleEntry {
    pub fn new(id: u32, key_index: u32, value_type: u8, value_data: u32) -> (r: Self)
        ensures
            r@ == (SimpleEntryView { id, key: key_index, value_type, value: value_data }),
    {
        Self { id, key_index, value_type, value_data }
    }

    pub fn get_id(&self) -> (r: u32)
        ensures
            r == self@.id,
    {
        self.id
    }

    pub fn get_key(&self) -> (r: u32)
        ensures
            r == self@.key,
    {
        self.key_index
    }

    pub fn get_type(&self) -> (r: u8)
        ensures
            r == self@.value_type,
    {
        self.value_type
    }

    pub fn get_value(&self) -> (r: u32)
        ensures
            r == self@.value,
    {
        self.value_data
    }

    pub fn to_vec(&self) -> (r: Result<Vec<u8>, Error>)
        ensures
            r matches Ok(v) && v@ == simple_entry_bytes(self@),
    {
        let mut out = Vec::new();
        push_u16(&mut out, 8);
        push_u16(&mut out, 0);
        push_u32(&mut out, self.key_index);
        push_value(&mut out, self.value_type, self.value_data);
        assert(out@ =~= simple_entry_bytes(self@));
        Ok(out)
    }
}

/// The fields of a complex entry.
pub struct ComplexEntryView {
    pub id: u32,
    pub key: u32,
    pub parent: u32,
    pub entries: Seq<SimpleEntryView>,
}

/// The views of a list of simple entries.
pub open spec fn simple_views(entries: Seq<SimpleEntry>) -> Seq<SimpleEntryView> {
    entries.map_values(|e: SimpleEntry| e@)
}

/// An entry that holds several values, each with an id, and names a parent entry.
#[derive(Debug)]
pub struct ComplexEntry {
    id: u32,
    key_index: u32,
    parent_entry_id: u32,
    entries: Vec<SimpleEntry>,
}

impl View for ComplexEntry {
    type V = ComplexEntryView;

    closed spec fn view(&self) -> ComplexEntryView {
        ComplexEntryView {
            id: self.id,
            key: self.key_index,
            parent: self.parent_entry_id,
            entries: simple_views(self.entries@),
        }
    }
}

/// The bytes of a complex entry: header size 16, the complex flag, the key, the parent,
/// the amount of values (0xFFFF_FFFF for none), then the values.
pub open spec fn complex_entry_bytes(e: ComplexEntryView) -> Seq<u8> {
    let n = e.entries.len();
    u16_bytes(16) + u16_bytes(1) + u32_bytes(e.key) + u32_bytes(e.parent) + u32_bytes(
        if n as u32 == 0 {
            0xFFFF_FFFFu32
        } else {
            n as u32
        },
    ) + children_bytes(e.entries, n)
}

impl Clone for ComplexEntry {
    fn clone(&self) -> (r: Self)
        ensures
            r@ == self@,
    {
        let mut entries = Vec::new();
        let mut i: usize = 0;
        while i < self.entries.len()
            invariant
                i <= self.entries@.len(),
                entries@ == self.entries@.subrange(0, i as int),
            decreases self.entries@.len() - i,
        {
            entries.push(self.entries[i]);
            i = i + 1;
            assert(entries@ =~= self.entries@.subrange(0, i as int));
        }
        assert(entries@ =~= self.entries@);
        ComplexEntry {
            id: self.id,
            key_index: self.key_index,
            parent_entry_id: self.parent_entry_id,
            entries,
        }
    }
}

impl ComplexEntry {
    pub fn new(id: u32, key_index: u32, parent_entry_id: u32, entries: Vec<SimpleEntry>) -> (r:
        Self)
        ensures
            r@ == (ComplexEntryView {
                id,
                key: key_index,
                parent: parent_entry_id,
                entries: simple_views(entries@),
            }),
    {
        Self { id, key_index, parent_entry_id, entries }
    }

    pub fn get_id(&self) -> (r: u32)
        ensures
            r == self@.id,
    {
        self.id
    }

    pub fn get_key(&self) -> (r: u32)
        ensures
            r == self@.key,
    {
        self.key_index
    }

    /// The id of the first value whose data is `value`.
    pub fn get_referent_id(&self, value: u32) -> (r: Option<u32>)
        ensures
            match r {
                Some(id) => exists|k: int|
                    {
                        &&& 0 <= k < self@.entries.len()
                        &&& #[trigger] self@.entries[k].value == value
                        &&& self@.entries[k].id == id
                        &&& forall|j: int| 0 <= j < k ==> self@.entries[j].value != value
                    },
                None => forall|k: int|
                    0 <= k < self@.entries.len() ==> #[trigger] self@.entries[k].value != value,
            },
    {
        let mut i: usize = 0;
        while i < self.entries.len()
            invariant
                i <= self.entries@.len(),
                forall|j: int| 0 <= j < i ==> self@.entries[j].value != value,
            decreases self.entries@.len() - i,
        {
            if self.entries[i].get_value() == value {
                assert(self@.entries[i as int] == self.entries@[i as int]@);
                return Some(self.entries[i].get_id());
            }
            assert(self@.entries[i as int] == self.entries@[i as int]@);
            i = i + 1;
        }
        None
    }

    pub fn get_entries(&self) -> (r: &Vec<SimpleEntry>)
        ensures
            simple_views(r@) == self@.entries,
    {
        &self.entries
    }

    pub fn to_vec(&self) -> (r: Result<Vec<u8>, Error>)
        ensures
            r matches Ok(v) && v@ == complex_entry_bytes(self@),
    {
        let ghost children = self@.entries;
        let mut out = Vec::new();
        push_u16(&mut out, 16);
        push_u16(&mut out, 1);
        push_u32(&mut out, self.key_index);
        push_u32(&mut out, self.parent_entry_id);
        let amount = self.entries.len() as u32;
        if amount == 0 {
            push_u32(&mut out, 0xFFFF_FFFF);
        } else {
            push_u32(&mut out, amount);
        }
        let ghost head = out@;
        let mut i: usize = 0;
        while i < self.entries.len()
            invariant
                i <= self.entries@.len(),
                children == simple_views(self.entries@),
                out@ == head + children_bytes(children, i as nat),
            decreases self.entries@.len() - i,
        {
            let e = self.entries[i];
            push_u32(&mut out, e.get_id());
            push_value(&mut out, e.get_type(), e.get_value());
            i = i + 1;
            assert(out@ =~= head + children_bytes(children, i as nat));
        }
        assert(out@ =~= complex_entry_bytes(self@));
        Ok(out)
    }
}

/// The fields of an entry.
pub enum EntryView {
    Empty(u32, u32),
    Simple(SimpleEntryView),
    Complex(ComplexEntryView),
}

/// An entry of a table type.
#[derive(Debug)]
pub enum Entry {
    Empty(u32, u32),
    Simple(SimpleEntry),
    Complex(ComplexEntry),
}

impl View for Entry {
    type V = EntryView;

    open spec fn view(&self) -> EntryView {
        match self {
            Entry::Empty(id, key) => EntryView::Empty(*id, *key),
            Entry::Simple(s) => EntryView::Simple(s@),
            Entry::Complex(c) => EntryView::Complex(c@),
        }
    }
}

/// The id of an entry.
pub open spec fn entry_id(e: EntryView) -> u32 {
    match e {
        EntryView::Empty(id, _) => id,
        EntryView::Simple(s) => s.id,
        EntryView::Complex(c) => c.id,
    }
}

/// The key of an entry.
pub open spec fn entry_key(e: EntryView) -> u32 {
    match e {
        EntryView::Empty(_, key) => key,
        EntryView::Simple(s) => s.key,
        EntryView::Complex(c) => c.key,
    }
}

/// The bytes of an entry; an empty entry has none.
pub open spec fn entry_bytes(e: EntryView) -> Seq<u8> {
    match e {
        EntryView::Empty(_, _) => Seq::empty(),
        EntryView::Simple(s) => simple_entry_bytes(s),
        EntryView::Complex(c) => complex_entry_bytes(c),
    }
}

impl Clone for Entry {
    fn clone(&self) -> (r: Self)
        ensures
            r@ == self@,
    {
        match self {
            Entry::Empty(id, key) => Entry::Empty(*id, *key),
            Entry::Simple(s) => Entry::Simple(*s),
            Entry::Complex(c) => Entry::Complex(c.clone()),
        }
    }
}

impl Entry {
    pub fn simple(&self) -> (r: Result<&SimpleEntry, Error>)
        ensures
            match self@ {
                EntryView::Simple(s) => r matches Ok(e) && e@ == s,
                _ => r == Err::<&SimpleEntry, Error>(Error::NotSimpleEntry),
            },
    {
        match self {
            Entry::Simple(simple) => Ok(simple),
            _ => Err(Error::NotSimpleEntry),
        }
    }

    pub fn complex(&self) -> (r: Result<&ComplexEntry, Error>)
        ensures
            match self@ {
                EntryView::Complex(c) => r matches Ok(e) && e@ == c,
                _ => r == Err::<&ComplexEntry, Error>(Error::NotComplexEntry),
            },
    {
        match self {
            Entry::Complex(complex) => Ok(complex),
            _ => Err(Error::NotComplexEntry),
        }
    }

    pub fn is_empty(&self) -> (r: bool)
        ensures
            r == (self@ is Empty),
    {
        match self {
            Entry::Empty(_, _) => true,
            _ => false,
        }
    }

    pub fn get_id(&self) -> (r: u32)
        ensures
            r == entry_id(self@),
    {
        match self {
            Entry::Complex(complex) => complex.get_id(),
            Entry::Simple(simple) => simple.get_id(),
            Entry::Empty(id, _) => *id,
        }
    }

    pub fn get_key(&self) -> (r: u32)
        ensures
            r == entry_key(self@),
    {
        match self {
            Entry::Complex(complex) => complex.get_key(),
            Entry::Simple(simple) => simple.get_key(),
            Entry::Empty(_, key) => *key,
        }
    }

    pub fn to_vec(&self) -> (r: Result<Vec<u8>, Error>)
        ensures
            r matches Ok(v) && v@ == entry_bytes(self@),
    {
        match self {
            Entry::Complex(complex) => complex.to_vec(),
            Entry::Simple(simple) => simple.to_vec(),
            Entry::Empty(_, _) => Ok(Vec::new()),
        }
    }
}

} // verus!
