//! Chunks: the units that binary documents are made of, read in place from the
//! document's bytes.

use crate::endian::{get_u16, get_u32, read_u16_spec, read_u32_spec, u16_at, u32_at};
use crate::errors::Error;
use vstd::prelude::*;
use vstd::slice::slice_subrange;

pub mod chunk_header;
pub mod package;
pub mod resource;
pub mod string_table;
pub mod table_type;
pub mod table_type_spec;
pub mod xml;

pub use self::chunk_header::ChunkHeader;
pub use self::package::PackageWrapper;
pub use self::table_type::{ConfigurationWrapper, Region, TableTypeWrapper};
pub use self::resource::ResourceWrapper;
pub use self::string_table::{StringTableCache, StringTableWrapper};
pub use self::table_type_spec::TypeSpecWrapper;
pub use self::xml::{
    AttributeWrapper, XmlNamespaceEndWrapper, XmlNamespaceStartWrapper, XmlTagEndWrapper,
    XmlTagStartWrapper, XmlTextWrapper,
};

verus! {

pub const TOKEN_STRING_TABLE: u16 = 0x0001;

pub const TOKEN_RESOURCE: u16 = 0x0180;

pub const TOKEN_PACKAGE: u16 = 0x0200;

pub const TOKEN_TABLE_TYPE: u16 = 0x201;

pub const TOKEN_TABLE_SPEC: u16 = 0x202;

pub const TOKEN_XML_START_NAMESPACE: u16 = 0x100;

pub const TOKEN_XML_END_NAMESPACE: u16 = 0x101;

pub const TOKEN_XML_TAG_START: u16 = 0x102;

pub const TOKEN_XML_TAG_END: u16 = 0x103;

pub const TOKEN_XML_TEXT: u16 = 0x104;

/// A chunk, read in place.
#[derive(Debug)]
pub enum Chunk<'a> {
    StringTable(StringTableWrapper<'a>),
    Package(PackageWrapper<'a>),
    TableTypeSpec(TypeSpecWrapper<'a>),
    TableType(TableTypeWrapper<'a>),
    XmlNamespaceStart(XmlNamespaceStartWrapper<'a>),
    XmlNamespaceEnd(XmlNamespaceEndWrapper<'a>),
    XmlTagStart(XmlTagStartWrapper<'a>),
    XmlTagEnd(XmlTagEndWrapper<'a>),
    XmlText(XmlTextWrapper<'a>),
    Resource(ResourceWrapper<'a>),
    Unknown,
}

/// Whether `chunk` is the chunk that a header with `token` and `header_size` gives over
/// the bytes `slice`: the wrapper that the token names, over those bytes, or `Unknown`.
pub open spec fn chunk_is(chunk: Chunk, token: u16, header_size: u16, slice: Seq<u8>) -> bool {
    match chunk {
        Chunk::StringTable(w) => token == TOKEN_STRING_TABLE && w@ == slice,
        Chunk::Package(w) => token == TOKEN_PACKAGE && w@ == slice,
        Chunk::TableTypeSpec(w) => token == TOKEN_TABLE_SPEC && w@ == slice,
        Chunk::TableType(w) => token == TOKEN_TABLE_TYPE && w@ == slice && w.spec_data_offset()
            == header_size,
        Chunk::XmlNamespaceStart(w) => token == TOKEN_XML_START_NAMESPACE && w@ == slice,
        Chunk::XmlNamespaceEnd(w) => token == TOKEN_XML_END_NAMESPACE && w@ == slice,
        Chunk::XmlTagStart(w) => token == TOKEN_XML_TAG_START && w@ == slice,
        Chunk::XmlTagEnd(w) => token == TOKEN_XML_TAG_END && w@ == slice,
        Chunk::XmlText(w) => token == TOKEN_XML_TEXT && w@ == slice,
        Chunk::Resource(w) => token == TOKEN_RESOURCE && w@ == slice,
        Chunk::Unknown => token != TOKEN_STRING_TABLE && token != TOKEN_PACKAGE && token
            != TOKEN_TABLE_SPEC && token != TOKEN_TABLE_TYPE && token != TOKEN_XML_START_NAMESPACE
            && token != TOKEN_XML_END_NAMESPACE && token != TOKEN_XML_TAG_START && token
            != TOKEN_XML_TAG_END && token != TOKEN_XML_TEXT && token != TOKEN_RESOURCE,
    }
}

/// Whether a stream at `pos`, which last read at `previous`, is done: it is back where it
/// last read, or past the end of the data.
pub open spec fn stream_done(data: Seq<u8>, pos: int, previous: Option<u64>) -> bool {
    previous == Some(pos as u64) || pos >= data.len()
}

/// Where a stream goes after reading the chunk at `pos`: into a package, past its header;
/// past any other chunk.
pub open spec fn stream_next_position(data: Seq<u8>, pos: int) -> int {
    if u16_at(data, pos) == TOKEN_PACKAGE {
        pos + u16_at(data, pos + 2)
    } else {
        pos + u32_at(data, pos + 4)
    }
}

/// Whether every chunk that a stream at `pos` reads lies inside the data.
pub open spec fn stream_in_bounds(data: Seq<u8>, pos: int, previous: Option<u64>) -> bool
    decreases
            (if pos < data.len() {
                data.len() - pos
            } else {
                0
            }),
            (if previous == Some(pos as u64) {
                0int
            } else {
                1int
            }),
{
    if pos < 0 || stream_done(data, pos, previous) || pos + 8 > data.len() {
        true
    } else {
        &&& pos + u32_at(data, pos + 4) <= data.len()
        &&& pos + u16_at(data, pos + 2) <= u64::MAX
        &&& stream_next_position(data, pos) >= pos
        &&& stream_in_bounds(data, stream_next_position(data, pos), Some(pos as u64))
    }
}

/// The error that a stream at `pos` ends with, if any: a chunk header cut short by the
/// end of the data.
pub open spec fn stream_error(data: Seq<u8>, pos: int, previous: Option<u64>) -> Option<Error>
    decreases
            (if pos < data.len() {
                data.len() - pos
            } else {
                0
            }),
            (if previous == Some(pos as u64) {
                0int
            } else {
                1int
            }),
{
    if pos < 0 || stream_done(data, pos, previous) {
        None
    } else if pos + 8 > data.len() {
        Some(Error::UnexpectedEof)
    } else if stream_next_position(data, pos) < pos {
        None
    } else {
        stream_error(data, stream_next_position(data, pos), Some(pos as u64))
    }
}

/// Where the chunks that a stream at `pos`, which last read at `previous`, reads one
/// after the other start, up to its end or to a chunk header cut short.
pub open spec fn stream_starts(data: Seq<u8>, pos: int, previous: Option<u64>) -> Seq<int>
    decreases
            (if pos < data.len() {
                data.len() - pos
            } else {
                0
            }),
            (if previous == Some(pos as u64) {
                0int
            } else {
                1int
            }),
{
    if pos < 0 || stream_done(data, pos, previous) || pos + 8 > data.len()
        || stream_next_position(data, pos) < pos {
        Seq::empty()
    } else {
        seq![pos] + stream_starts(data, stream_next_position(data, pos), Some(pos as u64))
    }
}

/// A stream moves forward: each chunk it reads starts strictly after the one before it,
/// at or after where the stream stands and before the end of the data, so it reads at
/// most as many chunks as there are bytes left.
pub proof fn lemma_stream_moves_forward(data: Seq<u8>, pos: int, previous: Option<u64>)
    requires
        0 <= pos,
        stream_in_bounds(data, pos, previous),
    ensures
        forall|i: int, j: int|
            0 <= i < j < stream_starts(data, pos, previous).len() ==> stream_starts(
                data,
                pos,
                previous,
            )[i] < stream_starts(data, pos, previous)[j],
        forall|i: int|
            0 <= i < stream_starts(data, pos, previous).len() ==> pos <= #[trigger] stream_starts(
                data,
                pos,
                previous,
            )[i] < data.len(),
        stream_starts(data, pos, previous).len() <= if pos < data.len() {
            data.len() - pos
        } else {
            0
        },
    decreases
            (if pos < data.len() {
                data.len() - pos
            } else {
                0
            }),
            (if previous == Some(pos as u64) {
                0int
            } else {
                1int
            }),
{
    if pos < 0 || stream_done(data, pos, previous) || pos + 8 > data.len()
        || stream_next_position(data, pos) < pos {
    } else {
        let next = stream_next_position(data, pos);
        lemma_stream_moves_forward(data, next, Some(pos as u64));
        let rest = stream_starts(data, next, Some(pos as u64));
        let all = stream_starts(data, pos, previous);
        assert(all == seq![pos] + rest);
        if next == pos {
            assert(rest.len() == 0);
        } else {
            assert forall|i: int| 0 <= i < rest.len() implies pos < #[trigger] rest[i] by {}
        }
        assert forall|i: int, j: int| 0 <= i < j < all.len() implies all[i] < all[j] by {
            if i == 0 {
                assert(all[j] == rest[j - 1]);
            } else {
                assert(all[i] == rest[i - 1]);
                assert(all[j] == rest[j - 1]);
            }
        }
        assert forall|i: int| 0 <= i < all.len() implies pos <= #[trigger] all[i] < data.len() by {
            if i > 0 {
                assert(all[i] == rest[i - 1]);
            }
        }
    }
}

/// Whether every chunk that a stream starting at `start` reads lies inside `data`.
pub fn chunks_in_bounds(data: &[u8], start: u64) -> (r: bool)
    ensures
        r == stream_in_bounds(data@, start as int, None),
{
    let len = data.len() as u64;
    let mut pos: u64 = start;
    let mut previous: Option<u64> = None;
    loop
        invariant
            len == data@.len(),
            stream_in_bounds(data@, start as int, None) == stream_in_bounds(
                data@,
                pos as int,
                previous,
            ),
        decreases
                (if pos < data@.len() {
                    data@.len() - pos
                } else {
                    0
                }),
                (if previous == Some(pos) {
                    0int
                } else {
                    1int
                }),
    {
        if previous == Some(pos) || pos >= len || len - pos < 8 {
            return true;
        }
        let token = match get_u16(data, pos) {
            Ok(v) => v,
            Err(_) => {
                return true;
            },
        };
        let header_size = match get_u16(data, pos + 2) {
            Ok(v) => v,
            Err(_) => {
                return true;
            },
        };
        let chunk_size = match get_u32(data, pos + 4) {
            Ok(v) => v,
            Err(_) => {
                return true;
            },
        };
        if chunk_size as u64 > len - pos || header_size as u64 > u64::MAX - pos {
            return false;
        }
        let next = if token == TOKEN_PACKAGE {
            pos + header_size as u64
        } else {
            pos + chunk_size as u64
        };
        assert(next as int == stream_next_position(data@, pos as int));
        previous = Some(pos);
        pos = next;
    }
}

/// Reads the chunks of a buffer one after the other, going into packages. It stops at the
/// end of the data, after a chunk that leaves it where it was, and after an error.
#[derive(Debug)]
pub struct ChunkLoaderStream<'a> {
    data: &'a [u8],
    position: u64,
    previous: Option<u64>,
}

impl<'a> ChunkLoaderStream<'a> {
    pub closed spec fn spec_data(&self) -> Seq<u8> {
        self.data@
    }

    pub closed spec fn spec_position(&self) -> u64 {
        self.position
    }

    pub closed spec fn spec_previous(&self) -> Option<u64> {
        self.previous
    }

    /// A stream over `data` that starts reading at `position`.
    pub fn new(data: &'a [u8], position: u64) -> (r: Self)
        ensures
            r.spec_data() == data@,
            r.spec_position() == position,
            r.spec_previous() == None::<u64>,
    {
        Self { data, position, previous: None }
    }

    /// Reads the chunk at the current position and moves past it (or, for a package, past
    /// its header).
    fn read_one(&mut self) -> (r: Result<Chunk<'a>, Error>)
        requires
            old(self).spec_position() < old(self).spec_data().len(),
            stream_in_bounds(
                old(self).spec_data(),
                old(self).spec_position() as int,
                None,
            ),
        ensures
            final(self).spec_data() == old(self).spec_data(),
            final(self).spec_previous() == old(self).spec_previous(),
            ({
                let data = old(self).spec_data();
                let pos = old(self).spec_position() as int;
                if pos + 8 > data.len() {
                    &&& r == Err::<Chunk, Error>(Error::UnexpectedEof)
                    &&& final(self).spec_position() == data.len()
                } else {
                    &&& r matches Ok(chunk) && chunk_is(
                        chunk,
                        u16_at(data, pos),
                        u16_at(data, pos + 2),
                        data.subrange(pos, pos + u32_at(data, pos + 4)),
                    )
                    &&& final(self).spec_position() == stream_next_position(data, pos)
                }
            }),
    {
        let data = self.data;
        let pos = self.position;
        let len = data.len() as u64;
        if len - pos < 8 {
            self.position = len;
            return Err(Error::UnexpectedEof);
        }
        let token = match get_u16(data, pos) {
            Ok(v) => v,
            Err(e) => {
                self.position = len;
                return Err(e);
            },
        };
        let header_size = match get_u16(data, pos + 2) {
            Ok(v) => v,
            Err(e) => {
                self.position = len;
                return Err(e);
            },
        };
        let chunk_size = match get_u32(data, pos + 4) {
            Ok(v) => v,
            Err(e) => {
                self.position = len;
                return Err(e);
            },
        };
        let header = ChunkHeader::new(pos, header_size, chunk_size, token);
        let end = header.get_chunk_end();
        let slice = slice_subrange(data, pos as usize, end as usize);
        let chunk = match token {
            TOKEN_STRING_TABLE => Chunk::StringTable(StringTableWrapper::new(slice)),
            TOKEN_PACKAGE => Chunk::Package(PackageWrapper::new(slice)),
            TOKEN_TABLE_SPEC => Chunk::TableTypeSpec(TypeSpecWrapper::new(slice)),
            TOKEN_TABLE_TYPE => Chunk::TableType(
                TableTypeWrapper::new(slice, header.get_data_offset() - header.get_offset()),
            ),
            TOKEN_XML_START_NAMESPACE => Chunk::XmlNamespaceStart(
                XmlNamespaceStartWrapper::new(slice),
            ),
            TOKEN_XML_END_NAMESPACE => Chunk::XmlNamespaceEnd(XmlNamespaceEndWrapper::new(slice)),
            TOKEN_XML_TAG_START => Chunk::XmlTagStart(XmlTagStartWrapper::new(slice)),
            TOKEN_XML_TAG_END => Chunk::XmlTagEnd(XmlTagEndWrapper::new(slice)),
            TOKEN_XML_TEXT => Chunk::XmlText(XmlTextWrapper::new(slice)),
            TOKEN_RESOURCE => Chunk::Resource(ResourceWrapper::new(slice)),
            _ => Chunk::Unknown,
        };
        if token == TOKEN_PACKAGE {
            self.position = header.get_data_offset();
        } else {
            self.position = end;
        }
        Ok(chunk)
    }

    /// The next chunk, or `None` when the stream is done.
    pub fn next(&mut self) -> (r: Option<Result<Chunk<'a>, Error>>)
        requires
            stream_in_bounds(
                old(self).spec_data(),
                old(self).spec_position() as int,
                old(self).spec_previous(),
            ),
        ensures
            final(self).spec_data() == old(self).spec_data(),
            r matches Some(Ok(_)) ==> stream_starts(
                old(self).spec_data(),
                old(self).spec_position() as int,
                old(self).spec_previous(),
            ) == seq![old(self).spec_position() as int] + stream_starts(
                final(self).spec_data(),
                final(self).spec_position() as int,
                final(self).spec_previous(),
            ),
            !(r matches Some(Ok(_))) ==> stream_starts(
                old(self).spec_data(),
                old(self).spec_position() as int,
                old(self).spec_previous(),
            ) == Seq::<int>::empty(),
            ({
                let data = old(self).spec_data();
                let pos = old(self).spec_position() as int;
                if stream_done(data, pos, old(self).spec_previous()) {
                    &&& r is None
                    &&& final(self).spec_position() == old(self).spec_position()
                    &&& final(self).spec_previous() == old(self).spec_previous()
                } else {
                    &&& final(self).spec_previous() == Some(pos as u64)
                    &&& if pos + 8 > data.len() {
                        &&& r == Some(Err::<Chunk, Error>(Error::UnexpectedEof))
                        &&& final(self).spec_position() == data.len()
                    } else {
                        &&& r matches Some(Ok(chunk)) && chunk_is(
                            chunk,
                            u16_at(data, pos),
                            u16_at(data, pos + 2),
                            data.subrange(pos, pos + u32_at(data, pos + 4)),
                        )
                        &&& final(self).spec_position() == stream_next_position(data, pos)
                    }
                }
            }),
    {
        if let Some(prev) = self.previous {
            if prev == self.position {
                return None;
            }
        }
        if self.position >= self.data.len() as u64 {
            return None;
        }
        self.previous = Some(self.position);
        Some(self.read_one())
    }
}

} // verus!
