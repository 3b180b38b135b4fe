//! Visitors that are fed from the chunks of a document, one after the other.

use crate::chunks::{
    chunks_in_bounds, stream_done, stream_error, stream_in_bounds, stream_next_position, Chunk, ChunkLoaderStream,
    PackageWrapper, ResourceWrapper, StringTableWrapper, TableTypeWrapper, TypeSpecWrapper,
    XmlNamespaceEndWrapper, XmlNamespaceStartWrapper, XmlTagEndWrapper, XmlTagStartWrapper,
    XmlTextWrapper,
};
use crate::chunks::{
    TOKEN_PACKAGE, TOKEN_RESOURCE, TOKEN_STRING_TABLE, TOKEN_TABLE_SPEC, TOKEN_TABLE_TYPE,
    TOKEN_XML_END_NAMESPACE, TOKEN_XML_START_NAMESPACE, TOKEN_XML_TAG_END, TOKEN_XML_TAG_START,
    TOKEN_XML_TEXT,
};
use crate::endian::{get_u16, get_u32, read_u16_spec, u16_at, u32_at};
use crate::errors::Error;
use vstd::prelude::*;

pub mod model;
pub mod print;
pub mod xml;

pub use self::model::{Library, ModelVisitor, Resources};
pub use self::print::PrintVisitor;

verus! {

/// Which of the string tables of a `resources.arsc` file a string table is: the global
/// one, then, in each package, the one of the type names and the one of the entry names.
#[derive(Debug, Clone, Copy, PartialEq, Eq, Hash, Structural)]
pub enum Origin {
    Global,
    Spec,
    Entries,
}

/// The origin of the string table that follows one of origin `o`.
pub open spec fn next_origin(o: Origin) -> Origin {
    match o {
        Origin::Global => Origin::Spec,
        Origin::Spec => Origin::Entries,
        Origin::Entries => Origin::Global,
    }
}

impl Origin {
    pub fn next(origin: Self) -> (r: Self)
        ensures
            r == next_origin(origin),
    {
        match origin {
            Origin::Global => Origin::Spec,
            Origin::Spec => Origin::Entries,
            Origin::Entries => Origin::Global,
        }
    }
}

/// The origins come back every three string tables.
pub proof fn lemma_origin_cycle(o: Origin)
    ensures
        next_origin(next_origin(next_origin(o))) == o,
        next_origin(o) != o,
{
}

/// A chunk as a visitor receives it: the method that it is handed to, with the bytes of
/// the chunk; for a string table, its origin too, and for a table type, where its
/// entries start.
pub enum Visit {
    StringTable(Seq<u8>, Origin),
    Package(Seq<u8>),
    TableType(Seq<u8>, u64),
    TypeSpec(Seq<u8>),
    XmlNamespaceStart(Seq<u8>),
    XmlNamespaceEnd(Seq<u8>),
    XmlTagStart(Seq<u8>),
    XmlTagEnd(Seq<u8>),
    XmlText(Seq<u8>),
    Resource(Seq<u8>),
}

/// Receives the chunks of a document. What a visitor does with each chunk is stated by
/// `steps`, which every method meets; a visitor that says nothing of it leaves it `true`.
pub trait ChunkVisitor<'a>: Sized {
    /// Whether a visitor in state `before` that is handed `visit` may end in `after`.
    open spec fn steps(before: Self, after: Self, visit: Visit) -> bool {
        true
    }

    fn visit_string_table(&mut self, string_table: StringTableWrapper<'a>, origin: Origin)
        ensures
            Self::steps(*old(self), *final(self), Visit::StringTable(string_table@, origin)),
    ;

    fn visit_package(&mut self, package: PackageWrapper<'a>)
        ensures
            Self::steps(*old(self), *final(self), Visit::Package(package@)),
    ;

    fn visit_table_type(&mut self, table_type: TableTypeWrapper<'a>)
        ensures
            Self::steps(*old(self), *final(self), Visit::TableType(table_type@, table_type.spec_data_offset())),
    ;

    fn visit_type_spec(&mut self, type_spec: TypeSpecWrapper<'a>)
        ensures
            Self::steps(*old(self), *final(self), Visit::TypeSpec(type_spec@)),
    ;

    fn visit_xml_namespace_start(&mut self, namespace_start: XmlNamespaceStartWrapper<'a>)
        ensures
            Self::steps(*old(self), *final(self), Visit::XmlNamespaceStart(namespace_start@)),
    ;

    fn visit_xml_namespace_end(&mut self, namespace_end: XmlNamespaceEndWrapper<'a>)
        ensures
            Self::steps(*old(self), *final(self), Visit::XmlNamespaceEnd(namespace_end@)),
    ;

    fn visit_xml_tag_start(&mut self, tag_start: XmlTagStartWrapper<'a>)
        ensures
            Self::steps(*old(self), *final(self), Visit::XmlTagStart(tag_start@)),
    ;

    fn visit_xml_tag_end(&mut self, tag_end: XmlTagEndWrapper<'a>)
        ensures
            Self::steps(*old(self), *final(self), Visit::XmlTagEnd(tag_end@)),
    ;

    fn visit_xml_text(&mut self, text: XmlTextWrapper<'a>)
        ensures
            Self::steps(*old(self), *final(self), Visit::XmlText(text@)),
    ;

    fn visit_resource(&mut self, resource: ResourceWrapper<'a>)
        ensures
            Self::steps(*old(self), *final(self), Visit::Resource(resource@)),
    ;
}

/// Whether a document with the given first token can be walked: when it starts with that
/// token and holds the `header_len` bytes of its header, every chunk after its header lies
/// inside it.
pub open spec fn walkable(data: Seq<u8>, token: u16, header_len: int) -> bool {
    (read_u16_spec(data, 0) == Some(token) && data.len() >= header_len) ==> stream_in_bounds(
        data,
        u16_at(data, 2) as int,
        None,
    )
}

/// Whether the document `data` can be walked: see `walkable`.
pub fn is_walkable(data: &[u8], token: u16, header_len: u64) -> (r: bool)
    ensures
        r == walkable(data@, token, header_len as int),
{
    match get_u16(data, 0) {
        Ok(t) => if t == token && data.len() as u64 >= header_len {
            match get_u16(data, 2) {
                Ok(header_size) => chunks_in_bounds(data, header_size as u64),
                Err(_) => true,
            }
        } else {
            true
        },
        Err(_) => true,
    }
}

/// What walking a document gives: `wrong` when it does not start with `token`, an error
/// when it is shorter than its header of `header_len` bytes, else the error its chunks end
/// with, if any.
pub open spec fn walk_result(data: Seq<u8>, token: u16, header_len: int, wrong: Error) -> Result<
    (),
    Error,
> {
    match read_u16_spec(data, 0) {
        None => Err(Error::UnexpectedEof),
        Some(t) => if t != token {
            Err(wrong)
        } else if data.len() < header_len {
            Err(Error::UnexpectedEof)
        } else {
            match stream_error(data, u16_at(data, 2) as int, None) {
                Some(e) => Err(e),
                None => Ok(()),
            }
        },
    }
}

/// The bytes of the chunk that starts at `pos`, as far as its announced size goes.
pub open spec fn chunk_at(data: Seq<u8>, pos: int) -> Seq<u8> {
    data.subrange(pos, pos + u32_at(data, pos + 4))
}

/// What a stream at `pos`, which last read at `previous`, hands to a visitor while it
/// walks a `resources.arsc` file: the string tables, with `origin` for the first and the
/// origins in turn after it, the packages, table types and type specs; other chunks are
/// left out.
pub open spec fn arsc_visits(data: Seq<u8>, pos: int, previous: Option<u64>, origin: Origin) -> Seq<
    Visit,
>
    decreases
            (if pos < data.len() {
                data.len() - pos
            } else {
                0
            }),
            (if previous == Some(pos as u64) {
                0int
            } else {
                1int
            }),
{
    if pos < 0 || stream_done(data, pos, previous) || pos + 8 > data.len()
        || stream_next_position(data, pos) < pos {
        Seq::empty()
    } else {
        let next = stream_next_position(data, pos);
        let chunk = chunk_at(data, pos);
        let token = u16_at(data, pos);
        if token == TOKEN_STRING_TABLE {
            seq![Visit::StringTable(chunk, origin)] + arsc_visits(
                data,
                next,
                Some(pos as u64),
                next_origin(origin),
            )
        } else if token == TOKEN_PACKAGE {
            seq![Visit::Package(chunk)] + arsc_visits(data, next, Some(pos as u64), origin)
        } else if token == TOKEN_TABLE_TYPE {
            seq![Visit::TableType(chunk, u16_at(data, pos + 2) as u64)] + arsc_visits(
                data,
                next,
                Some(pos as u64),
                origin,
            )
        } else if token == TOKEN_TABLE_SPEC {
            seq![Visit::TypeSpec(chunk)] + arsc_visits(data, next, Some(pos as u64), origin)
        } else {
            arsc_visits(data, next, Some(pos as u64), origin)
        }
    }
}

/// The visit that a binary XML document makes of the chunk at `pos`, if any: string
/// tables (all of origin `Global`), namespaces, tags, texts and resource ids.
pub open spec fn xml_visit(data: Seq<u8>, pos: int) -> Option<Visit> {
    let chunk = chunk_at(data, pos);
    let token = u16_at(data, pos);
    if token == TOKEN_STRING_TABLE {
        Some(Visit::StringTable(chunk, Origin::Global))
    } else if token == TOKEN_XML_START_NAMESPACE {
        Some(Visit::XmlNamespaceStart(chunk))
    } else if token == TOKEN_XML_END_NAMESPACE {
        Some(Visit::XmlNamespaceEnd(chunk))
    } else if token == TOKEN_XML_TAG_START {
        Some(Visit::XmlTagStart(chunk))
    } else if token == TOKEN_XML_TAG_END {
        Some(Visit::XmlTagEnd(chunk))
    } else if token == TOKEN_XML_TEXT {
        Some(Visit::XmlText(chunk))
    } else if token == TOKEN_RESOURCE {
        Some(Visit::Resource(chunk))
    } else {
        None
    }
}

/// What a stream at `pos`, which last read at `previous`, hands to a visitor while it
/// walks a binary XML document, in order.
pub open spec fn xml_visits(data: Seq<u8>, pos: int, previous: Option<u64>) -> Seq<Visit>
    decreases
            (if pos < data.len() {
                data.len() - pos
            } else {
                0
            }),
            (if previous == Some(pos as u64) {
                0int
            } else {
                1int
            }),
{
    if pos < 0 || stream_done(data, pos, previous) || pos + 8 > data.len()
        || stream_next_position(data, pos) < pos {
        Seq::empty()
    } else {
        let rest = xml_visits(data, stream_next_position(data, pos), Some(pos as u64));
        match xml_visit(data, pos) {
            Some(v) => seq![v] + rest,
            None => rest,
        }
    }
}

/// What walking the `resources.arsc` file `data` hands to a visitor: nothing unless it
/// starts with its token and holds its header of twelve bytes, else the chunks after that
/// header, the first string table being the global one.
pub open spec fn arsc_document_visits(data: Seq<u8>) -> Seq<Visit> {
    if read_u16_spec(data, 0) == Some(2u16) && data.len() >= 12 {
        arsc_visits(data, u16_at(data, 2) as int, None, Origin::Global)
    } else {
        Seq::empty()
    }
}

/// What walking the binary XML document `data` hands to a visitor: nothing unless it
/// starts with its token and holds its header of eight bytes, else the chunks after that
/// header.
pub open spec fn xml_document_visits(data: Seq<u8>) -> Seq<Visit> {
    if read_u16_spec(data, 0) == Some(3u16) && data.len() >= 8 {
        xml_visits(data, u16_at(data, 2) as int, None)
    } else {
        Seq::empty()
    }
}

/// Whether `states` are those of a visitor handed `visits` one after the other: each
/// visit takes the visitor from one state to the next as `steps` allows.
pub open spec fn runs<'a, V: ChunkVisitor<'a>>(states: Seq<V>, visits: Seq<Visit>) -> bool {
    &&& states.len() == visits.len() + 1
    &&& forall|i: int|
        0 <= i < visits.len() ==> #[trigger] V::steps(states[i], states[i + 1], visits[i])
}

/// Whether a visitor in state `first`, handed `visits` one after the other, may end in
/// state `last`.
pub open spec fn walks<'a, V: ChunkVisitor<'a>>(first: V, last: V, visits: Seq<Visit>) -> bool {
    exists|states: Seq<V>|
        #[trigger] runs(states, visits) && states[0] == first && states.last() == last
}

/// A visitor handed nothing stays as it is.
pub proof fn lemma_walks_nothing<'a, V: ChunkVisitor<'a>>(v: V)
    ensures
        walks(v, v, Seq::<Visit>::empty()),
{
    assert(runs(seq![v], Seq::<Visit>::empty()));
}

/// Handing a visitor one list of chunks and then another is handing it both, in order.
pub proof fn lemma_walks_append<'a, V: ChunkVisitor<'a>>(
    a: V,
    b: V,
    c: V,
    first: Seq<Visit>,
    second: Seq<Visit>,
)
    requires
        walks(a, b, first),
        walks(b, c, second),
    ensures
        walks(a, c, first + second),
{
    let s1 = choose|states: Seq<V>| #[trigger] runs(states, first) && states[0] == a && states.last() == b;
    let s2 = choose|states: Seq<V>| #[trigger] runs(states, second) && states[0] == b && states.last() == c;
    let all = s1 + s2.drop_first();
    let visits = first + second;
    assert forall|i: int| 0 <= i < visits.len() implies #[trigger] V::steps(all[i], all[i + 1], visits[i]) by {
        if i < first.len() {
            assert(V::steps(s1[i], s1[i + 1], first[i]));
            if i + 1 == first.len() {
                assert(all[i + 1] == s2[0]);
            }
        } else {
            let j = i - first.len();
            assert(V::steps(s2[j], s2[j + 1], second[j]));
            if j == 0 {
                assert(all[i] == s1.last());
            }
        }
    }
    assert(runs(all, visits));
}

/// Decodes binary documents by feeding their chunks to a visitor.
#[derive(Debug, Copy, Clone)]
pub struct Executor;

impl Executor {
    /// Walks the chunks of a `resources.arsc` file, after its header of twelve bytes,
    /// feeding the string tables (with their origins in turn), packages, type specs and
    /// table types to the visitor.
    pub fn arsc<'a, V: ChunkVisitor<'a>>(buffer: &'a [u8], visitor: &mut V) -> (r: Result<
        (),
        Error,
    >)
        requires
            walkable(buffer@, 2, 12),
        ensures
            r == walk_result(buffer@, 2, 12, Error::NotArscFile { token: u16_at(buffer@, 0) }),
            walks(*old(visitor), *final(visitor), arsc_document_visits(buffer@)),
    {
        proof {
            lemma_walks_nothing(*visitor);
        }
        let token = get_u16(buffer, 0)?;
        if token != 0x2 {
            return Err(Error::NotArscFile { token });
        }
        let header_size = get_u16(buffer, 2)?;
        let _chunk_size = get_u32(buffer, 4)?;
        let _package_amount = get_u32(buffer, 8)?;
        let mut stream = ChunkLoaderStream::new(buffer, header_size as u64);
        let mut origin = Origin::Global;
        let ghost data = buffer@;
        let ghost all = arsc_visits(data, header_size as int, None, Origin::Global);
        let ghost mut states: Seq<V> = seq![*visitor];
        let ghost mut done: Seq<Visit> = Seq::empty();
        assert(done + all =~= all);
        loop
            invariant
                stream.spec_data() == data,
                data == buffer@,
                read_u16_spec(data, 0) == Some(2u16),
                data.len() >= 12,
                header_size == u16_at(data, 2),
                all == arsc_visits(data, header_size as int, None, Origin::Global),
                stream_in_bounds(data, stream.spec_position() as int, stream.spec_previous()),
                stream_error(data, header_size as int, None) == stream_error(
                    data,
                    stream.spec_position() as int,
                    stream.spec_previous(),
                ),
                runs(states, done),
                states[0] == *old(visitor),
                states.last() == *visitor,
                done + arsc_visits(
                    data,
                    stream.spec_position() as int,
                    stream.spec_previous(),
                    origin,
                ) == all,
            ensures
                stream_error(data, header_size as int, None) is None,
                walks(*old(visitor), *visitor, all),
            decreases
                    (if stream.spec_position() < data.len() {
                        data.len() - stream.spec_position()
                    } else {
                        0
                    }),
                    (if stream.spec_previous() == Some(stream.spec_position()) {
                        0int
                    } else {
                        1int
                    }),
        {
            let ghost pos0 = stream.spec_position() as int;
            let ghost prev0 = stream.spec_previous();
            let ghost origin0 = origin;
            let ghost rest = arsc_visits(data, pos0, prev0, origin0);
            match stream.next() {
                None => {
                    assert(done =~= all);
                    break ;
                },
                Some(Err(e)) => {
                    assert(!stream_done(data, pos0, prev0) && pos0 + 8 > data.len());
                    assert(stream_error(data, pos0, prev0) == Some(e));
                    assert(done =~= all);
                    return Err(e);
                },
                Some(Ok(chunk)) => {
                    let ghost next = arsc_visits(
                        data,
                        stream.spec_position() as int,
                        stream.spec_previous(),
                        next_origin(origin0),
                    );
                    let ghost same = arsc_visits(
                        data,
                        stream.spec_position() as int,
                        stream.spec_previous(),
                        origin0,
                    );
                    match chunk {
                        Chunk::StringTable(stw) => {
                            let ghost v = Visit::StringTable(stw@, origin);
                            visitor.visit_string_table(stw, origin);
                            origin = Origin::next(origin);
                            proof {
                                assert(rest == seq![v] + next);
                                assert(done.push(v) + next =~= done + rest);
                                lemma_runs_extend(states, done, *visitor, v);
                                states = states.push(*visitor);
                                done = done.push(v);
                            }
                        },
                        Chunk::Package(pw) => {
                            let ghost v = Visit::Package(pw@);
                            visitor.visit_package(pw);
                            proof {
                                assert(rest == seq![v] + same);
                                assert(done.push(v) + same =~= done + rest);
                                lemma_runs_extend(states, done, *visitor, v);
                                states = states.push(*visitor);
                                done = done.push(v);
                            }
                        },
                        Chunk::TableType(ttw) => {
                            let ghost v = Visit::TableType(ttw@, ttw.spec_data_offset());
                            visitor.visit_table_type(ttw);
                            proof {
                                assert(rest == seq![v] + same);
                                assert(done.push(v) + same =~= done + rest);
                                lemma_runs_extend(states, done, *visitor, v);
                                states = states.push(*visitor);
                                done = done.push(v);
                            }
                        },
                        Chunk::TableTypeSpec(tsw) => {
                            let ghost v = Visit::TypeSpec(tsw@);
                            visitor.visit_type_spec(tsw);
                            proof {
                                assert(rest == seq![v] + same);
                                assert(done.push(v) + same =~= done + rest);
                                lemma_runs_extend(states, done, *visitor, v);
                                states = states.push(*visitor);
                                done = done.push(v);
                            }
                        },
                        _ => {
                            assert(rest == same);
                        },
                    }
                },
            }
        }
        assert(arsc_document_visits(data) == all);
        Ok(())
    }

    /// Walks the chunks of a binary XML document, after its header of eight bytes,
    /// feeding the string tables, namespaces, tags, texts and resources to the visitor.
    pub fn xml<'a, V: ChunkVisitor<'a>>(buffer: &'a [u8], visitor: &mut V) -> (r: Result<
        (),
        Error,
    >)
        requires
            walkable(buffer@, 3, 8),
        ensures
            r == walk_result(buffer@, 3, 8, Error::NotXmlDocument { token: u16_at(buffer@, 0) }),
            walks(*old(visitor), *final(visitor), xml_document_visits(buffer@)),
    {
        proof {
            lemma_walks_nothing(*visitor);
        }
        let token = get_u16(buffer, 0)?;
        if token != 0x3 {
            return Err(Error::NotXmlDocument { token });
        }
        let header_size = get_u16(buffer, 2)?;
        let _chunk_size = get_u32(buffer, 4)?;
        let mut stream = ChunkLoaderStream::new(buffer, header_size as u64);
        let ghost data = buffer@;
        let ghost all = xml_visits(data, header_size as int, None);
        let ghost mut states: Seq<V> = seq![*visitor];
        let ghost mut done: Seq<Visit> = Seq::empty();
        assert(done + all =~= all);
        loop
            invariant
                stream.spec_data() == data,
                data == buffer@,
                read_u16_spec(data, 0) == Some(3u16),
                data.len() >= 8,
                header_size == u16_at(data, 2),
                all == xml_visits(data, header_size as int, None),
                stream_in_bounds(data, stream.spec_position() as int, stream.spec_previous()),
                stream_error(data, header_size as int, None) == stream_error(
                    data,
                    stream.spec_position() as int,
                    stream.spec_previous(),
                ),
                runs(states, done),
                states[0] == *old(visitor),
                states.last() == *visitor,
                done + xml_visits(data, stream.spec_position() as int, stream.spec_previous())
                    == all,
            ensures
                stream_error(data, header_size as int, None) is None,
                walks(*old(visitor), *visitor, all),
            decreases
                    (if stream.spec_position() < data.len() {
                        data.len() - stream.spec_position()
                    } else {
                        0
                    }),
                    (if stream.spec_previous() == Some(stream.spec_position()) {
                        0int
                    } else {
                        1int
                    }),
        {
            let ghost pos0 = stream.spec_position() as int;
            let ghost prev0 = stream.spec_previous();
            let ghost rest = xml_visits(data, pos0, prev0);
            match stream.next() {
                None => {
                    assert(done =~= all);
                    break ;
                },
                Some(Err(e)) => {
                    assert(!stream_done(data, pos0, prev0) && pos0 + 8 > data.len());
                    assert(stream_error(data, pos0, prev0) == Some(e));
                    assert(done =~= all);
                    return Err(e);
                },
                Some(Ok(chunk)) => {
                    let ghost next = xml_visits(
                        data,
                        stream.spec_position() as int,
                        stream.spec_previous(),
                    );
                    let ghost v = xml_visit(data, pos0)->Some_0;
                    match chunk {
                        Chunk::StringTable(stw) => {
                            visitor.visit_string_table(stw, Origin::Global);
                        },
                        Chunk::XmlNamespaceStart(w) => {
                            visitor.visit_xml_namespace_start(w);
                        },
                        Chunk::XmlNamespaceEnd(w) => {
                            visitor.visit_xml_namespace_end(w);
                        },
                        Chunk::XmlTagStart(w) => {
                            visitor.visit_xml_tag_start(w);
                        },
                        Chunk::XmlTagEnd(w) => {
                            visitor.visit_xml_tag_end(w);
                        },
                        Chunk::XmlText(w) => {
                            visitor.visit_xml_text(w);
                        },
                        Chunk::Resource(w) => {
                            visitor.visit_resource(w);
                        },
                        _ => {},
                    }
                    proof {
                        if xml_visit(data, pos0) is Some {
                            assert(rest == seq![v] + next);
                            assert(done.push(v) + next =~= done + rest);
                            lemma_runs_extend(states, done, *visitor, v);
                                states = states.push(*visitor);
                                done = done.push(v);
                        } else {
                            assert(rest == next);
                        }
                    }
                },
            }
        }
        assert(xml_document_visits(data) == all);
        Ok(())
    }
}

/// A run extended by one visit that took the visitor from its last state to `now` is a
/// run.
proof fn lemma_runs_extend<'a, V: ChunkVisitor<'a>>(states: Seq<V>, done: Seq<Visit>, now: V, v: Visit)
    requires
        runs(states, done),
        V::steps(states.last(), now, v),
    ensures
        runs(states.push(now), done.push(v)),
        states.push(now)[0] == states[0],
        states.push(now).last() == now,
{
    let s1 = states.push(now);
    let d1 = done.push(v);
    assert forall|i: int| 0 <= i < d1.len() implies #[trigger] V::steps(s1[i], s1[i + 1], d1[i]) by {
        if i < done.len() {
            assert(V::steps(states[i], states[i + 1], done[i]));
        }
    }
}

} // verus!
