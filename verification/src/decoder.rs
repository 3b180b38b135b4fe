//! Decoding of binary XML documents against the resources of the Android framework and
//! of an application, both read from their `resources.arsc` files.

use crate::endian::u16_at;
use crate::errors::Error;
use crate::visitor::model::{model_built_from, ModelVisitor, Resources};
use crate::visitor::xml::{lemma_xml_walk_keeps_resources, xml_built_from, XmlVisitor};
use crate::visitor::{
    arsc_document_visits, lemma_walks_append, walk_result, walkable, xml_document_visits,
    Executor,
};
use vstd::prelude::*;

verus! {

/// What walking the `resources.arsc` file `data` gives.
pub open spec fn arsc_walk(data: Seq<u8>) -> Result<(), Error> {
    walk_result(data, 2, 12, Error::NotArscFile { token: u16_at(data, 0) })
}

/// What walking the binary XML document `data` gives.
pub open spec fn xml_walk(data: Seq<u8>) -> Result<(), Error> {
    walk_result(data, 3, 8, Error::NotXmlDocument { token: u16_at(data, 0) })
}

/// What reading the framework's resources and then the application's gives: the first
/// error, if any.
pub open spec fn decoding_result(android: Seq<u8>, apk: Seq<u8>) -> Result<(), Error> {
    match arsc_walk(android) {
        Err(e) => Err(e),
        Ok(_) => arsc_walk(apk),
    }
}

/// The resources of the framework and of an application, read into one model.
pub struct Decoder<'a> {
    visitor: ModelVisitor<'a>,
    buffer_android: &'a [u8],
    buffer_apk: &'a [u8],
}

impl<'a> Decoder<'a> {
    /// The bytes of the framework's `resources.arsc`.
    pub closed spec fn spec_android(&self) -> Seq<u8> {
        self.buffer_android@
    }

    /// The bytes of the application's `resources.arsc`.
    pub closed spec fn spec_apk(&self) -> Seq<u8> {
        self.buffer_apk@
    }

    pub open spec fn spec_resources(&self) -> Resources<'a> {
        self.spec_model().spec_resources()
    }

    /// The model that the resources were read into.
    pub closed spec fn spec_model(&self) -> ModelVisitor<'a> {
        self.visitor
    }

    /// Reads the framework's resources, then the application's, into one model; fails
    /// with the error of the first file that cannot be walked.
    pub fn new(android: &'a [u8], data: &'a [u8]) -> (r: Result<Decoder<'a>, Error>)
        requires
            walkable(android@, 2, 12),
            walkable(data@, 2, 12),
        ensures
            match r {
                Ok(d) => decoding_result(android@, data@) is Ok && d.spec_android() == android@
                    && d.spec_apk() == data@ && model_built_from(
                    d.spec_model(),
                    arsc_document_visits(android@) + arsc_document_visits(data@),
                ),
                Err(e) => decoding_result(android@, data@) == Err::<(), Error>(e),
            },
    {
        let mut visitor = ModelVisitor::default();
        let ghost m0 = visitor;
        Executor::arsc(android, &mut visitor)?;
        let ghost m1 = visitor;
        Executor::arsc(data, &mut visitor)?;
        proof {
            lemma_walks_append(
                m0,
                m1,
                visitor,
                arsc_document_visits(android@),
                arsc_document_visits(data@),
            );
        }
        Ok(Decoder { visitor, buffer_android: android, buffer_apk: data })
    }

    pub fn get_resources(&self) -> (r: &Resources<'a>)
        ensures
            *r == self.spec_resources(),
    {
        self.visitor.resources()
    }

    /// Decodes the binary XML document `content` against the resources.
    pub fn xml_visitor<'b>(&'b self, content: &'b [u8]) -> (r: Result<XmlVisitor<'b>, Error>)
        requires
            walkable(content@, 3, 8),
        ensures
            match r {
                Ok(v) => xml_walk(content@) is Ok && v.spec_resources() == self.spec_resources()
                    && xml_built_from(v, self.spec_resources(), xml_document_visits(content@)),
                Err(e) => xml_walk(content@) == Err::<(), Error>(e),
            },
    {
        let mut visitor = XmlVisitor::new(self.get_resources());
        let ghost v0 = visitor;
        Executor::xml(content, &mut visitor)?;
        proof {
            lemma_xml_walk_keeps_resources(v0, visitor, xml_document_visits(content@));
        }
        Ok(visitor)
    }
}

/// The bytes of an application's `resources.arsc`, owned.
pub struct BufferedDecoder {
    buffer: Vec<u8>,
}

impl BufferedDecoder {
    pub closed spec fn spec_buffer(&self) -> Seq<u8> {
        self.buffer@
    }

    /// The bytes of the application's `resources.arsc`.
    pub fn buffer(&self) -> (r: &[u8])
        ensures
            r@ == self.spec_buffer(),
    {
        self.buffer.as_slice()
    }

    /// A decoder of the application's resources together with the framework's ones,
    /// `android`.
    pub fn get_decoder<'b>(&'b self, android: &'b [u8]) -> (r: Result<Decoder<'b>, Error>)
        requires
            walkable(android@, 2, 12),
            walkable(self.spec_buffer(), 2, 12),
        ensures
            match r {
                Ok(d) => decoding_result(android@, self.spec_buffer()) is Ok && d.spec_android()
                    == android@ && d.spec_apk() == self.spec_buffer() && model_built_from(
                    d.spec_model(),
                    arsc_document_visits(android@) + arsc_document_visits(self.spec_buffer()),
                ),
                Err(e) => decoding_result(android@, self.spec_buffer()) == Err::<(), Error>(e),
            },
    {
        Decoder::new(android, self.buffer.as_slice())
    }
}

impl From<Vec<u8>> for BufferedDecoder {
    /// The decoder of the bytes `buffer`.
    fn from(buffer: Vec<u8>) -> (r: BufferedDecoder)
        ensures
            r.spec_buffer() == buffer@,
    {
        BufferedDecoder { buffer }
    }
}

impl vstd::std_specs::convert::FromSpecImpl<Vec<u8>> for BufferedDecoder {
    open spec fn obeys_from_spec() -> bool {
        true
    }

    closed spec fn from_spec(v: Vec<u8>) -> BufferedDecoder {
        BufferedDecoder { buffer: v }
    }
}

} // verus!
