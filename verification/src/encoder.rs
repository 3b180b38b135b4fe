//! Writing decoded documents as XML text. The tags themselves are written by
//! `quick-xml`; the layout (the declaration, one tag per line, two spaces per level)
//! is assembled here.

use crate::errors::Error;
use crate::model::element::{
    all_text, attributes_markup, element_markup, empty_tag_markup, end_tag_markup,
    start_tag_markup, Element,
};
use crate::text::{push_str, string_from_utf8};
use crate::visitor::xml::pairs_view;
use quick_xml::events::{BytesDecl, BytesEnd, BytesStart, Event};
use quick_xml::Writer;
use vstd::prelude::*;
use vstd::utf8::{
    encode_utf8, encode_utf8_decode_utf8, encode_utf8_valid_utf8, is_ascii_chars,
    is_ascii_chars_encode_utf8,
};

verus! {

/// An XML declaration of the given version, encoding and standalone value.
pub open spec fn declaration_text(version: Seq<char>, encoding: Seq<char>, standalone: Seq<char>) -> Seq<
    char,
> {
    "<?xml version=\""@ + version + "\" encoding=\""@ + encoding + "\" standalone=\""@ + standalone
        + "\"?>"@
}

/// The XML declaration that starts every document: version `1.0`, encoding `UTF-8`,
/// not standalone.
pub open spec fn declaration_markup() -> Seq<char> {
    declaration_text("1.0"@, "UTF-8"@, "no"@)
}

/// The XML text of a document whose root is `root`: the declaration, then the root and
/// what it holds.
pub open spec fn document_markup(namespaces: Seq<(Seq<char>, Seq<char>)>, root: Element) -> Seq<
    char,
> {
    declaration_markup() + element_markup(namespaces, root, 0)
}

/// Writes the declaration that `BytesDecl::new` makes of a version, an encoding and a
/// standalone value, as an `Event::Decl`, with a `quick_xml::Writer` over a new `Vec`.
/// Claimed, as the source shows: `<?xml version="`, the version, `" encoding="`, the
/// encoding, `" standalone="`, the standalone value, `"?>`. Writing to a `Vec` does not
/// fail.
#[verifier::external_body]
fn declaration_bytes(version: &str, encoding: &str, standalone: &str) -> (r: Vec<u8>)
    ensures
        r@ == encode_utf8(declaration_text(version@, encoding@, standalone@)),
{
    let declaration = BytesDecl::new(
        version.as_bytes(),
        Some(encoding.as_bytes()),
        Some(standalone.as_bytes()),
    );
    let mut writer = Writer::new(Vec::new());
    let _ = writer.write_event(Event::Decl(declaration));
    writer.into_inner()
}

/// Writes an `Event::Start` of a `BytesStart` named `name` with the attributes given as
/// raw bytes (`with_attributes`), with a `quick_xml::Writer` over a new `Vec`.
/// Claimed, as the source shows: `<`, the name, for each attribute a space, its name,
/// `="`, its value unchanged and `"`, then `>`.
#[verifier::external_body]
pub(crate) fn start_tag_bytes(name: &str, attributes: &Vec<(String, String)>) -> (r: Vec<u8>)
    ensures
        r@ == encode_utf8(start_tag_markup(name@, pairs_view(attributes@))),
{
    let start = BytesStart::borrowed_name(name.as_bytes()).with_attributes(
        attributes.iter().map(|(key, value)| (key.as_bytes(), value.as_bytes())),
    );
    let mut writer = Writer::new(Vec::new());
    let _ = writer.write_event(Event::Start(start));
    writer.into_inner()
}

/// As `start_tag_bytes`, with an `Event::Empty`.
/// Claimed, as the source shows: the same text, ending in `/>` in place of `>`.
#[verifier::external_body]
fn empty_tag_bytes(name: &str, attributes: &Vec<(String, String)>) -> (r: Vec<u8>)
    ensures
        r@ == encode_utf8("<"@ + name@ + attributes_markup(pairs_view(attributes@)) + "/>"@),
{
    let start = BytesStart::borrowed_name(name.as_bytes()).with_attributes(
        attributes.iter().map(|(key, value)| (key.as_bytes(), value.as_bytes())),
    );
    let mut writer = Writer::new(Vec::new());
    let _ = writer.write_event(Event::Empty(start));
    writer.into_inner()
}

/// Writes an `Event::End` of `BytesEnd::borrowed(name)` with a `quick_xml::Writer` over
/// a new `Vec`.
/// Claimed, as the source shows: `</`, the name, `>`.
#[verifier::external_body]
pub(crate) fn end_tag_bytes(name: &str) -> (r: Vec<u8>)
    ensures
        r@ == encode_utf8(end_tag_markup(name@)),
{
    let mut writer = Writer::new(Vec::new());
    let _ = writer.write_event(Event::End(BytesEnd::borrowed(name.as_bytes())));
    writer.into_inner()
}

/// Appends the text whose UTF-8 encoding `bytes` are.
pub(crate) fn push_markup(out: &mut String, bytes: Vec<u8>, Ghost(markup): Ghost<Seq<char>>)
    requires
        bytes@ == encode_utf8(markup),
    ensures
        final(out)@ == old(out)@ + markup,
{
    proof {
        encode_utf8_valid_utf8(markup);
        encode_utf8_decode_utf8(markup);
    }
    match string_from_utf8(bytes) {
        Some(text) => push_str(out, text.as_str()),
        None => {},
    }
}

/// The UTF-8 encoding of two texts one after the other is their encodings one after the
/// other.
pub proof fn lemma_encode_utf8_concat(a: Seq<char>, b: Seq<char>)
    ensures
        encode_utf8(a + b) == encode_utf8(a) + encode_utf8(b),
    decreases a.len(),
{
    if a.len() > 0 {
        lemma_encode_utf8_concat(a.drop_first(), b);
        assert((a + b).drop_first() =~= a.drop_first() + b);
        assert((a + b)[0] == a[0]);
    } else {
        assert(a + b =~= b);
    }
}

/// Appends the tag of an element without children: the tag that `quick-xml` writes for
/// an empty element, with a space before its closing `/>`.
pub(crate) fn push_empty_tag(out: &mut String, name: &str, attributes: &Vec<(String, String)>)
    ensures
        final(out)@ == old(out)@ + empty_tag_markup(name@, pairs_view(attributes@)),
{
    let ghost open = "<"@ + name@ + attributes_markup(pairs_view(attributes@));
    let mut bytes = empty_tag_bytes(name, attributes);
    proof {
        reveal_strlit("/>");
        reveal_strlit(" />");
        lemma_encode_utf8_concat(open, "/>"@);
        assert(is_ascii_chars("/>"@));
        is_ascii_chars_encode_utf8("/>"@);
    }
    let len = bytes.len();
    bytes.truncate(len - 2);
    assert(bytes@ =~= encode_utf8(open));
    push_markup(out, bytes, Ghost(open));
    push_str(out, " />");
    assert(out@ =~= old(out)@ + empty_tag_markup(name@, pairs_view(attributes@)));
}

/// Writes decoded documents as XML text.
#[derive(Debug, Copy, Clone)]
pub struct Xml;

impl Xml {
    /// The XML text of the document whose root is `element`; `namespaces` gives the
    /// prefix of each namespace. Every attribute value has to be text already.
    pub fn encode(namespaces: &Vec<(String, String)>, element: &Element) -> (r: Result<
        String,
        Error,
    >)
        requires
            all_text(*element),
        ensures
            r matches Ok(s) && s@ == document_markup(pairs_view(namespaces@), *element),
    {
        let mut out = String::new();
        let declaration = declaration_bytes("1.0", "UTF-8", "no");
        push_markup(&mut out, declaration, Ghost(declaration_markup()));
        let indent = String::new();
        assert(indent@ =~= Seq::new(0, |i: int| ' '));
        element.write_markup(&mut out, namespaces, &indent, Ghost(0));
        Ok(out)
    }
}

} // verus!
