//! Text codecs of the string tables: UTF-8 and UTF-16 (little endian), through the
//! `encoding` crate.

use encoding::codec::{utf_16, utf_8};
use encoding::types::Encoding;
use vstd::prelude::*;
use vstd::utf8::{decode_utf8, encode_utf8, valid_utf8};

verus! {

/// The UTF-16 code units of a character, little endian: two bytes for a character of the
/// basic plane, a surrogate pair of four bytes for any other.
pub open spec fn utf16le_char_bytes(c: char) -> Seq<u8> {
    let v = c as u32;
    if v < 0x1_0000 {
        seq![(v % 256) as u8, (v / 256) as u8]
    } else {
        let w = (v - 0x1_0000) as u32;
        let high = 0xD800 + w / 1024;
        let low = 0xDC00 + w % 1024;
        seq![(high % 256) as u8, (high / 256) as u8, (low % 256) as u8, (low / 256) as u8]
    }
}

/// The UTF-16 little endian encoding of a sequence of characters.
pub open spec fn utf16le_bytes(chars: Seq<char>) -> Seq<u8>
    decreases chars.len(),
{
    if chars.len() == 0 {
        Seq::empty()
    } else {
        utf16le_bytes(chars.drop_last()) + utf16le_char_bytes(chars.last())
    }
}

/// What the UTF-8 decoder of `encoding` makes of `bytes`, fed at once and then finished:
/// the characters it wrote, or `None` when finishing reported an error.
pub uninterp spec fn utf8_decoding(bytes: Seq<u8>) -> Option<Seq<char>>;

/// What the UTF-16 (little endian) decoder of `encoding` makes of `bytes`, fed at once and
/// then finished: the characters it wrote, or `None` when finishing reported an error.
pub uninterp spec fn utf16le_decoding(bytes: Seq<u8>) -> Option<Seq<char>>;

/// The text that UTF-8 bytes give: the characters they encode when they are valid UTF-8,
/// else what `encoding`'s decoder makes of them.
pub open spec fn utf8_text(bytes: Seq<u8>) -> Option<Seq<char>> {
    if valid_utf8(bytes) {
        Some(decode_utf8(bytes))
    } else {
        utf8_decoding(bytes)
    }
}

/// The text that UTF-16 (little endian) bytes give: the characters they encode when they
/// are the encoding of some text, else what `encoding`'s decoder makes of them.
pub open spec fn utf16le_text(bytes: Seq<u8>) -> Option<Seq<char>> {
    if exists|chars: Seq<char>| utf16le_bytes(chars) == bytes {
        Some(choose|chars: Seq<char>| utf16le_bytes(chars) == bytes)
    } else {
        utf16le_decoding(bytes)
    }
}

/// The last code unit of the encoding of a character is a low surrogate exactly when the
/// character lies outside the basic plane.
proof fn lemma_utf16le_last_unit(c: char)
    ensures
        ({
            let b = utf16le_char_bytes(c);
            let n = b.len() as int;
            let unit = b[n - 2] as int + 256 * b[n - 1] as int;
            &&& n == 2 || n == 4
            &&& (n == 4 <==> 0xDC00 <= unit <= 0xDFFF)
        }),
{
    let v = c as u32;
    if v < 0x1_0000 {
        assert(v < 0xD800 || v > 0xDFFF);
        assert((v % 256) + 256 * (v / 256) == v);
    } else {
        let w = (v - 0x1_0000) as u32;
        let low = 0xDC00 + w % 1024;
        assert(low < 0x1_0000);
        assert((low % 256) + 256 * (low / 256) == low);
    }
}

/// Two characters with the same UTF-16 code units are the same.
proof fn lemma_utf16le_char_injective(a: char, b: char)
    requires
        utf16le_char_bytes(a) == utf16le_char_bytes(b),
    ensures
        a == b,
{
    let va = a as u32;
    let vb = b as u32;
    if va < 0x1_0000 {
        assert(utf16le_char_bytes(a).len() == 2);
        assert(vb < 0x1_0000);
        assert((va % 256) + 256 * (va / 256) == va);
        assert((vb % 256) + 256 * (vb / 256) == vb);
        assert(utf16le_char_bytes(a)[0] == utf16le_char_bytes(b)[0]);
        assert(utf16le_char_bytes(a)[1] == utf16le_char_bytes(b)[1]);
    } else {
        assert(vb >= 0x1_0000);
        let wa = (va - 0x1_0000) as u32;
        let wb = (vb - 0x1_0000) as u32;
        let ha = 0xD800 + wa / 1024;
        let hb = 0xD800 + wb / 1024;
        let la = 0xDC00 + wa % 1024;
        let lb = 0xDC00 + wb % 1024;
        assert((ha % 256) + 256 * (ha / 256) == ha);
        assert((hb % 256) + 256 * (hb / 256) == hb);
        assert((la % 256) + 256 * (la / 256) == la);
        assert((lb % 256) + 256 * (lb / 256) == lb);
        assert(utf16le_char_bytes(a)[0] == utf16le_char_bytes(b)[0]);
        assert(utf16le_char_bytes(a)[1] == utf16le_char_bytes(b)[1]);
        assert(utf16le_char_bytes(a)[2] == utf16le_char_bytes(b)[2]);
        assert(utf16le_char_bytes(a)[3] == utf16le_char_bytes(b)[3]);
        assert(ha == hb && la == lb);
        assert(wa == 1024 * (wa / 1024) + wa % 1024);
        assert(wb == 1024 * (wb / 1024) + wb % 1024);
    }
    assert(va == vb);
}

/// Two texts with the same UTF-16 encoding are the same text.
pub proof fn lemma_utf16le_bytes_injective(a: Seq<char>, b: Seq<char>)
    requires
        utf16le_bytes(a) == utf16le_bytes(b),
    ensures
        a == b,
    decreases a.len(),
{
    if a.len() == 0 {
        if b.len() > 0 {
            lemma_utf16le_last_unit(b.last());
            assert(utf16le_bytes(b) == utf16le_bytes(b.drop_last()) + utf16le_char_bytes(b.last()));
        }
        assert(b.len() == 0);
        assert(a =~= b);
    } else {
        if b.len() == 0 {
            lemma_utf16le_last_unit(a.last());
            assert(utf16le_bytes(a) == utf16le_bytes(a.drop_last()) + utf16le_char_bytes(a.last()));
            assert(false);
        }
        let ea = utf16le_char_bytes(a.last());
        let eb = utf16le_char_bytes(b.last());
        let pa = utf16le_bytes(a.drop_last());
        let pb = utf16le_bytes(b.drop_last());
        let all = utf16le_bytes(a);
        lemma_utf16le_last_unit(a.last());
        lemma_utf16le_last_unit(b.last());
        let n = all.len() as int;
        assert(all == pa + ea);
        assert(all == pb + eb);
        assert(all[n - 2] == ea[ea.len() - 2] && all[n - 1] == ea[ea.len() - 1]);
        assert(all[n - 2] == eb[eb.len() - 2] && all[n - 1] == eb[eb.len() - 1]);
        assert(ea.len() == eb.len());
        assert(ea =~= all.subrange(n - ea.len(), n));
        assert(eb =~= all.subrange(n - eb.len(), n));
        lemma_utf16le_char_injective(a.last(), b.last());
        assert(pa =~= all.subrange(0, n - ea.len()));
        assert(pb =~= all.subrange(0, n - eb.len()));
        lemma_utf16le_bytes_injective(a.drop_last(), b.drop_last());
        assert(a =~= a.drop_last().push(a.last()));
        assert(b =~= b.drop_last().push(b.last()));
    }
}

/// The UTF-16 encoding of a text gives that text back.
pub proof fn lemma_utf16le_text_of_bytes(chars: Seq<char>)
    ensures
        utf16le_text(utf16le_bytes(chars)) == Some(chars),
{
    let bytes = utf16le_bytes(chars);
    assert(exists|c: Seq<char>| utf16le_bytes(c) == bytes);
    let c = choose|c: Seq<char>| utf16le_bytes(c) == bytes;
    lemma_utf16le_bytes_injective(c, chars);
}

/// The UTF-8 encoding of a text gives that text back.
pub proof fn lemma_utf8_text_of_bytes(chars: Seq<char>)
    ensures
        utf8_text(encode_utf8(chars)) == Some(chars),
{
    vstd::utf8::encode_utf8_valid_utf8(chars);
    vstd::utf8::encode_utf8_decode_utf8(chars);
}

/// The view of an optional string.
pub open spec fn option_chars(o: Option<String>) -> Option<Seq<char>> {
    match o {
        Some(s) => Some(s@),
        None => None,
    }
}

/// Decodes `bytes` with `encoding`'s `UTF8Decoder`: one `raw_feed` of all the bytes, then
/// `raw_finish`. The error of `raw_feed` is not looked at (the decoder then holds the
/// valid prefix and finishing succeeds); an error of `raw_finish` gives `None`.
/// Claimed: the result is `utf8_decoding` of the bytes, and on valid UTF-8 it is the
/// decoded text (the decoder copies an accepted input unchanged).
#[verifier::external_body]
pub(crate) fn utf8_decode(bytes: &[u8]) -> (r: Option<String>)
    ensures
        option_chars(r) == utf8_decoding(bytes@),
        valid_utf8(bytes@) ==> option_chars(r) == Some(decode_utf8(bytes@)),
{
    let mut decoder = utf_8::UTF8Decoder::new();
    let mut out = String::new();
    decoder.raw_feed(bytes, &mut out);
    match decoder.raw_finish(&mut out) {
        None => Some(out),
        Some(_) => None,
    }
}

/// Decodes `bytes` with `encoding`'s `UTF16Decoder<Little>`: one `raw_feed` of all the
/// bytes, then `raw_finish`, whose error gives `None`.
/// Claimed: the result is `utf16le_decoding` of the bytes, and the little endian UTF-16
/// encoding of any text decodes back to that text.
#[verifier::external_body]
pub(crate) fn utf16le_decode(bytes: &[u8]) -> (r: Option<String>)
    ensures
        option_chars(r) == utf16le_decoding(bytes@),
        forall|chars: Seq<char>|
            #[trigger] utf16le_bytes(chars) == bytes@ ==> option_chars(r) == Some(chars),
{
    let mut decoder = utf_16::UTF16Decoder::<utf_16::Little>::new();
    let mut out = String::new();
    decoder.raw_feed(bytes, &mut out);
    match decoder.raw_finish(&mut out) {
        None => Some(out),
        Some(_) => None,
    }
}

/// Encodes `s` with `encoding`'s `UTF8Encoder`, by one `raw_feed`.
/// Claimed, as its source shows: it writes the UTF-8 bytes of the text and reports their
/// amount, with no error.
#[verifier::external_body]
pub(crate) fn utf8_encode(s: &str) -> (r: (usize, Vec<u8>))
    ensures
        r.1@ == encode_utf8(s@),
        r.0 == encode_utf8(s@).len(),
{
    let mut encoder = utf_8::UTF8Encoder::new();
    let mut out = Vec::new();
    let (size, _) = encoder.raw_feed(s, &mut out);
    (size, out)
}

/// Encodes `s` with the raw encoder of `encoding`'s `UTF_16LE_ENCODING`, by one
/// `raw_feed`.
/// Claimed, as its source shows: it writes the little endian UTF-16 code units of the
/// text and reports the length of the input, which is its amount of UTF-8 bytes, with no
/// error.
#[verifier::external_body]
pub(crate) fn utf16le_encode(s: &str) -> (r: (usize, Vec<u8>))
    ensures
        r.1@ == utf16le_bytes(s@),
        r.0 == encode_utf8(s@).len(),
{
    let mut encoder = utf_16::UTF_16LE_ENCODING.raw_encoder();
    let mut out = Vec::new();
    let (size, _) = encoder.raw_feed(s, &mut out);
    (size, out)
}

} // verus!
