use crate::chunks::TOKEN_STRING_TABLE;
use crate::codec::{utf16le_bytes, utf16le_encode, utf8_encode};
use crate::endian::{push_bytes, push_u32, push_u8, u32_bytes};
use crate::errors::Error;
use crate::model::owned::{push_u32s, u32s_bytes, OwnedBuf};
use crate::model::{string_result, StringTable};
use vstd::prelude::*;
use vstd::utf8::encode_utf8;

verus! {

/// The encoding of the strings of a string table.
#[derive(Clone, Copy, PartialEq, Eq, Debug, Structural)]
pub enum Encoding {
    Utf8,
    Utf16,
}

/// The bytes that encode the characters of a string.
pub open spec fn encoded_text(encoding: Encoding, s: Seq<char>) -> Seq<u8> {
    match encoding {
        Encoding::Utf8 => encode_utf8(s),
        Encoding::Utf16 => utf16le_bytes(s),
    }
}

/// A string as it is written in the table: two bytes with the low 16 bits of the amount
/// of UTF-8 bytes of the string (whatever the encoding), the encoded characters, and two
/// zero bytes.
pub open spec fn encoded_string(encoding: Encoding, s: Seq<char>) -> Seq<u8> {
    let size = encode_utf8(s).len();
    seq![(size % 256) as u8, ((size / 256) % 256) as u8] + encoded_text(encoding, s) + seq![
        0u8,
        0u8,
    ]
}

/// The first `n` strings as they are written, one after the other.
pub open spec fn strings_buffer(encoding: Encoding, strings: Seq<Seq<char>>, n: nat) -> Seq<u8>
    decreases n,
{
    if n == 0 || n > strings.len() {
        Seq::empty()
    } else {
        strings_buffer(encoding, strings, (n - 1) as nat) + encoded_string(encoding, strings[n - 1])
    }
}

/// The offset of each string from the start of the strings, modulo 2^32.
pub open spec fn string_offsets(encoding: Encoding, strings: Seq<Seq<char>>) -> Seq<u32> {
    Seq::new(strings.len(), |i: int| strings_buffer(encoding, strings, i as nat).len() as u32)
}

/// Owned form of a string table.
pub struct StringTableBuf {
    strings: Vec<String>,
    styles: Vec<String>,
    encoding: Encoding,
}

impl StringTableBuf {
    /// The strings, in order.
    pub closed spec fn spec_strings(&self) -> Seq<Seq<char>> {
        self.strings@.map_values(|s: String| s@)
    }

    /// The amount of styles.
    pub closed spec fn spec_styles_count(&self) -> nat {
        self.styles@.len()
    }

    pub closed spec fn spec_encoding(&self) -> Encoding {
        self.encoding
    }

    pub fn set_encoding(&mut self, encoding: Encoding)
        ensures
            final(self).spec_encoding() == encoding,
            final(self).spec_strings() == old(self).spec_strings(),
            final(self).spec_styles_count() == old(self).spec_styles_count(),
    {
        self.encoding = encoding;
    }

    pub fn get_encoding(&self) -> (r: Encoding)
        ensures
            r == self.spec_encoding(),
    {
        self.encoding
    }

    /// Appends a string to the table.
    pub fn add_string(&mut self, new_string: String)
        ensures
            final(self).spec_strings() == old(self).spec_strings().push(new_string@),
            final(self).spec_styles_count() == old(self).spec_styles_count(),
            final(self).spec_encoding() == old(self).spec_encoding(),
    {
        self.strings.push(new_string);
        assert(self.strings@.map_values(|s: String| s@) =~= old(self).spec_strings().push(
            new_string@,
        ));
    }
}

impl Default for StringTableBuf {
    /// An empty UTF-8 table.
    fn default() -> (r: Self)
        ensures
            r.spec_strings() == Seq::<Seq<char>>::empty(),
            r.spec_styles_count() == 0,
            r.spec_encoding() == Encoding::Utf8,
    {
        let r = StringTableBuf { strings: Vec::new(), styles: Vec::new(), encoding: Encoding::Utf8 };
        assert(r.spec_strings() =~= Seq::<Seq<char>>::empty());
        r
    }
}

impl OwnedBuf for StringTableBuf {
    open spec fn spec_token(&self) -> u16 {
        TOKEN_STRING_TABLE
    }

    /// Amount of strings, amount of styles, flags (0x100 for UTF-8), offset of the
    /// strings, and a style offset of 0.
    open spec fn spec_header(&self) -> Seq<u8> {
        let n = self.spec_strings().len();
        let m = self.spec_styles_count();
        u32_bytes(n as u32) + u32_bytes(m as u32) + u32_bytes(
            if self.spec_encoding() == Encoding::Utf8 {
                0x100u32
            } else {
                0u32
            },
        ) + u32_bytes((28 + 4 * n + 4 * m) as u32) + u32_bytes(0)
    }

    open spec fn spec_header_size(&self) -> u16 {
        28
    }

    /// The offsets of the strings, then as many offsets of styles (all at the end of the
    /// strings), then the strings.
    open spec fn spec_body(&self) -> Seq<u8> {
        let enc = self.spec_encoding();
        let strings = self.spec_strings();
        let all = strings_buffer(enc, strings, strings.len());
        u32s_bytes(string_offsets(enc, strings), strings.len()) + u32s_bytes(
            Seq::new(self.spec_styles_count(), |i: int| all.len() as u32),
            self.spec_styles_count(),
        ) + all
    }

    open spec fn spec_fits(&self) -> bool {
        28 + 4 * self.spec_strings().len() + 4 * self.spec_styles_count() <= u32::MAX
    }

    fn token(&self) -> (r: u16) {
        TOKEN_STRING_TABLE
    }

    fn header(&self) -> (r: Result<Vec<u8>, Error>) {
        let mut out = Vec::new();
        let flags: u32 = if self.encoding == Encoding::Utf8 {
            0x0000_0100
        } else {
            0
        };
        let n = self.strings.len() as u32;
        let m = self.styles.len() as u32;
        let string_offset: u32 = 28 + n * 4 + m * 4;
        push_u32(&mut out, n);
        push_u32(&mut out, m);
        push_u32(&mut out, flags);
        push_u32(&mut out, string_offset);
        push_u32(&mut out, 0);
        assert(out@ =~= self.spec_header());
        Ok(out)
    }

    fn header_size(&self) -> (r: u16) {
        28
    }

    fn body_data(&self) -> (r: Result<Vec<u8>, Error>) {
        let ghost enc = self.spec_encoding();
        let ghost strings = self.spec_strings();
        let mut string_offsets_vec: Vec<u32> = Vec::new();
        let mut style_offsets: Vec<u32> = Vec::new();
        let mut buffer: Vec<u8> = Vec::new();
        let mut current_offset: u32 = 0;
        let mut i: usize = 0;
        while i < self.strings.len()
            invariant
                enc == self.spec_encoding(),
                strings == self.spec_strings(),
                strings.len() == self.strings@.len(),
                i <= self.strings@.len(),
                buffer@ == strings_buffer(enc, strings, i as nat),
                current_offset == buffer@.len() as u32,
                string_offsets_vec@ == string_offsets(enc, strings).subrange(0, i as int),
            decreases self.strings@.len() - i,
        {
            string_offsets_vec.push(current_offset);
            let s: &String = &self.strings[i];
            assert(s@ == strings[i as int]);
            let (size, encoded) = if self.encoding == Encoding::Utf8 {
                utf8_encode(s.as_str())
            } else {
                utf16le_encode(s.as_str())
            };
            push_u8(&mut buffer, (size % 256) as u8);
            push_u8(&mut buffer, ((size / 256) % 256) as u8);
            push_bytes(&mut buffer, encoded.as_slice());
            push_u8(&mut buffer, 0);
            push_u8(&mut buffer, 0);
            assert(buffer@ =~= strings_buffer(enc, strings, (i + 1) as nat));
            current_offset = buffer.len() as u32;
            i = i + 1;
            assert(string_offsets_vec@ =~= string_offsets(enc, strings).subrange(0, i as int));
        }
        let mut j: usize = 0;
        while j < self.styles.len()
            invariant
                j <= self.styles@.len(),
                current_offset == buffer@.len() as u32,
                style_offsets@ == Seq::new(j as nat, |k: int| buffer@.len() as u32),
            decreases self.styles@.len() - j,
        {
            style_offsets.push(current_offset);
            j = j + 1;
            assert(style_offsets@ =~= Seq::new(j as nat, |k: int| buffer@.len() as u32));
        }
        let mut out = Vec::new();
        push_u32s(&mut out, &string_offsets_vec);
        push_u32s(&mut out, &style_offsets);
        push_bytes(&mut out, buffer.as_slice());
        assert(string_offsets_vec@ =~= string_offsets(enc, strings));
        assert(out@ =~= self.spec_body());
        Ok(out)
    }
}

impl StringTable for StringTableBuf {
    open spec fn spec_strings_len(&self) -> u32 {
        self.spec_strings().len() as u32
    }

    open spec fn spec_styles_len(&self) -> u32 {
        self.spec_styles_count() as u32
    }

    open spec fn spec_string(&self, idx: u32) -> Result<Seq<char>, Error> {
        if idx < self.spec_strings().len() {
            Ok(self.spec_strings()[idx as int])
        } else {
            Err(Error::MissingString)
        }
    }

    fn strings_len(&self) -> (r: u32) {
        self.strings.len() as u32
    }

    fn styles_len(&self) -> (r: u32) {
        self.styles.len() as u32
    }

    fn get_string(&self, idx: u32) -> (r: Result<String, Error>) {
        let i = idx as usize;
        if i < self.strings.len() {
            Ok(self.strings[i].clone())
        } else {
            Err(Error::MissingString)
        }
    }
}

} // verus!
