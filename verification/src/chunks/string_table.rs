//! The string table chunk: a list of strings, encoded in UTF-8 or in UTF-16.

use crate::codec::{
    lemma_utf16le_text_of_bytes, lemma_utf8_text_of_bytes, option_chars, utf16le_decode,
    utf16le_text, utf8_decode, utf8_text,
};
use crate::chunks::xml::encoded;
use crate::codec::utf16le_bytes;
use crate::endian::{
    get_u32, get_u8, lemma_read_u32_in_part, or_eof, read_u32_spec, read_u8_spec, u32_bytes,
};
use crate::errors::Error;
use crate::model::owned::{
    encoded_string, encoded_text, lemma_chunk_layout, lemma_u32s_bytes, string_offsets,
    strings_buffer, u32s_bytes, Encoding, OwnedBuf, StringTableBuf,
};
use crate::model::{string_result, StringTable};
use vstd::hash_map::HashMapWithView;
use vstd::prelude::*;
use vstd::slice::slice_subrange;
use vstd::utf8::{
    encode_scalar, encode_utf8, is_ascii_chars, is_ascii_chars_encode_utf8, leading_byte_width_1,
    leading_byte_width_2, leading_byte_width_3, leading_byte_width_4, last_continuation_byte,
    second_last_continuation_byte, third_last_continuation_byte,
};

verus! {

/// A `u32` of the chunk, or 0 where the chunk ends before it.
pub open spec fn u32_or_zero(data: Seq<u8>, pos: int) -> u32 {
    match read_u32_spec(data, pos) {
        Some(v) => v,
        None => 0,
    }
}

/// The flags of a string table.
pub open spec fn string_table_flags(data: Seq<u8>) -> u32 {
    u32_or_zero(data, 16)
}

/// Whether the flags of a string table announce UTF-8 strings.
pub open spec fn string_table_is_utf8(data: Seq<u8>) -> bool {
    string_table_flags(data) & 0x100 == 0x100
}

/// Where the string at `idx` starts: the strings offset plus the offset at `idx` of the
/// offsets table, modulo 2^32.
pub open spec fn string_position(data: Seq<u8>, idx: u32) -> Result<u32, Error> {
    match (read_u32_spec(data, 20), read_u32_spec(data, 28 + 4 * idx)) {
        (Some(base), Some(offset)) => Ok(((base + offset) % 0x1_0000_0000) as u32),
        _ => Err(Error::UnexpectedEof),
    }
}

/// Whether `z` is the first position from `from` on that holds a zero byte.
pub open spec fn nul_at(data: Seq<u8>, from: int, z: int) -> bool {
    &&& from <= z < data.len()
    &&& data[z] == 0
    &&& forall|k: int| from <= k < z ==> data[k] != 0
}

/// Where the characters of a UTF-8 string start, after the two length bytes at `offset`;
/// a length byte of 0x80 is followed by one more byte, which is skipped.
pub open spec fn utf8_text_start(data: Seq<u8>, offset: int) -> Result<int, Error> {
    match read_u8_spec(data, offset) {
        None => Err(Error::UnexpectedEof),
        Some(v1) => {
            let p1 = if v1 == 0x80 {
                offset + 2
            } else {
                offset + 1
            };
            if v1 == 0x80 && read_u8_spec(data, offset + 1) is None {
                Err(Error::UnexpectedEof)
            } else {
                match read_u8_spec(data, p1) {
                    None => Err(Error::UnexpectedEof),
                    Some(v2) => if v2 == 0x80 && read_u8_spec(data, p1 + 1) is None {
                        Err(Error::UnexpectedEof)
                    } else if v2 == 0x80 {
                        Ok(p1 + 2)
                    } else {
                        Ok(p1 + 1)
                    },
                }
            }
        },
    }
}

/// The UTF-8 string at `offset`: the text of the bytes from the text start up to the next
/// zero byte.
pub open spec fn utf8_string_at(data: Seq<u8>, offset: int) -> Result<Seq<char>, Error> {
    match utf8_text_start(data, offset) {
        Err(e) => Err(e),
        Ok(start) => if exists|z: int| nul_at(data, start, z) {
            let z = choose|z: int| nul_at(data, start, z);
            match utf8_text(data.subrange(start, z)) {
                Some(chars) => Ok(chars),
                None => Err(Error::InvalidUtf8),
            }
        } else {
            Err(Error::UnexpectedEof)
        },
    }
}

/// The UTF-16 string at `offset`: a little endian amount of code units, then the text of
/// that many code units.
pub open spec fn utf16_string_at(data: Seq<u8>, offset: int) -> Result<Seq<char>, Error> {
    match (read_u8_spec(data, offset), read_u8_spec(data, offset + 1)) {
        (Some(low), Some(high)) => {
            let start = offset + 2;
            let end = start + 2 * (low + 256 * high);
            if end > data.len() {
                Err(Error::StringSliceOutOfRange)
            } else {
                match utf16le_text(data.subrange(start, end)) {
                    Some(chars) => Ok(chars),
                    None => Err(Error::InvalidUtf16),
                }
            }
        },
        _ => Err(Error::UnexpectedEof),
    }
}

/// The string at `offset`, in the encoding that the flags announce.
pub open spec fn string_at(data: Seq<u8>, offset: u32) -> Result<Seq<char>, Error> {
    if string_table_is_utf8(data) {
        utf8_string_at(data, offset as int)
    } else {
        utf16_string_at(data, offset as int)
    }
}

/// The string at index `idx` of a string table; the indices are those below the
/// announced amount of strings.
pub open spec fn string_table_string(data: Seq<u8>, idx: u32) -> Result<Seq<char>, Error> {
    if idx >= u32_or_zero(data, 8) {
        Err(Error::StringIndexOutOfBounds)
    } else {
        match string_position(data, idx) {
            Err(e) => Err(e),
            Ok(position) => string_at(data, position),
        }
    }
}

/// A string table read in place.
#[derive(Debug)]
pub struct StringTableWrapper<'a> {
    raw_data: &'a [u8],
}

impl<'a> View for StringTableWrapper<'a> {
    type V = Seq<u8>;

    closed spec fn view(&self) -> Seq<u8> {
        self.raw_data@
    }
}

impl<'a> StringTableWrapper<'a> {
    #[verifier::type_invariant]
    spec fn fits(&self) -> bool {
        self.raw_data@.len() <= u32::MAX
    }

    /// Wraps the bytes of a string table, whose length must fit in a `u32`, as the size
    /// that every chunk announces does.
    pub fn new(raw_data: &'a [u8]) -> (r: Self)
        requires
            raw_data@.len() <= u32::MAX,
        ensures
            r@ == raw_data@,
    {
        Self { raw_data }
    }

    /// The flags of the table, or 0 where the chunk is too short to hold them.
    pub fn get_flags(&self) -> (r: u32)
        ensures
            r == string_table_flags(self@),
    {
        match get_u32(self.raw_data, 16) {
            Ok(v) => v,
            Err(_) => 0,
        }
    }

    /// Whether the strings are encoded in UTF-8 (else in UTF-16).
    pub fn is_utf8(&self) -> (r: bool)
        ensures
            r == string_table_is_utf8(self@),
    {
        (self.get_flags() & 0x0000_0100) == 0x0000_0100
    }

    /// Where the string at `idx` starts.
    pub fn get_string_position(&self, idx: u32) -> (r: Result<u32, Error>)
        ensures
            r == string_position(self@, idx),
    {
        let base = get_u32(self.raw_data, 20)?;
        let offset = get_u32(self.raw_data, 28 + 4 * (idx as u64))?;
        Ok(base.wrapping_add(offset))
    }

    /// The UTF-8 string at `offset`.
    fn parse_utf8(&self, offset: u32) -> (r: Result<String, Error>)
        ensures
            string_result(r) == utf8_string_at(self@, offset as int),
    {
        proof {
            use_type_invariant(self);
        }
        let data = self.raw_data;
        let mut start: u64 = offset as u64;
        let v1 = get_u8(data, start)?;
        if v1 == 0x80 {
            get_u8(data, start + 1)?;
            start = start + 2;
        } else {
            start = start + 1;
        }
        let v2 = get_u8(data, start)?;
        if v2 == 0x80 {
            get_u8(data, start + 1)?;
            start = start + 2;
        } else {
            start = start + 1;
        }
        assert(utf8_text_start(self@, offset as int) == Ok::<int, Error>(start as int));
        let mut end: u64 = start;
        loop
            invariant
                data@ == self@,
                data@.len() <= u32::MAX,
                utf8_text_start(self@, offset as int) == Ok::<int, Error>(start as int),
                start <= end <= data@.len(),
                forall|k: int| start <= k < end ==> data@[k] != 0,
            ensures
                start <= end < data@.len(),
                data@[end as int] == 0,
                forall|k: int| start <= k < end ==> data@[k] != 0,
            decreases data@.len() + 1 - end,
        {
            let b = match get_u8(data, end) {
                Ok(b) => b,
                Err(e) => {
                    assert forall|z: int| !nul_at(self@, start as int, z) by {
                        if nul_at(self@, start as int, z) && z < end {
                            assert(data@[z] != 0);
                        }
                    }
                    return Err(e);
                },
            };
            if b == 0 {
                break ;
            }
            end = end + 1;
        }
        assert(nul_at(self@, start as int, end as int));
        proof {
            let z = choose|z: int| nul_at(self@, start as int, z);
            if z < end {
                assert(data@[z] != 0);
            }
            if z > end {
                assert(data@[end as int] != 0);
            }
            assert(z == end);
        }
        let text = slice_subrange(data, start as usize, end as usize);
        let decoded = utf8_decode(text);
        assert(option_chars(decoded) == utf8_text(text@));
        match decoded {
            Some(s) => Ok(s),
            None => Err(Error::InvalidUtf8),
        }
    }

    /// The UTF-16 string at `offset`.
    fn parse_utf16(&self, offset: u32) -> (r: Result<String, Error>)
        ensures
            string_result(r) == utf16_string_at(self@, offset as int),
    {
        proof {
            use_type_invariant(self);
        }
        let data = self.raw_data;
        let low = get_u8(data, offset as u64)?;
        let high = get_u8(data, offset as u64 + 1)?;
        let units: u64 = low as u64 + 256 * (high as u64);
        let start: u64 = offset as u64 + 2;
        let end: u64 = start + 2 * units;
        if end > data.len() as u64 {
            return Err(Error::StringSliceOutOfRange);
        }
        let text = slice_subrange(data, start as usize, end as usize);
        let decoded = utf16le_decode(text);
        proof {
            if exists|chars: Seq<char>| utf16le_bytes(chars) == text@ {
                let chars = choose|chars: Seq<char>| utf16le_bytes(chars) == text@;
                assert(option_chars(decoded) == Some(chars));
            }
        }
        assert(option_chars(decoded) == utf16le_text(text@));
        match decoded {
            Some(s) => Ok(s),
            None => Err(Error::InvalidUtf16),
        }
    }

    /// The string at `offset`, decoded as the flags announce.
    pub fn parse_string(&self, offset: u32) -> (r: Result<String, Error>)
        ensures
            string_result(r) == string_at(self@, offset),
    {
        if self.is_utf8() {
            self.parse_utf8(offset)
        } else {
            self.parse_utf16(offset)
        }
    }

    /// Copies all the strings, in order, into a `StringTableBuf` with the same encoding.
    pub fn to_buffer(&self) -> (r: Result<StringTableBuf, Error>)
        ensures
            r is Ok <==> (forall|i: u32|
                i < u32_or_zero(self@, 8) ==> #[trigger] string_table_string(self@, i) is Ok),
            match r {
                Ok(b) => {
                    &&& b.spec_strings().len() == u32_or_zero(self@, 8)
                    &&& forall|i: int|
                        0 <= i < b.spec_strings().len() ==> string_table_string(self@, i as u32)
                            == Ok::<Seq<char>, Error>(#[trigger] b.spec_strings()[i])
                    &&& b.spec_styles_count() == 0
                    &&& (b.spec_encoding() == Encoding::Utf8 <==> string_table_is_utf8(self@))
                },
                Err(e) => exists|i: u32|
                    {
                        &&& i < u32_or_zero(self@, 8)
                        &&& #[trigger] string_table_string(self@, i) == Err::<Seq<char>, Error>(e)
                        &&& forall|j: u32| j < i ==> (#[trigger] string_table_string(self@, j)) is Ok
                    },
            },
    {
        let mut owned = StringTableBuf::default();
        if !self.is_utf8() {
            owned.set_encoding(Encoding::Utf16);
        }
        let n = self.strings_len();
        let mut i: u32 = 0;
        while i < n
            invariant
                i <= n,
                n == u32_or_zero(self@, 8),
                owned.spec_strings().len() == i,
                forall|k: int|
                    0 <= k < i ==> string_table_string(self@, k as u32) == Ok::<Seq<char>, Error>(
                        #[trigger] owned.spec_strings()[k],
                    ),
                owned.spec_styles_count() == 0,
                owned.spec_encoding() == Encoding::Utf8 <==> string_table_is_utf8(self@),
            decreases n - i,
        {
            let s = match self.get_string(i) {
                Ok(s) => s,
                Err(e) => {
                    proof {
                        assert forall|j: u32| j < i implies (#[trigger] string_table_string(
                            self@,
                            j,
                        )) is Ok by {
                            assert(owned.spec_strings()[j as int] == owned.spec_strings()[j as int]);
                            assert((j as int) as u32 == j);
                        }
                    }
                    return Err(e);
                },
            };
            owned.add_string(s);
            proof {
                assert(string_table_string(self@, (i as int) as u32) == string_table_string(
                    self@,
                    i,
                ));
            }
            i = i + 1;
        }
        proof {
            assert forall|j: u32| j < u32_or_zero(self@, 8) implies #[trigger] string_table_string(
                self@,
                j,
            ) is Ok by {
                assert(owned.spec_strings()[j as int] == owned.spec_strings()[j as int]);
                assert((j as int) as u32 == j);
            }
        }
        Ok(owned)
    }
}

impl<'a> StringTable for StringTableWrapper<'a> {
    open spec fn spec_strings_len(&self) -> u32 {
        u32_or_zero(self@, 8)
    }

    open spec fn spec_styles_len(&self) -> u32 {
        u32_or_zero(self@, 12)
    }

    open spec fn spec_string(&self, idx: u32) -> Result<Seq<char>, Error> {
        string_table_string(self@, idx)
    }

    fn strings_len(&self) -> (r: u32) {
        match get_u32(self.raw_data, 8) {
            Ok(v) => v,
            Err(_) => 0,
        }
    }

    fn styles_len(&self) -> (r: u32) {
        match get_u32(self.raw_data, 12) {
            Ok(v) => v,
            Err(_) => 0,
        }
    }

    fn get_string(&self, idx: u32) -> (r: Result<String, Error>) {
        if idx >= self.strings_len() {
            return Err(Error::StringIndexOutOfBounds);
        }
        let position = self.get_string_position(idx)?;
        self.parse_string(position)
    }
}

/// A string table that remembers the strings it has decoded.
pub struct StringTableCache<S: StringTable> {
    inner: S,
    cache: HashMapWithView<u32, String>,
}

impl<S: StringTable> StringTableCache<S> {
    /// The table whose strings are remembered.
    pub closed spec fn spec_inner(&self) -> S {
        self.inner
    }

    /// The remembered strings, by index.
    pub closed spec fn spec_cache(&self) -> Map<u32, Seq<char>> {
        self.cache@.map_values(|s: String| s@)
    }

    /// Whether every remembered string is what the inner table gives at its index.
    pub open spec fn agrees(&self) -> bool {
        forall|k: u32|
            #[trigger] self.spec_cache().contains_key(k) ==> self.spec_inner().spec_string(k)
                == Ok::<Seq<char>, Error>(self.spec_cache()[k])
    }

    /// Wraps a table with an empty cache.
    pub fn new(inner: S) -> (r: Self)
        ensures
            r.spec_inner() == inner,
            r.spec_cache() == Map::<u32, Seq<char>>::empty(),
            r.agrees(),
    {
        broadcast use vstd::std_specs::hash::group_hash_axioms;

        let r = Self { inner, cache: HashMapWithView::new() };
        assert(r.spec_cache() =~= Map::<u32, Seq<char>>::empty());
        r
    }

    /// Looks up the string at `idx` and remembers it when the lookup succeeds.
    pub fn get_string_cached(&mut self, idx: u32) -> (r: Result<String, Error>)
        ensures
            string_result(r) == old(self).spec_string(idx),
            final(self).spec_inner() == old(self).spec_inner(),
            final(self).spec_cache() == match r {
                Ok(s) => old(self).spec_cache().insert(idx, s@),
                Err(_) => old(self).spec_cache(),
            },
            old(self).agrees() ==> final(self).agrees(),
    {
        match self.cache.get(&idx) {
            Some(s) => {
                let r = s.clone();
                assert(self.spec_cache().insert(idx, r@) =~= self.spec_cache());
                return Ok(r);
            },
            None => {},
        }
        let r = self.inner.get_string(idx);
        match r {
            Ok(s) => {
                let ghost before = self.spec_cache();
                self.cache.insert(idx, s.clone());
                assert(self.spec_cache() =~= before.insert(idx, s@));
                Ok(s)
            },
            Err(e) => Err(e),
        }
    }
}

/// A cache that agrees with its inner table gives the inner table's strings.
pub proof fn lemma_cache_is_transparent<S: StringTable>(table: StringTableCache<S>, idx: u32)
    requires
        table.agrees(),
    ensures
        table.spec_string(idx) == table.spec_inner().spec_string(idx),
{
}

impl<S: StringTable> StringTable for StringTableCache<S> {
    open spec fn spec_strings_len(&self) -> u32 {
        self.spec_inner().spec_strings_len()
    }

    open spec fn spec_styles_len(&self) -> u32 {
        self.spec_inner().spec_styles_len()
    }

    /// The remembered string at `idx`, or else what the inner table gives.
    open spec fn spec_string(&self, idx: u32) -> Result<Seq<char>, Error> {
        if self.spec_cache().contains_key(idx) {
            Ok(self.spec_cache()[idx])
        } else {
            self.spec_inner().spec_string(idx)
        }
    }

    fn strings_len(&self) -> (r: u32) {
        self.inner.strings_len()
    }

    fn styles_len(&self) -> (r: u32) {
        self.inner.styles_len()
    }

    fn get_string(&self, idx: u32) -> (r: Result<String, Error>) {
        match self.cache.get(&idx) {
            Some(s) => Ok(s.clone()),
            None => self.inner.get_string(idx),
        }
    }
}

/// The strings written before the `i`-th start the strings written before any later
/// one.
proof fn lemma_strings_buffer_prefix(enc: Encoding, strings: Seq<Seq<char>>, i: nat, n: nat)
    requires
        i <= n <= strings.len(),
    ensures
        strings_buffer(enc, strings, i).len() <= strings_buffer(enc, strings, n).len(),
        strings_buffer(enc, strings, n).subrange(0, strings_buffer(enc, strings, i).len() as int)
            == strings_buffer(enc, strings, i),
    decreases n,
{
    if i < n {
        lemma_strings_buffer_prefix(enc, strings, i, (n - 1) as nat);
        let before = strings_buffer(enc, strings, (n - 1) as nat);
        let k = strings_buffer(enc, strings, i).len() as int;
        assert(strings_buffer(enc, strings, n).subrange(0, k) =~= before.subrange(0, k));
    } else {
        let all = strings_buffer(enc, strings, n);
        assert(all.subrange(0, all.len() as int) =~= all);
    }
}

/// The UTF-16 code units of ASCII characters are two bytes each.
proof fn lemma_ascii_utf16_len(s: Seq<char>)
    requires
        is_ascii_chars(s),
    ensures
        utf16le_bytes(s).len() == 2 * s.len(),
    decreases s.len(),
{
    if s.len() > 0 {
        assert(is_ascii_chars(s.drop_last()));
        assert('\0' <= s[s.len() - 1] <= '\u{7f}');
        lemma_ascii_utf16_len(s.drop_last());
    }
}

/// No byte of the UTF-8 encoding of a character other than NUL is zero.
proof fn lemma_scalar_bytes_nonzero(c: char)
    requires
        c != '\0',
    ensures
        forall|k: int|
            0 <= k < encode_scalar(c as u32).len() ==> #[trigger] encode_scalar(c as u32)[k] != 0,
{
    let v = c as u32;
    assert(v != 0);
    assert(v != 0 ==> leading_byte_width_1(v) != 0 || v >= 0x80) by (bit_vector);
    assert(leading_byte_width_2(v) != 0) by (bit_vector);
    assert(leading_byte_width_3(v) != 0) by (bit_vector);
    assert(leading_byte_width_4(v) != 0) by (bit_vector);
    assert(last_continuation_byte(v) != 0) by (bit_vector);
    assert(second_last_continuation_byte(v) != 0) by (bit_vector);
    assert(third_last_continuation_byte(v) != 0) by (bit_vector);
}

/// No byte of the UTF-8 encoding of a text without NUL characters is zero.
proof fn lemma_utf8_bytes_nonzero(s: Seq<char>)
    requires
        forall|k: int| 0 <= k < s.len() ==> s[k] != '\0',
    ensures
        forall|k: int| 0 <= k < encode_utf8(s).len() ==> #[trigger] encode_utf8(s)[k] != 0,
    decreases s.len(),
{
    if s.len() > 0 {
        lemma_scalar_bytes_nonzero(s[0]);
        lemma_utf8_bytes_nonzero(s.drop_first());
        let first = encode_scalar(s[0] as u32);
        let rest = encode_utf8(s.drop_first());
        assert(encode_utf8(s) == first + rest);
        assert forall|k: int| 0 <= k < encode_utf8(s).len() implies encode_utf8(s)[k] != 0 by {
            if k < first.len() {
                assert(encode_utf8(s)[k] == first[k]);
            } else {
                assert(encode_utf8(s)[k] == rest[k - first.len()]);
            }
        }
    }
}

/// The bytes of an encoded string table.
#[verifier::opaque]
spec fn table_bytes(b: StringTableBuf) -> Seq<u8> {
    encoded(b)
}

/// The header of an encoded string table announces its amount of strings, its encoding
/// and where its strings start.
proof fn lemma_string_table_header(b: StringTableBuf)
    requires
        b.spec_fits(),
    ensures
        u32_or_zero(table_bytes(b), 8) == b.spec_strings().len(),
        string_table_is_utf8(table_bytes(b)) <==> b.spec_encoding() == Encoding::Utf8,
        read_u32_spec(table_bytes(b), 20) == Some(
            (28 + 4 * b.spec_strings().len() + 4 * b.spec_styles_count()) as u32,
        ),
{
    reveal(table_bytes);
    let c = table_bytes(b);
    let header = b.spec_header();
    let n = b.spec_strings().len();
    let m = b.spec_styles_count();
    lemma_chunk_layout(b.spec_token(), b.spec_header_size(), header, b.spec_body());
    let flags: u32 = if b.spec_encoding() == Encoding::Utf8 {
        0x100u32
    } else {
        0u32
    };
    let base = (28 + 4 * n + 4 * m) as u32;
    assert(header.subrange(0, 4) =~= u32_bytes(n as u32));
    assert(header.subrange(8, 12) =~= u32_bytes(flags));
    assert(header.subrange(12, 16) =~= u32_bytes(base));
    lemma_read_u32_in_part(c, 8, header, 0, n as u32);
    lemma_read_u32_in_part(c, 8, header, 8, flags);
    lemma_read_u32_in_part(c, 8, header, 12, base);
    assert(0x100u32 & 0x100u32 == 0x100u32 && 0u32 & 0x100u32 == 0u32) by (bit_vector);
}

/// The body of an encoded string table: the offsets of the strings, the offsets of the
/// styles, then the strings, from byte 28 on.
proof fn lemma_string_table_body(b: StringTableBuf)
    ensures
        ({
            let enc = b.spec_encoding();
            let strings = b.spec_strings();
            let n = strings.len() as int;
            let all = strings_buffer(enc, strings, n as nat);
            let u1 = u32s_bytes(string_offsets(enc, strings), n as nat);
            let start = 28 + 4 * n + 4 * b.spec_styles_count() as int;
            &&& u1.len() == 4 * n
            &&& table_bytes(b).subrange(28, 28 + 4 * n) == u1
            &&& table_bytes(b).len() == start + all.len()
            &&& table_bytes(b).subrange(start, table_bytes(b).len() as int) == all
        }),
{
    reveal(table_bytes);
    let c = table_bytes(b);
    let body = b.spec_body();
    let enc = b.spec_encoding();
    let strings = b.spec_strings();
    let n = strings.len() as int;
    let m = b.spec_styles_count() as int;
    lemma_chunk_layout(b.spec_token(), b.spec_header_size(), b.spec_header(), body);
    let all = strings_buffer(enc, strings, n as nat);
    let u1 = u32s_bytes(string_offsets(enc, strings), n as nat);
    let u2 = u32s_bytes(Seq::new(m as nat, |k: int| all.len() as u32), m as nat);
    lemma_u32s_bytes(string_offsets(enc, strings), n as nat);
    lemma_u32s_bytes(Seq::new(m as nat, |k: int| all.len() as u32), m as nat);
    assert(body == u1 + u2 + all);
    assert(c.subrange(28, 28 + 4 * n) =~= body.subrange(0, 4 * n));
    assert(body.subrange(0, 4 * n) =~= u1);
    assert(c.subrange(28 + 4 * n + 4 * m, c.len() as int) =~= body.subrange(
        4 * n + 4 * m,
        body.len() as int,
    ));
    assert(body.subrange(4 * n + 4 * m, body.len() as int) =~= all);
}

/// The offset table of an encoded string table holds, at `i`, where the `i`-th string
/// starts among the strings, so that the `i`-th string is found at the strings offset
/// plus that.
proof fn lemma_string_offset_read(b: StringTableBuf, i: int)
    requires
        b.spec_fits(),
        0 <= i < b.spec_strings().len(),
    ensures
        string_position(table_bytes(b), i as u32) == Ok::<u32, Error>(
            (((28 + 4 * b.spec_strings().len() + 4 * b.spec_styles_count()) as u32
                + strings_buffer(b.spec_encoding(), b.spec_strings(), i as nat).len() as u32)
                % 0x1_0000_0000) as u32,
        ),
{
    let c = table_bytes(b);
    let enc = b.spec_encoding();
    let strings = b.spec_strings();
    let n = strings.len();
    lemma_string_table_header(b);
    lemma_string_table_body(b);
    let offsets = string_offsets(enc, strings);
    let u1 = u32s_bytes(offsets, n);
    lemma_u32s_bytes(offsets, n);
    assert(u1.subrange(4 * i, 4 * i + 4) == u32_bytes(offsets[i]));
    lemma_read_u32_in_part(c, 28, u1, 4 * i, offsets[i]);
    assert((i as u32) as int == i);
}

/// The bytes of the `i`-th string of an encoded string table sit after the strings
/// before it.
proof fn lemma_string_text_placed(b: StringTableBuf, i: int)
    requires
        0 <= i < b.spec_strings().len(),
    ensures
        ({
            let enc = b.spec_encoding();
            let strings = b.spec_strings();
            let at: int = (28 + 4 * strings.len() + 4 * b.spec_styles_count() + strings_buffer(
                enc,
                strings,
                i as nat,
            ).len()) as int;
            let text = encoded_string(enc, strings[i]);
            &&& at + text.len() <= table_bytes(b).len()
            &&& table_bytes(b).subrange(at as int, (at + text.len()) as int) == text
        }),
{
    let c = table_bytes(b);
    let enc = b.spec_encoding();
    let strings = b.spec_strings();
    let n = strings.len();
    lemma_string_table_body(b);
    lemma_strings_buffer_prefix(enc, strings, (i + 1) as nat, n);
    let all = strings_buffer(enc, strings, n);
    let before = strings_buffer(enc, strings, i as nat);
    let text = encoded_string(enc, strings[i]);
    let bl = before.len() as int;
    let tl = text.len() as int;
    let start = 28 + 4 * n + 4 * b.spec_styles_count();
    assert(strings_buffer(enc, strings, (i + 1) as nat) == before + text);
    assert(all.subrange(bl, bl + tl) =~= text) by {
        assert(all.subrange(0, bl + tl) == before + text);
        assert(all.subrange(bl, bl + tl) =~= (before + text).subrange(bl, bl + tl));
    }
    assert(c.subrange(start + bl, start + bl + tl) =~= c.subrange(
        start as int,
        c.len() as int,
    ).subrange(bl, bl + tl));
}

/// Where the `i`-th string of an encoded string table lies: the table announces its
/// strings, its encoding and the position of that string, and the string's bytes sit
/// there.
proof fn lemma_string_table_layout(b: StringTableBuf, i: int) -> (position: u32)
    requires
        b.spec_fits(),
        table_bytes(b).len() <= u32::MAX,
        0 <= i < b.spec_strings().len(),
    ensures
        u32_or_zero(table_bytes(b), 8) == b.spec_strings().len(),
        string_table_is_utf8(table_bytes(b)) <==> b.spec_encoding() == Encoding::Utf8,
        string_position(table_bytes(b), i as u32) == Ok::<u32, Error>(position),
        position + encoded_string(b.spec_encoding(), b.spec_strings()[i]).len() <= table_bytes(b).len(),
        table_bytes(b).subrange(
            position as int,
            position + encoded_string(b.spec_encoding(), b.spec_strings()[i]).len(),
        ) == encoded_string(b.spec_encoding(), b.spec_strings()[i]),
{
    let enc = b.spec_encoding();
    let strings = b.spec_strings();
    lemma_string_table_header(b);
    lemma_string_offset_read(b, i);
    lemma_string_text_placed(b, i);
    let bl = strings_buffer(enc, strings, i as nat).len();
    let start = 28 + 4 * strings.len() + 4 * b.spec_styles_count();
    assert(start + bl <= u32::MAX);
    assert(((start as u32) + (bl as u32)) % 0x1_0000_0000 == start + bl);
    ((start + bl) as u32)
}

/// A table of UTF-16 strings, encoded and read back, announces as many strings as it was
/// given, and gives back at each index the ASCII string, shorter than 2^16 characters,
/// that was written there.
#[verifier::spinoff_prover]
#[verifier::rlimit(50)]
pub proof fn lemma_utf16_string_table_roundtrip(b: StringTableBuf, i: int)
    requires
        b.spec_fits(),
        b.spec_body().len() + 28 <= u32::MAX,
        b.spec_encoding() == Encoding::Utf16,
        0 <= i < b.spec_strings().len(),
        is_ascii_chars(b.spec_strings()[i]),
        b.spec_strings()[i].len() < 0x1_0000,
    ensures
        u32_or_zero(encoded(b), 8) == b.spec_strings().len(),
        string_table_string(encoded(b), i as u32) == Ok::<Seq<char>, Error>(b.spec_strings()[i]),
{
    assert(encoded(b) == table_bytes(b) && encoded(b).len() == 28 + b.spec_body().len()) by {
        reveal(table_bytes);
        lemma_chunk_layout(b.spec_token(), b.spec_header_size(), b.spec_header(), b.spec_body());
    }
    let c = encoded(b);
    let s = b.spec_strings()[i];
    let position = lemma_string_table_layout(b, i);
    let text = encoded_string(Encoding::Utf16, s);
    is_ascii_chars_encode_utf8(s);
    lemma_ascii_utf16_len(s);
    let size: int = encode_utf8(s).len() as int;
    let units = utf16le_bytes(s);
    lemma_utf16le_text_of_bytes(s);
    assert(text == seq![(size % 256) as u8, ((size / 256) % 256) as u8] + units + seq![0u8, 0u8]);
    assert(c[position as int] == text[0]);
    assert(c[position + 1] == text[1]);
    assert((size % 256) + 256 * ((size / 256) % 256) == size) by (nonlinear_arith)
        requires
            0 <= size < 0x1_0000,
    ;
    assert(c.subrange(position + 2, position + (2 + units.len()) as int) =~= units) by {
        assert(c.subrange(position + 2, position + (2 + units.len()) as int) =~= c.subrange(
            position as int,
            position + text.len(),
        ).subrange(2, (2 + units.len()) as int));
    }
}

/// A table of UTF-8 strings, encoded and read back, announces as many strings as it was
/// given, and gives back at each index the string without NUL characters that was written
/// there, when neither byte of its length is 0x80.
#[verifier::spinoff_prover]
#[verifier::rlimit(50)]
pub proof fn lemma_utf8_string_table_roundtrip(b: StringTableBuf, i: int)
    requires
        b.spec_fits(),
        b.spec_body().len() + 28 <= u32::MAX,
        b.spec_encoding() == Encoding::Utf8,
        0 <= i < b.spec_strings().len(),
        forall|k: int|
            0 <= k < b.spec_strings()[i].len() ==> b.spec_strings()[i][k] != '\0',
        encode_utf8(b.spec_strings()[i]).len() % 256 != 0x80,
        (encode_utf8(b.spec_strings()[i]).len() / 256) % 256 != 0x80,
    ensures
        u32_or_zero(encoded(b), 8) == b.spec_strings().len(),
        string_table_string(encoded(b), i as u32) == Ok::<Seq<char>, Error>(b.spec_strings()[i]),
{
    assert(encoded(b) == table_bytes(b) && encoded(b).len() == 28 + b.spec_body().len()) by {
        reveal(table_bytes);
        lemma_chunk_layout(b.spec_token(), b.spec_header_size(), b.spec_header(), b.spec_body());
    }
    let c = encoded(b);
    let s = b.spec_strings()[i];
    let position = lemma_string_table_layout(b, i);
    let text = encoded_string(Encoding::Utf8, s);
    let bytes = encode_utf8(s);
    let size: int = bytes.len() as int;
    lemma_utf8_text_of_bytes(s);
    lemma_utf8_bytes_nonzero(s);
    assert(text == seq![(size % 256) as u8, ((size / 256) % 256) as u8] + bytes + seq![0u8, 0u8]);
    let window = c.subrange(position as int, position + text.len());
    assert(c[position as int] == window[0]);
    assert(c[position + 1] == window[1]);
    let start = position + 2;
    let z = start + size;
    assert(utf8_text_start(c, position as int) == Ok::<int, Error>(start));
    assert(c[z] == window[2 + size]);
    assert forall|k: int| start <= k < z implies c[k] != 0 by {
        assert(c[k] == window[k - position]);
        assert(window[k - position] == bytes[k - start]);
    }
    assert(nul_at(c, start, z));
    let chosen = choose|y: int| nul_at(c, start, y);
    if chosen < z {
        assert(c[chosen] != 0);
    }
    if chosen > z {
        assert(c[z] != 0);
    }
    assert(c.subrange(start, z) =~= bytes) by {
        assert(c.subrange(start, z) =~= window.subrange(2, 2 + size));
    }
}

} // verus!
