//! The package chunk: the id and name of a package of resources, followed by its
//! chunks.

use crate::codec::{option_chars, utf16le_bytes, utf16le_decode, utf16le_text};
use crate::endian::{get_u32, or_eof, read_u32_spec};
use crate::errors::Error;
use crate::model::{string_result, Package};
use vstd::prelude::*;
use vstd::slice::slice_subrange;

verus! {

/// Whether the bytes at `12 + k - 1` and `12 + k` are both zero.
pub open spec fn zero_pair_at(data: Seq<u8>, k: int) -> bool {
    data[12 + k - 1] == 0 && data[12 + k] == 0
}

/// Whether the package name, which starts at 12, ends `k` bytes in: the bytes just before
/// and at `12 + k` are the first pair of consecutive zero bytes.
pub open spec fn name_ends_at(data: Seq<u8>, k: int) -> bool {
    &&& 1 <= k < 256
    &&& zero_pair_at(data, k)
    &&& forall|j: int| 1 <= j < k ==> !#[trigger] zero_pair_at(data, j)
}

/// The length in bytes of the package name: up to the first pair of zero bytes among the
/// 256 bytes from 12 (the first byte of the pair included), or all 256.
pub open spec fn name_length(data: Seq<u8>) -> int {
    if exists|k: int| name_ends_at(data, k) {
        choose|k: int| name_ends_at(data, k)
    } else {
        256
    }
}

/// The name of a package: the UTF-16 text of its name bytes, when the chunk holds more
/// than the 256 bytes reserved for it.
pub open spec fn package_name(data: Seq<u8>) -> Result<Seq<char>, Error> {
    if data.len() <= 268 {
        Err(Error::PackageNameOutOfBounds)
    } else {
        match utf16le_text(data.subrange(12, 12 + name_length(data))) {
            Some(chars) => Ok(chars),
            None => Err(Error::InvalidUtf8),
        }
    }
}

/// A package chunk read in place.
#[derive(Debug)]
pub struct PackageWrapper<'a> {
    raw_data: &'a [u8],
}

impl<'a> View for PackageWrapper<'a> {
    type V = Seq<u8>;

    closed spec fn view(&self) -> Seq<u8> {
        self.raw_data@
    }
}

impl<'a> PackageWrapper<'a> {
    pub fn new(raw_data: &'a [u8]) -> (r: Self)
        ensures
            r@ == raw_data@,
    {
        Self { raw_data }
    }

    /// The id of the package: the `u32` at 8.
    pub fn get_id(&self) -> (r: Result<u32, Error>)
        ensures
            r == or_eof(read_u32_spec(self@, 8)),
    {
        get_u32(self.raw_data, 8)
    }

    /// The name of the package.
    pub fn get_name(&self) -> (r: Result<String, Error>)
        ensures
            string_result(r) == package_name(self@),
    {
        if !(self.raw_data.len() > 268) {
            return Err(Error::PackageNameOutOfBounds);
        }
        let end = self.find_end_position(12);
        let raw = slice_subrange(self.raw_data, 12, end);
        let decoded = utf16le_decode(raw);
        proof {
            if exists|chars: Seq<char>| utf16le_bytes(chars) == raw@ {
                let chars = choose|chars: Seq<char>| utf16le_bytes(chars) == raw@;
                assert(option_chars(decoded) == Some(chars));
            }
        }
        assert(option_chars(decoded) == utf16le_text(raw@));
        match decoded {
            Some(s) => Ok(s),
            None => Err(Error::InvalidUtf8),
        }
    }

    /// Where the name that starts at `initial_position` ends.
    fn find_end_position(&self, initial_position: usize) -> (r: usize)
        requires
            initial_position == 12,
            self@.len() > 268,
        ensures
            r == 12 + name_length(self@),
    {
        let data = self.raw_data;
        let mut zeros: u32 = 0;
        let mut i: usize = 0;
        while i < 256
            invariant
                i <= 256,
                initial_position == 12,
                data@ == self@,
                data@.len() > 268,
                zeros <= 1,
                zeros == 1 <==> (i >= 1 && data@[12 + i - 1] == 0),
                forall|j: int| 1 <= j < i ==> !#[trigger] zero_pair_at(data@, j),
            decreases 256 - i,
        {
            if data[initial_position + i] == 0 {
                zeros = zeros + 1;
            } else {
                zeros = 0;
            }
            if zeros > 1 {
                assert(name_ends_at(self@, i as int));
                proof {
                    let k = choose|k: int| name_ends_at(self@, k);
                    if k < i {
                        assert(!zero_pair_at(data@, k));
                    }
                    if k > i {
                        assert(!zero_pair_at(data@, i as int));
                    }
                }
                return initial_position + i;
            }
            i = i + 1;
        }
        assert forall|k: int| !name_ends_at(self@, k) by {
            if name_ends_at(self@, k) {
                assert(!zero_pair_at(data@, k));
            }
        }
        initial_position + i
    }
}

impl<'a> Package for PackageWrapper<'a> {
    open spec fn spec_id(&self) -> Result<u32, Error> {
        or_eof(read_u32_spec(self@, 8))
    }

    open spec fn spec_name(&self) -> Result<Seq<char>, Error> {
        package_name(self@)
    }

    fn id(&self) -> (r: Result<u32, Error>) {
        self.get_id()
    }

    fn name(&self) -> (r: Result<String, Error>) {
        self.get_name()
    }
}

} // verus!
