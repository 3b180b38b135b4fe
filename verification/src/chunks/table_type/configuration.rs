//! The configuration of a table type: the device features its entries apply to.

use crate::endian::{
    get_u16, get_u32, lemma_read_u16_placed, lemma_read_u32_placed, or_eof, read_u16_spec,
    read_u32_spec, u16_bytes, u32_bytes,
};
use crate::errors::Error;
use crate::model::owned::{
    configuration_bytes, configuration_decoded, configuration_result, ConfigurationBuf,
    ConfigurationView,
};
use crate::model::{optional_string_result, string_result, Configuration};
use crate::text::string_from_utf8;
use vstd::prelude::*;
use vstd::utf8::{decode_utf8, valid_utf8};

verus! {

/// The text of a language or region code of two bytes: `any` when both are zero, the
/// decoded bytes when they are valid UTF-8, else nothing.
pub open spec fn region_text(low: u8, high: u8) -> Seq<char> {
    if low == 0 && high == 0 {
        seq!['a', 'n', 'y']
    } else if valid_utf8(seq![low, high]) {
        decode_utf8(seq![low, high])
    } else {
        Seq::empty()
    }
}

/// The two bytes of a language or region code given as bytes: the bytes themselves when
/// there are exactly two, else two zeros.
pub open spec fn region_of_bytes(bytes: Seq<u8>) -> (u8, u8) {
    if bytes.len() == 2 {
        (bytes[0], bytes[1])
    } else {
        (0, 0)
    }
}

/// A language or region code of two bytes.
#[derive(Debug, Clone, Copy, PartialEq, Eq, Structural)]
pub struct Region {
    pub low: u8,
    pub high: u8,
}

impl Default for Region {
    /// The code of two zeros, which stands for any language or region.
    fn default() -> (r: Self)
        ensures
            r == (Region { low: 0, high: 0 }),
    {
        Region { low: 0, high: 0 }
    }
}

impl From<(u8, u8)> for Region {
    fn from(input: (u8, u8)) -> (r: Self) {
        Region { low: input.0, high: input.1 }
    }
}

impl vstd::std_specs::convert::FromSpecImpl<(u8, u8)> for Region {
    open spec fn obeys_from_spec() -> bool {
        true
    }

    open spec fn from_spec(input: (u8, u8)) -> Self {
        Region { low: input.0, high: input.1 }
    }
}

impl Region {
    /// The code given as bytes: the bytes themselves when there are exactly two, else two
    /// zeros.
    pub fn from_bytes(input: &[u8]) -> (r: Self)
        ensures
            (r.low, r.high) == region_of_bytes(input@),
    {
        if input.len() == 2 {
            Region { low: input[0], high: input[1] }
        } else {
            Region { low: 0, high: 0 }
        }
    }

    /// The two bytes of the code.
    pub fn to_pair(self) -> (r: (u8, u8))
        ensures
            r == (self.low, self.high),
    {
        (self.low, self.high)
    }

    /// The text of the code: `any` for two zeros, else the bytes decoded as UTF-8, or
    /// nothing when they are not valid UTF-8.
    pub fn to_string(&self) -> (r: String)
        ensures
            r@ == region_text(self.low, self.high),
    {
        if self.low == 0 && self.high == 0 {
            let any = "any";
            proof {
                reveal_strlit("any");
            }
            return any.to_owned();
        }
        let mut chars = Vec::new();
        chars.push(self.low);
        chars.push(self.high);
        assert(chars@ =~= seq![self.low, self.high]);
        match string_from_utf8(chars) {
            Some(s) => s,
            None => String::new(),
        }
    }
}

/// The configuration of a table type, read in place.
#[derive(Debug)]
pub struct ConfigurationWrapper<'a> {
    slice: &'a [u8],
}

impl<'a> View for ConfigurationWrapper<'a> {
    type V = Seq<u8>;

    closed spec fn view(&self) -> Seq<u8> {
        self.slice@
    }
}

impl<'a> ConfigurationWrapper<'a> {
    pub fn new(slice: &'a [u8]) -> (r: Self)
        ensures
            r@ == slice@,
    {
        Self { slice }
    }

    /// Copies the configuration into a `ConfigurationBuf`.
    pub fn to_buffer(&self) -> (r: Result<ConfigurationBuf, Error>)
        ensures
            configuration_result(r) == configuration_decoded(self@),
    {
        let mut buffer = Vec::new();
        let mut i: usize = 0;
        while i < self.slice.len()
            invariant
                i <= self.slice@.len(),
                buffer@ == self.slice@.subrange(0, i as int),
            decreases self.slice@.len() - i,
        {
            buffer.push(self.slice[i]);
            i = i + 1;
            assert(buffer@ =~= self.slice@.subrange(0, i as int));
        }
        assert(buffer@ =~= self.slice@);
        ConfigurationBuf::from_cursor(buffer)
    }
}

impl<'a> Configuration for ConfigurationWrapper<'a> {
    open spec fn spec_indexable(&self, index: int) -> bool {
        0 <= index < self@.len()
    }

    open spec fn spec_size(&self) -> Result<u32, Error> {
        or_eof(read_u32_spec(self@, 0))
    }

    open spec fn spec_mcc(&self) -> Result<u16, Error> {
        or_eof(read_u16_spec(self@, 4))
    }

    open spec fn spec_mnc(&self) -> Result<u16, Error> {
        or_eof(read_u16_spec(self@, 6))
    }

    open spec fn spec_density(&self) -> Result<u16, Error> {
        or_eof(read_u16_spec(self@, 14))
    }

    open spec fn spec_width(&self) -> Result<u16, Error> {
        or_eof(read_u16_spec(self@, 20))
    }

    open spec fn spec_height(&self) -> Result<u16, Error> {
        or_eof(read_u16_spec(self@, 22))
    }

    open spec fn spec_sdk_version(&self) -> Result<u16, Error> {
        or_eof(read_u16_spec(self@, 24))
    }

    open spec fn spec_min_sdk_version(&self) -> Result<u16, Error> {
        or_eof(read_u16_spec(self@, 26))
    }

    open spec fn spec_orientation(&self) -> Result<u8, Error> {
        Ok(self@[12])
    }

    open spec fn spec_touchscreen(&self) -> Result<u8, Error> {
        Ok(self@[13])
    }

    open spec fn spec_keyboard(&self) -> Result<u8, Error> {
        Ok(self@[16])
    }

    open spec fn spec_navigation(&self) -> Result<u8, Error> {
        Ok(self@[17])
    }

    open spec fn spec_input_flags(&self) -> Result<u8, Error> {
        Ok(self@[18])
    }

    open spec fn spec_language(&self) -> Result<Seq<char>, Error> {
        Ok(region_text(self@[8], self@[9]))
    }

    open spec fn spec_region(&self) -> Result<Seq<char>, Error> {
        Ok(region_text(self@[10], self@[11]))
    }

    open spec fn spec_screen_layout(&self) -> Result<u8, Error> {
        match self.spec_size() {
            Err(e) => Err(e),
            Ok(size) => if size >= 28 {
                Ok(self@[28])
            } else {
                Err(Error::ConfigurationFieldMissing)
            },
        }
    }

    open spec fn spec_ui_mode(&self) -> Result<u8, Error> {
        match self.spec_size() {
            Err(e) => Err(e),
            Ok(size) => if size >= 29 {
                Ok(self@[29])
            } else {
                Err(Error::ConfigurationFieldMissing)
            },
        }
    }

    open spec fn spec_smallest_screen(&self) -> Result<u16, Error> {
        match self.spec_size() {
            Err(e) => Err(e),
            Ok(size) => if size >= 30 {
                or_eof(read_u16_spec(self@, 30))
            } else {
                Err(Error::ConfigurationFieldMissing)
            },
        }
    }

    open spec fn spec_screen_width(&self) -> Result<u16, Error> {
        match self.spec_size() {
            Err(e) => Err(e),
            Ok(size) => if size >= 32 {
                or_eof(read_u16_spec(self@, 32))
            } else {
                Err(Error::ConfigurationFieldMissing)
            },
        }
    }

    open spec fn spec_screen_height(&self) -> Result<u16, Error> {
        match self.spec_size() {
            Err(e) => Err(e),
            Ok(size) => if size >= 34 {
                or_eof(read_u16_spec(self@, 34))
            } else {
                Err(Error::ConfigurationFieldMissing)
            },
        }
    }

    open spec fn spec_locale_script(&self) -> Result<Option<Seq<char>>, Error> {
        Err(Error::ConfigurationFieldMissing)
    }

    open spec fn spec_locale_variant(&self) -> Result<Option<Seq<char>>, Error> {
        Err(Error::ConfigurationFieldMissing)
    }

    open spec fn spec_secondary_layout(&self) -> Result<Option<u8>, Error> {
        Err(Error::ConfigurationFieldMissing)
    }

    fn get_size(&self) -> (r: Result<u32, Error>) {
        get_u32(self.slice, 0)
    }

    fn get_mcc(&self) -> (r: Result<u16, Error>) {
        get_u16(self.slice, 4)
    }

    fn get_mnc(&self) -> (r: Result<u16, Error>) {
        get_u16(self.slice, 6)
    }

    fn get_density(&self) -> (r: Result<u16, Error>) {
        get_u16(self.slice, 14)
    }

    fn get_width(&self) -> (r: Result<u16, Error>) {
        get_u16(self.slice, 20)
    }

    fn get_height(&self) -> (r: Result<u16, Error>) {
        get_u16(self.slice, 22)
    }

    fn get_sdk_version(&self) -> (r: Result<u16, Error>) {
        get_u16(self.slice, 24)
    }

    fn get_min_sdk_version(&self) -> (r: Result<u16, Error>) {
        get_u16(self.slice, 26)
    }

    fn get_orientation(&self) -> (r: Result<u8, Error>) {
        Ok(self.slice[12])
    }

    fn get_touchscreen(&self) -> (r: Result<u8, Error>) {
        Ok(self.slice[13])
    }

    fn get_keyboard(&self) -> (r: Result<u8, Error>) {
        Ok(self.slice[16])
    }

    fn get_navigation(&self) -> (r: Result<u8, Error>) {
        Ok(self.slice[17])
    }

    fn get_input_flags(&self) -> (r: Result<u8, Error>) {
        Ok(self.slice[18])
    }

    fn get_language(&self) -> (r: Result<String, Error>) {
        let region = Region::from((self.slice[8], self.slice[9]));
        Ok(region.to_string())
    }

    fn get_region(&self) -> (r: Result<String, Error>) {
        let region = Region::from((self.slice[10], self.slice[11]));
        Ok(region.to_string())
    }

    fn get_screen_layout(&self) -> (r: Result<u8, Error>) {
        let size = self.get_size()?;
        if size < 28 {
            return Err(Error::ConfigurationFieldMissing);
        }
        Ok(self.slice[28])
    }

    fn get_ui_mode(&self) -> (r: Result<u8, Error>) {
        let size = self.get_size()?;
        if size < 29 {
            return Err(Error::ConfigurationFieldMissing);
        }
        Ok(self.slice[29])
    }

    fn get_smallest_screen(&self) -> (r: Result<u16, Error>) {
        let size = self.get_size()?;
        if size < 30 {
            return Err(Error::ConfigurationFieldMissing);
        }
        get_u16(self.slice, 30)
    }

    fn get_screen_width(&self) -> (r: Result<u16, Error>) {
        let size = self.get_size()?;
        if size < 32 {
            return Err(Error::ConfigurationFieldMissing);
        }
        get_u16(self.slice, 32)
    }

    fn get_screen_height(&self) -> (r: Result<u16, Error>) {
        let size = self.get_size()?;
        if size < 34 {
            return Err(Error::ConfigurationFieldMissing);
        }
        get_u16(self.slice, 34)
    }

    fn get_locale_script(&self) -> (r: Result<Option<String>, Error>) {
        Err(Error::ConfigurationFieldMissing)
    }

    fn get_locale_variant(&self) -> (r: Result<Option<String>, Error>) {
        Err(Error::ConfigurationFieldMissing)
    }

    fn get_secondary_layout(&self) -> (r: Result<Option<u8>, Error>) {
        Err(Error::ConfigurationFieldMissing)
    }
}

/// The fields that a configuration read in place reports agree with those that
/// `ConfigurationBuf` decodes from the same bytes.
pub proof fn lemma_configuration_fields_agree(w: ConfigurationWrapper)
    requires
        configuration_decoded(w@) is Ok,
    ensures
        ({
            let c = configuration_decoded(w@)->Ok_0;
            &&& w.spec_size() == Ok::<u32, Error>(c.size)
            &&& w.spec_mcc() == Ok::<u16, Error>(c.mcc)
            &&& w.spec_mnc() == Ok::<u16, Error>(c.mnc)
            &&& w.spec_language() == Ok::<Seq<char>, Error>(c.language)
            &&& w.spec_region() == Ok::<Seq<char>, Error>(c.region)
            &&& w.spec_orientation() == Ok::<u8, Error>(c.orientation)
            &&& w.spec_touchscreen() == Ok::<u8, Error>(c.touchscreen)
            &&& w.spec_density() == Ok::<u16, Error>(c.density)
            &&& w.spec_keyboard() == Ok::<u8, Error>(c.keyboard)
            &&& w.spec_navigation() == Ok::<u8, Error>(c.navigation)
            &&& w.spec_input_flags() == Ok::<u8, Error>(c.input_flags)
            &&& w.spec_width() == Ok::<u16, Error>(c.width)
            &&& w.spec_height() == Ok::<u16, Error>(c.height)
            &&& w.spec_sdk_version() == Ok::<u16, Error>(c.sdk_version)
            &&& w.spec_min_sdk_version() == Ok::<u16, Error>(c.min_sdk_version)
        }),
{
}

/// The fixed fields that a `ConfigurationBuf` writes are read back in place as written:
/// size, country and network codes, orientation, touchscreen, density, keyboard,
/// navigation, input flags, width, height, sdk version and minimum sdk version.
pub proof fn lemma_written_configuration_fields(c: ConfigurationView, w: ConfigurationWrapper)
    requires
        w@ == configuration_bytes(c),
    ensures
        w.spec_size() == Ok::<u32, Error>(c.size),
        w.spec_mcc() == Ok::<u16, Error>(c.mcc),
        w.spec_mnc() == Ok::<u16, Error>(c.mnc),
        w.spec_orientation() == Ok::<u8, Error>(c.orientation),
        w.spec_touchscreen() == Ok::<u8, Error>(c.touchscreen),
        w.spec_density() == Ok::<u16, Error>(c.density),
        w.spec_keyboard() == Ok::<u8, Error>(c.keyboard),
        w.spec_navigation() == Ok::<u8, Error>(c.navigation),
        w.spec_input_flags() == Ok::<u8, Error>(c.input_flags),
        w.spec_width() == Ok::<u16, Error>(c.width),
        w.spec_height() == Ok::<u16, Error>(c.height),
        w.spec_sdk_version() == Ok::<u16, Error>(c.sdk_version),
        w.spec_min_sdk_version() == Ok::<u16, Error>(c.min_sdk_version),
{
    let b = w@;
    assert(u32_bytes(c.size).len() == 4 && u16_bytes(c.mcc).len() == 2);
    assert(b.subrange(0, 4) =~= u32_bytes(c.size));
    assert(b.subrange(4, 6) =~= u16_bytes(c.mcc));
    assert(b.subrange(6, 8) =~= u16_bytes(c.mnc));
    assert(b.subrange(14, 16) =~= u16_bytes(c.density));
    assert(b.subrange(20, 22) =~= u16_bytes(c.width));
    assert(b.subrange(22, 24) =~= u16_bytes(c.height));
    assert(b.subrange(24, 26) =~= u16_bytes(c.sdk_version));
    assert(b.subrange(26, 28) =~= u16_bytes(c.min_sdk_version));
    lemma_read_u32_placed(b, 0, c.size);
    lemma_read_u16_placed(b, 4, c.mcc);
    lemma_read_u16_placed(b, 6, c.mnc);
    lemma_read_u16_placed(b, 14, c.density);
    lemma_read_u16_placed(b, 20, c.width);
    lemma_read_u16_placed(b, 22, c.height);
    lemma_read_u16_placed(b, 24, c.sdk_version);
    lemma_read_u16_placed(b, 26, c.min_sdk_version);
}

} // verus!
