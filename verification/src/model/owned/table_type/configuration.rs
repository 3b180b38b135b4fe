use crate::chunks::table_type::{region_of_bytes, region_text, Region};
use crate::endian::{
    get_u16, get_u32, get_u8, lemma_u16_bytes_at, lemma_u32_bytes_at, push_u16, push_u32, push_u8, read_u16_spec, read_u32_spec,
    read_u8_spec, u16_at, u16_bytes, u32_at, u32_bytes,
};
use crate::errors::Error;
use crate::model::{optional_string_result, string_result, Configuration};
use vstd::prelude::*;
use vstd::utf8::{
    decode_utf8, decode_utf8_encode_utf8, encode_utf8, is_ascii_chars, is_ascii_chars_encode_utf8,
    valid_utf8,
};

verus! {

/// The view of an optional string.
pub open spec fn optional_chars(o: Option<String>) -> Option<Seq<char>> {
    match o {
        Some(s) => Some(s@),
        None => None,
    }
}

/// The fields of a configuration.
#[verifier::ext_equal]
pub struct ConfigurationView {
    pub size: u32,
    pub original_size: u32,
    pub mcc: u16,
    pub mnc: u16,
    pub language: Seq<char>,
    pub region: Seq<char>,
    pub orientation: u8,
    pub touchscreen: u8,
    pub density: u16,
    pub keyboard: u8,
    pub navigation: u8,
    pub input_flags: u8,
    pub width: u16,
    pub height: u16,
    pub sdk_version: u16,
    pub min_sdk_version: u16,
    pub screen_layout: u8,
    pub ui_mode: u8,
    pub smallest_screen: u16,
    pub screen_width: u16,
    pub screen_height: u16,
    pub locale_script: Option<Seq<char>>,
    pub locale_variant: Option<Seq<char>>,
    pub secondary_layout: Option<u8>,
}

/// The configuration that `from_cursor` reads from `data`: the fixed fields of the
/// first 28 bytes, then, as far as the announced size reaches, the screen layout, ui
/// mode and smallest screen (from 32 on), the screen sizes (from 36 on), and twelve bytes
/// that are skipped (from 48 on).
pub open spec fn configuration_decoded(data: Seq<u8>) -> Result<ConfigurationView, Error> {
    if data.len() < 28 {
        Err(Error::UnexpectedEof)
    } else {
        let size = u32_at(data, 0);
        if (size >= 32 && data.len() < 32) || (size >= 36 && data.len() < 36) || (size >= 48
            && data.len() < 48) {
            Err(Error::UnexpectedEof)
        } else {
            Ok(
                ConfigurationView {
                    size,
                    original_size: data.len() as u32,
                    mcc: u16_at(data, 4),
                    mnc: u16_at(data, 6),
                    language: region_text(data[8], data[9]),
                    region: region_text(data[10], data[11]),
                    orientation: data[12],
                    touchscreen: data[13],
                    density: u16_at(data, 14),
                    keyboard: data[16],
                    navigation: data[17],
                    input_flags: data[18],
                    width: u16_at(data, 20),
                    height: u16_at(data, 22),
                    sdk_version: u16_at(data, 24),
                    min_sdk_version: u16_at(data, 26),
                    screen_layout: if size >= 32 {
                        data[28]
                    } else {
                        0
                    },
                    ui_mode: if size >= 32 {
                        data[29]
                    } else {
                        0
                    },
                    smallest_screen: if size >= 32 {
                        u16_at(data, 30)
                    } else {
                        0
                    },
                    screen_width: if size >= 36 {
                        u16_at(data, 32)
                    } else {
                        0
                    },
                    screen_height: if size >= 36 {
                        u16_at(data, 34)
                    } else {
                        0
                    },
                    locale_script: None,
                    locale_variant: None,
                    secondary_layout: None,
                },
            )
        }
    }
}

/// The bytes that `to_vec` writes: the fixed fields, with the language and region as
/// their two-byte codes and a zero byte of padding, then zeros up to the original size.
/// The fields after the first 28 bytes are not written.
pub open spec fn configuration_bytes(c: ConfigurationView) -> Seq<u8> {
    let language = region_of_bytes(encode_utf8(c.language));
    let region = region_of_bytes(encode_utf8(c.region));
    let fixed = u32_bytes(c.size) + u16_bytes(c.mcc) + u16_bytes(c.mnc) + seq![
        language.0,
        language.1,
        region.0,
        region.1,
        c.orientation,
        c.touchscreen,
    ] + u16_bytes(c.density) + seq![c.keyboard, c.navigation, c.input_flags, 0u8] + u16_bytes(
        c.width,
    ) + u16_bytes(c.height) + u16_bytes(c.sdk_version) + u16_bytes(c.min_sdk_version);
    if c.original_size > 28 {
        fixed + Seq::new((c.original_size - 28) as nat, |i: int| 0u8)
    } else {
        fixed
    }
}

/// Owned form of the configuration of a table type.
#[derive(Debug)]
pub struct ConfigurationBuf {
    size: u32,
    original_size: u32,
    mcc: u16,
    mnc: u16,
    language: String,
    region: String,
    orientation: u8,
    touchscreen: u8,
    density: u16,
    keyboard: u8,
    navigation: u8,
    input_flags: u8,
    width: u16,
    height: u16,
    sdk_version: u16,
    min_sdk_version: u16,
    screen_layout: u8,
    ui_mode: u8,
    smallest_screen: u16,
    screen_width: u16,
    screen_height: u16,
    locale_script: Option<String>,
    locale_variant: Option<String>,
    secondary_layout: Option<u8>,
}

impl View for ConfigurationBuf {
    type V = ConfigurationView;

    closed spec fn view(&self) -> ConfigurationView {
        ConfigurationView {
            size: self.size,
            original_size: self.original_size,
            mcc: self.mcc,
            mnc: self.mnc,
            language: self.language@,
            region: self.region@,
            orientation: self.orientation,
            touchscreen: self.touchscreen,
            density: self.density,
            keyboard: self.keyboard,
            navigation: self.navigation,
            input_flags: self.input_flags,
            width: self.width,
            height: self.height,
            sdk_version: self.sdk_version,
            min_sdk_version: self.min_sdk_version,
            screen_layout: self.screen_layout,
            ui_mode: self.ui_mode,
            smallest_screen: self.smallest_screen,
            screen_width: self.screen_width,
            screen_height: self.screen_height,
            locale_script: optional_chars(self.locale_script),
            locale_variant: optional_chars(self.locale_variant),
            secondary_layout: self.secondary_layout,
        }
    }
}

/// The view of a configuration result.
pub open spec fn configuration_result(r: Result<ConfigurationBuf, Error>) -> Result<
    ConfigurationView,
    Error,
> {
    match r {
        Ok(b) => Ok(b@),
        Err(e) => Err(e),
    }
}

impl Default for ConfigurationBuf {
    /// A configuration with every field zero or empty.
    fn default() -> (r: Self)
        ensures
            r@ == (ConfigurationView {
                size: 0,
                original_size: 0,
                mcc: 0,
                mnc: 0,
                language: Seq::empty(),
                region: Seq::empty(),
                orientation: 0,
                touchscreen: 0,
                density: 0,
                keyboard: 0,
                navigation: 0,
                input_flags: 0,
                width: 0,
                height: 0,
                sdk_version: 0,
                min_sdk_version: 0,
                screen_layout: 0,
                ui_mode: 0,
                smallest_screen: 0,
                screen_width: 0,
                screen_height: 0,
                locale_script: None,
                locale_variant: None,
                secondary_layout: None,
            }),
    {
        let r = ConfigurationBuf {
            size: 0,
            original_size: 0,
            mcc: 0,
            mnc: 0,
            language: String::new(),
            region: String::new(),
            orientation: 0,
            touchscreen: 0,
            density: 0,
            keyboard: 0,
            navigation: 0,
            input_flags: 0,
            width: 0,
            height: 0,
            sdk_version: 0,
            min_sdk_version: 0,
            screen_layout: 0,
            ui_mode: 0,
            smallest_screen: 0,
            screen_width: 0,
            screen_height: 0,
            locale_script: None,
            locale_variant: None,
            secondary_layout: None,
        };
        assert(r@.language =~= Seq::<char>::empty());
        assert(r@.region =~= Seq::<char>::empty());
        r
    }
}

fn clone_optional(o: &Option<String>) -> (r: Option<String>)
    ensures
        optional_chars(r) == optional_chars(*o),
{
    match o {
        Some(s) => Some(s.clone()),
        None => None,
    }
}

impl Clone for ConfigurationBuf {
    fn clone(&self) -> (r: Self)
        ensures
            r@ == self@,
    {
        ConfigurationBuf {
            size: self.size,
            original_size: self.original_size,
            mcc: self.mcc,
            mnc: self.mnc,
            language: self.language.clone(),
            region: self.region.clone(),
            orientation: self.orientation,
            touchscreen: self.touchscreen,
            density: self.density,
            keyboard: self.keyboard,
            navigation: self.navigation,
            input_flags: self.input_flags,
            width: self.width,
            height: self.height,
            sdk_version: self.sdk_version,
            min_sdk_version: self.min_sdk_version,
            screen_layout: self.screen_layout,
            ui_mode: self.ui_mode,
            smallest_screen: self.smallest_screen,
            screen_width: self.screen_width,
            screen_height: self.screen_height,
            locale_script: clone_optional(&self.locale_script),
            locale_variant: clone_optional(&self.locale_variant),
            secondary_layout: self.secondary_layout,
        }
    }
}

impl ConfigurationBuf {
    /// Reads a configuration from its bytes; the amount of bytes is kept as the original
    /// size, which `to_vec` fills up to.
    pub fn from_cursor(buffer: Vec<u8>) -> (r: Result<Self, Error>)
        ensures
            configuration_result(r) == configuration_decoded(buffer@),
    {
        let data = buffer.as_slice();
        let original_size = data.len() as u32;
        let size = get_u32(data, 0)?;
        let mcc = get_u16(data, 4)?;
        let mnc = get_u16(data, 6)?;
        let lang1 = get_u8(data, 8)?;
        let lang2 = get_u8(data, 9)?;
        let language = Region::from((lang1, lang2)).to_string();
        let reg1 = get_u8(data, 10)?;
        let reg2 = get_u8(data, 11)?;
        let region = Region::from((reg1, reg2)).to_string();
        let orientation = get_u8(data, 12)?;
        let touchscreen = get_u8(data, 13)?;
        let density = get_u16(data, 14)?;
        let keyboard = get_u8(data, 16)?;
        let navigation = get_u8(data, 17)?;
        let input_flags = get_u8(data, 18)?;
        get_u8(data, 19)?;
        let width = get_u16(data, 20)?;
        let height = get_u16(data, 22)?;
        let sdk_version = get_u16(data, 24)?;
        let min_sdk_version = get_u16(data, 26)?;
        let mut screen_layout: u8 = 0;
        let mut ui_mode: u8 = 0;
        let mut smallest_screen: u16 = 0;
        let mut screen_width: u16 = 0;
        let mut screen_height: u16 = 0;
        if size >= 32 {
            screen_layout = get_u8(data, 28)?;
            ui_mode = get_u8(data, 29)?;
            smallest_screen = get_u16(data, 30)?;
        }
        if size >= 36 {
            screen_width = get_u16(data, 32)?;
            screen_height = get_u16(data, 34)?;
        }
        if size >= 48 {
            get_u32(data, 36)?;
            get_u32(data, 40)?;
            get_u32(data, 44)?;
        }
        let r = ConfigurationBuf {
            size,
            original_size,
            mcc,
            mnc,
            language,
            region,
            orientation,
            touchscreen,
            density,
            keyboard,
            navigation,
            input_flags,
            width,
            height,
            sdk_version,
            min_sdk_version,
            screen_layout,
            ui_mode,
            smallest_screen,
            screen_width,
            screen_height,
            locale_script: None,
            locale_variant: None,
            secondary_layout: None,
        };
        assert(r@ == configuration_decoded(buffer@)->Ok_0);
        Ok(r)
    }

    /// The bytes of the configuration.
    pub fn to_vec(&self) -> (r: Result<Vec<u8>, Error>)
        ensures
            r matches Ok(v) && v@ == configuration_bytes(self@),
    {
        let mut buffer = Vec::new();
        push_u32(&mut buffer, self.size);
        push_u16(&mut buffer, self.mcc);
        push_u16(&mut buffer, self.mnc);
        let (low, high): (u8, u8) = Region::from_bytes(self.language.as_str().as_bytes()).to_pair();
        push_u8(&mut buffer, low);
        push_u8(&mut buffer, high);
        let (low, high): (u8, u8) = Region::from_bytes(self.region.as_str().as_bytes()).to_pair();
        push_u8(&mut buffer, low);
        push_u8(&mut buffer, high);
        push_u8(&mut buffer, self.orientation);
        push_u8(&mut buffer, self.touchscreen);
        push_u16(&mut buffer, self.density);
        push_u8(&mut buffer, self.keyboard);
        push_u8(&mut buffer, self.navigation);
        push_u8(&mut buffer, self.input_flags);
        push_u8(&mut buffer, 0);
        push_u16(&mut buffer, self.width);
        push_u16(&mut buffer, self.height);
        push_u16(&mut buffer, self.sdk_version);
        push_u16(&mut buffer, self.min_sdk_version);
        let ghost fixed = buffer@;
        assert(buffer@.len() == 28);
        let mut current: u32 = 28;
        while current < self.original_size
            invariant
                28 <= current <= self.original_size || (current == 28 && self.original_size < 28),
                buffer@ == fixed + Seq::new((current - 28) as nat, |i: int| 0u8),
            decreases self.original_size - current,
        {
            push_u8(&mut buffer, 0);
            current = current + 1;
            assert(buffer@ =~= fixed + Seq::new((current - 28) as nat, |i: int| 0u8));
        }
        assert(buffer@ =~= configuration_bytes(self@));
        Ok(buffer)
    }
}

impl Configuration for ConfigurationBuf {
    open spec fn spec_indexable(&self, index: int) -> bool {
        true
    }

    open spec fn spec_size(&self) -> Result<u32, Error> {
        Ok(self@.size)
    }

    open spec fn spec_mcc(&self) -> Result<u16, Error> {
        Ok(self@.mcc)
    }

    open spec fn spec_mnc(&self) -> Result<u16, Error> {
        Ok(self@.mnc)
    }

    open spec fn spec_language(&self) -> Result<Seq<char>, Error> {
        Ok(region_text(region_of_bytes(encode_utf8(self@.language)).0, region_of_bytes(encode_utf8(self@.language)).1))
    }

    open spec fn spec_region(&self) -> Result<Seq<char>, Error> {
        Ok(region_text(region_of_bytes(encode_utf8(self@.region)).0, region_of_bytes(encode_utf8(self@.region)).1))
    }

    open spec fn spec_orientation(&self) -> Result<u8, Error> {
        Ok(self@.orientation)
    }

    open spec fn spec_touchscreen(&self) -> Result<u8, Error> {
        Ok(self@.touchscreen)
    }

    open spec fn spec_density(&self) -> Result<u16, Error> {
        Ok(self@.density)
    }

    open spec fn spec_keyboard(&self) -> Result<u8, Error> {
        Ok(self@.keyboard)
    }

    open spec fn spec_navigation(&self) -> Result<u8, Error> {
        Ok(self@.navigation)
    }

    open spec fn spec_input_flags(&self) -> Result<u8, Error> {
        Ok(self@.input_flags)
    }

    open spec fn spec_width(&self) -> Result<u16, Error> {
        Ok(self@.width)
    }

    open spec fn spec_height(&self) -> Result<u16, Error> {
        Ok(self@.height)
    }

    open spec fn spec_sdk_version(&self) -> Result<u16, Error> {
        Ok(self@.sdk_version)
    }

    open spec fn spec_min_sdk_version(&self) -> Result<u16, Error> {
        Ok(self@.min_sdk_version)
    }

    open spec fn spec_screen_layout(&self) -> Result<u8, Error> {
        Ok(self@.screen_layout)
    }

    open spec fn spec_ui_mode(&self) -> Result<u8, Error> {
        Ok(self@.ui_mode)
    }

    open spec fn spec_smallest_screen(&self) -> Result<u16, Error> {
        Ok(self@.smallest_screen)
    }

    open spec fn spec_screen_width(&self) -> Result<u16, Error> {
        Ok(self@.screen_width)
    }

    open spec fn spec_screen_height(&self) -> Result<u16, Error> {
        Ok(self@.screen_height)
    }

    open spec fn spec_locale_script(&self) -> Result<Option<Seq<char>>, Error> {
        Ok(self@.locale_script)
    }

    open spec fn spec_locale_variant(&self) -> Result<Option<Seq<char>>, Error> {
        Ok(self@.locale_variant)
    }

    open spec fn spec_secondary_layout(&self) -> Result<Option<u8>, Error> {
        Ok(self@.secondary_layout)
    }

    fn get_size(&self) -> (r: Result<u32, Error>) {
        Ok(self.size)
    }

    fn get_mcc(&self) -> (r: Result<u16, Error>) {
        Ok(self.mcc)
    }

    fn get_mnc(&self) -> (r: Result<u16, Error>) {
        Ok(self.mnc)
    }

    fn get_language(&self) -> (r: Result<String, Error>) {
        let region = Region::from_bytes(self.language.as_str().as_bytes());
        Ok(region.to_string())
    }

    fn get_region(&self) -> (r: Result<String, Error>) {
        let region = Region::from_bytes(self.region.as_str().as_bytes());
        Ok(region.to_string())
    }

    fn get_orientation(&self) -> (r: Result<u8, Error>) {
        Ok(self.orientation)
    }

    fn get_touchscreen(&self) -> (r: Result<u8, Error>) {
        Ok(self.touchscreen)
    }

    fn get_density(&self) -> (r: Result<u16, Error>) {
        Ok(self.density)
    }

    fn get_keyboard(&self) -> (r: Result<u8, Error>) {
        Ok(self.keyboard)
    }

    fn get_navigation(&self) -> (r: Result<u8, Error>) {
        Ok(self.navigation)
    }

    fn get_input_flags(&self) -> (r: Result<u8, Error>) {
        Ok(self.input_flags)
    }

    fn get_width(&self) -> (r: Result<u16, Error>) {
        Ok(self.width)
    }

    fn get_height(&self) -> (r: Result<u16, Error>) {
        Ok(self.height)
    }

    fn get_sdk_version(&self) -> (r: Result<u16, Error>) {
        Ok(self.sdk_version)
    }

    fn get_min_sdk_version(&self) -> (r: Result<u16, Error>) {
        Ok(self.min_sdk_version)
    }

    fn get_screen_layout(&self) -> (r: Result<u8, Error>) {
        Ok(self.screen_layout)
    }

    fn get_ui_mode(&self) -> (r: Result<u8, Error>) {
        Ok(self.ui_mode)
    }

    fn get_smallest_screen(&self) -> (r: Result<u16, Error>) {
        Ok(self.smallest_screen)
    }

    fn get_screen_width(&self) -> (r: Result<u16, Error>) {
        Ok(self.screen_width)
    }

    fn get_screen_height(&self) -> (r: Result<u16, Error>) {
        Ok(self.screen_height)
    }

    fn get_locale_script(&self) -> (r: Result<Option<String>, Error>) {
        match &self.locale_script {
            Some(s) => Ok(Some(s.clone())),
            None => Ok(None),
        }
    }

    fn get_locale_variant(&self) -> (r: Result<Option<String>, Error>) {
        match &self.locale_variant {
            Some(s) => Ok(Some(s.clone())),
            None => Ok(None),
        }
    }

    fn get_secondary_layout(&self) -> (r: Result<Option<u8>, Error>) {
        Ok(self.secondary_layout)
    }
}

/// The code of a language or region comes back from its text when the two bytes are
/// zeros or valid UTF-8.
pub proof fn lemma_region_roundtrip(low: u8, high: u8)
    requires
        (low == 0 && high == 0) || valid_utf8(seq![low, high]),
    ensures
        region_of_bytes(encode_utf8(region_text(low, high))) == (low, high),
{
    if low == 0 && high == 0 {
        let any = seq!['a', 'n', 'y'];
        assert(is_ascii_chars(any));
        is_ascii_chars_encode_utf8(any);
    } else {
        decode_utf8_encode_utf8(seq![low, high]);
    }
}

/// A configuration read from bytes writes back the same bytes, when its padding byte and
/// all the bytes after the first 28 are zero (they are not written back) and each of its
/// language and region codes is two zeros or valid UTF-8.
pub proof fn lemma_configuration_identity(data: Seq<u8>)
    requires
        configuration_decoded(data) is Ok,
        data.len() <= u32::MAX,
        data[19] == 0,
        forall|k: int| 28 <= k < data.len() ==> data[k] == 0,
        (data[8] == 0 && data[9] == 0) || valid_utf8(seq![data[8], data[9]]),
        (data[10] == 0 && data[11] == 0) || valid_utf8(seq![data[10], data[11]]),
    ensures
        configuration_bytes(configuration_decoded(data)->Ok_0) == data,
{
    let v = configuration_decoded(data)->Ok_0;
    lemma_region_roundtrip(data[8], data[9]);
    lemma_region_roundtrip(data[10], data[11]);
    lemma_u32_bytes_at(data, 0);
    lemma_u16_bytes_at(data, 4);
    lemma_u16_bytes_at(data, 6);
    lemma_u16_bytes_at(data, 14);
    lemma_u16_bytes_at(data, 20);
    lemma_u16_bytes_at(data, 22);
    lemma_u16_bytes_at(data, 24);
    lemma_u16_bytes_at(data, 26);
    let bytes = configuration_bytes(v);
    assert(bytes.subrange(0, 28) =~= data.subrange(0, 28));
    assert(bytes =~= data) by {
        assert forall|k: int| 0 <= k < data.len() implies bytes[k] == data[k] by {
            if k < 28 {
                assert(bytes.subrange(0, 28)[k] == data.subrange(0, 28)[k]);
            }
        }
    }
}

} // verus!
