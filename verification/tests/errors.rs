use abxml::chunks::{
    ResourceWrapper, StringTableWrapper, TableTypeWrapper, TypeSpecWrapper, XmlTagStartWrapper,
};
use abxml::errors::Error;
use abxml::model::builder::Xml;
use abxml::model::owned::{
    AttributeBuf, ConfigurationBuf, Encoding, OwnedBuf, ResourcesBuf, StringTableBuf,
    TableTypeBuf, TableTypeSpecBuf, XmlTagEndBuf, XmlTagStartBuf,
};
use abxml::model::value::{TOKEN_TYPE_DIMENSION, TOKEN_TYPE_FRACTION};
use abxml::model::{StringTable, TableType, TagStart, TypeSpec, Value};
use abxml::visitor::xml::{AttributeHelper, XmlVisitor};
use abxml::visitor::{Executor, Resources};

#[test]
fn a_resources_chunk_announcing_more_than_it_holds_is_refused() {
    let mut resources = ResourcesBuf::default();
    resources.push_resource(111);
    let mut out = resources.to_vec().unwrap();
    out[4] = 200;

    assert_eq!(
        Err(Error::ResourcesCountOutOfBounds { buffer_len: 12, count: 200 }),
        ResourceWrapper::new(&out).get_resources()
    );
}

#[test]
fn a_flag_past_the_amount_of_a_type_spec_is_refused() {
    let mut spec = TableTypeSpecBuf::new(4);
    spec.push_flag(1);
    let out = spec.to_vec().unwrap();

    assert_eq!(
        Err(Error::InvalidFlag { index: 1, amount: 1 }),
        TypeSpecWrapper::new(&out).flag(1)
    );
    assert_eq!(Err(Error::FlagOutOfBounds), spec.flag(1));
    assert_eq!(
        "Invalid flag on index 1 out of 1",
        TypeSpecWrapper::new(&out).flag(1).err().unwrap().message()
    );
}

#[test]
fn a_utf16_string_running_past_its_table_is_refused() {
    let mut table = StringTableBuf::default();
    table.set_encoding(Encoding::Utf16);
    table.add_string("ab".to_string());
    let mut out = table.to_vec().unwrap();
    let at = out.windows(4).position(|w| w == [b'a', 0, b'b', 0]).unwrap();
    out[at - 2] = 200;

    assert_eq!(
        Err(Error::StringSliceOutOfRange),
        StringTableWrapper::new(&out).get_string(0)
    );
}

#[test]
fn a_utf16_string_ending_inside_a_surrogate_pair_is_refused() {
    let mut table = StringTableBuf::default();
    table.set_encoding(Encoding::Utf16);
    table.add_string("a".to_string());
    let mut out = table.to_vec().unwrap();
    let at = out.windows(2).position(|w| w == [b'a', 0]).unwrap();
    out[at] = 0x00;
    out[at + 1] = 0xD8;

    assert_eq!(Err(Error::InvalidUtf16), StringTableWrapper::new(&out).get_string(0));
}

#[test]
fn an_attribute_past_the_amount_of_a_tag_is_refused() {
    let mut tag_start = XmlTagStartBuf::new(1, 0, 0xFFFF_FFFF, 0, 0, 0);
    tag_start.add_attribute(AttributeBuf::new(0xFFFF_FFFF, 1, 2, 3 << 24, 2));
    let out = tag_start.to_vec().unwrap();

    assert_eq!(
        Err(Error::AttributeOutOfBounds),
        XmlTagStartWrapper::new(&out).attribute(1).map(|_| ())
    );
    assert_eq!(Err(Error::AttributeOutOfBounds), tag_start.attribute(1).map(|_| ()));
}

#[test]
fn a_table_type_whose_configuration_is_too_short_is_refused() {
    let data = vec![0u8; 60];

    assert_eq!(
        Err(Error::InvalidConfigurationSlice),
        TableTypeWrapper::new(&data, 40).get_configuration().map(|_| ())
    );
}

#[test]
fn an_entry_past_the_entries_of_a_table_type_is_refused() {
    let table_type = TableTypeBuf::new(1, ConfigurationBuf::default());
    let out = table_type.to_vec().unwrap();
    let header_size = u16::from_le_bytes([out[2], out[3]]) as u64;

    assert_eq!(
        Err(Error::EntryNotFound),
        TableTypeWrapper::new(&out, header_size).get_entry(0).map(|_| ())
    );
    assert_eq!(Err(Error::EntryOutOfBounds), table_type.get_entry(0).map(|_| ()));
}

#[test]
fn a_string_past_an_owned_table_is_refused() {
    let table = StringTableBuf::default();

    assert_eq!(Err(Error::MissingString), table.get_string(0));
}

#[test]
fn values_with_units_out_of_their_table_are_refused() {
    assert_eq!(
        Err(Error::InvalidUnitIndex { index: 6 }),
        Value::new(TOKEN_TYPE_DIMENSION, 0x106).map(|_| ())
    );
    assert_eq!(
        Err(Error::InvalidUnitIndex { index: 2 }),
        Value::new(TOKEN_TYPE_FRACTION, 0x102).map(|_| ())
    );
}

#[test]
fn a_reference_to_a_package_not_loaded_is_refused() {
    let resources = Resources::new();

    assert_eq!(
        Err(Error::PackageNotFound),
        AttributeHelper::resolve_reference(&resources, 0x7f01_0001, "@")
    );
}

#[test]
fn an_element_with_an_undeclared_namespace_is_left_out() {
    let mut st = StringTableBuf::default();
    st.add_string("manifest".to_string());
    st.add_string("http://schemas.android.com/apk/res/android".to_string());
    st.add_string("label".to_string());
    let mut tag_start = XmlTagStartBuf::new(1, 0, 0xFFFF_FFFF, 0, 0, 0);
    tag_start.add_attribute(AttributeBuf::new(1, 2, 0xFFFF_FFFF, 3 << 24, 0));
    let mut xml = Xml::default();
    xml.push_owned(&st).unwrap();
    xml.push_owned(&tag_start).unwrap();
    xml.push_owned(&XmlTagEndBuf::new(0)).unwrap();
    let content = xml.into_vec().unwrap();
    let resources = Resources::new();
    let mut visitor = XmlVisitor::new(&resources);

    Executor::xml(&content, &mut visitor).unwrap();

    assert!(visitor.get_root().is_none());
    assert_eq!(Err(Error::NoRootElement), visitor.document_root().map(|_| ()));
}
