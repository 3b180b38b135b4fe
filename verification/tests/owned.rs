use abxml::chunks::{StringTableWrapper, XmlTagEndWrapper, XmlTagStartWrapper};
use abxml::errors::Error;
use abxml::model::owned::{
    AttributeBuf, ComplexEntry, ConfigurationBuf, Entry, OwnedBuf, ResourcesBuf, SimpleEntry,
    StringTableBuf, TableTypeBuf, XmlNamespaceStartBuf, XmlTagEndBuf, XmlTagStartBuf,
};
use abxml::model::{AttributeTrait, NamespaceStart, StringTable, TableType, TagEnd, TagStart};
use abxml::chunks::ResourceWrapper;

/// A string table whose string at each index is `s<index>`, but for the indices
/// 0, 11, 22, 33, 44, 123, 456 and 789.
fn fake_string_table() -> StringTableBuf {
    let mut st = StringTableBuf::default();
    for i in 0..790 {
        let s = match i {
            0 => "Zero".to_string(),
            11 => "Ones".to_string(),
            22 => "Twos".to_string(),
            33 => "Threes".to_string(),
            44 => "Fours".to_string(),
            123 => "center".to_string(),
            456 => "left".to_string(),
            789 => "right".to_string(),
            _ => format!("s{}", i),
        };
        st.add_string(s);
    }
    st
}

#[test]
fn resources_it_can_generate_a_chunk_with_the_given_data() {
    let mut resources = ResourcesBuf::default();
    resources.push_resource(111);
    resources.push_resource(222);

    let out = resources.to_vec().unwrap();

    let wrapper = ResourceWrapper::new(&out);

    let expected_resources: Vec<u32> = vec![111, 222];

    assert_eq!(expected_resources, wrapper.get_resources().unwrap());
}

#[test]
fn resources_it_can_generate_an_empty_chunk() {
    let resources = ResourcesBuf::default();
    let out = resources.to_vec().unwrap();

    let wrapper = ResourceWrapper::new(&out);

    let expected_resources: Vec<u32> = vec![];

    assert_eq!(expected_resources, wrapper.get_resources().unwrap());
}

#[test]
fn resources_can_be_popped() {
    let mut resources = ResourcesBuf::default();
    resources.push_resource(1);
    resources.push_resource(2);

    assert_eq!(Some(2), resources.pop_resource());
    assert_eq!(Some(1), resources.pop_resource());
    assert_eq!(None, resources.pop_resource());
}

#[test]
fn string_table_it_can_generate_an_empty_chunk() {
    let string_table = StringTableBuf::default();

    assert_eq!(0, string_table.strings_len());
    assert_eq!(0, string_table.styles_len());
    assert!(string_table.get_string(0).is_err());
}

#[test]
fn string_table_it_can_generate_a_chunk_with_the_given_data() {
    let mut string_table = StringTableBuf::default();
    string_table.add_string("some string".to_string());
    string_table.add_string("忠犬ハチ公".to_string());

    assert_eq!(2, string_table.strings_len());
    assert_eq!(0, string_table.styles_len());
    assert_eq!("some string", string_table.get_string(0).unwrap());
    assert_eq!("忠犬ハチ公", string_table.get_string(1).unwrap());
    assert!(string_table.get_string(2).is_err());
}

#[test]
fn identity_utf8() {
    let mut string_table = StringTableBuf::default();
    string_table.add_string("some string".to_string());
    string_table.add_string("忠犬ハチ公".to_string());
    let out = string_table.to_vec().unwrap();

    let wrapper = StringTableWrapper::new(&out);
    let owned = wrapper.to_buffer().unwrap();

    assert_eq!(out, owned.to_vec().unwrap());
    assert_eq!("忠犬ハチ公", wrapper.get_string(1).unwrap());
}

#[test]
fn string_table_header_announces_strings_and_encoding() {
    let mut string_table = StringTableBuf::default();
    string_table.add_string("a".to_string());
    let out = string_table.to_vec().unwrap();

    assert_eq!(&[1, 0, 28, 0], &out[0..4]);
    assert_eq!(&[1, 0, 0, 0], &out[8..12]);
    assert_eq!(&[0, 1, 0, 0], &out[16..20]);
    assert_eq!(&[32, 0, 0, 0], &out[20..24]);
    assert_eq!(&[1, 0, b'a', 0, 0], &out[32..37]);
}

#[test]
fn namespace_start_it_can_generate_a_chunk_with_the_given_data() {
    let fake_string_table = fake_string_table();
    let namespace_start = XmlNamespaceStartBuf::new(99, 11, 33);

    assert_eq!("Ones", namespace_start.prefix(&fake_string_table).unwrap());
    assert_eq!("Threes", namespace_start.namespace(&fake_string_table).unwrap());
}

#[test]
fn tag_end_it_can_generate_an_empty_chunk() {
    let tag_end = XmlTagEndBuf::new(0);
    let out = tag_end.to_vec().unwrap();
    let expected = [
        3, 1, 16, 0, 24, 0, 0, 0, 3, 0, 0, 0, 255, 255, 255, 255, 255, 255, 255, 255, 0, 0, 0,
        0,
    ];

    assert_eq!(expected, out.as_slice());
}

#[test]
fn tag_end_reads_back_its_id() {
    let tag_end = XmlTagEndBuf::new(77);
    let out = tag_end.to_vec().unwrap();

    assert_eq!(77, XmlTagEndWrapper::new(&out).id().unwrap());
}

#[test]
fn tag_start_it_can_generate_a_chunk_with_the_given_data() {
    let attribute1 = AttributeBuf::new(1, 2, 3, 5, 6);
    let attribute2 = AttributeBuf::new(7, 8, 9, 11, 12);

    let mut tag_start = XmlTagStartBuf::new(10, 22, 0xFFFFFFFF, 7, 5, 3);
    tag_start.add_attribute(attribute1);
    tag_start.add_attribute(attribute2);

    assert_eq!(10, tag_start.line().unwrap());
    assert_eq!(22, tag_start.field1().unwrap());
    assert_eq!(7, tag_start.element_name_index().unwrap());
    assert_eq!(5, tag_start.field2().unwrap());
    assert_eq!(3, tag_start.class().unwrap());
    assert_eq!(2, tag_start.attributes_amount().unwrap());
    assert_eq!(0xFFFFFFFF, tag_start.namespace_index().unwrap());
    let first_attribute = tag_start.attribute(0).unwrap();
    assert_eq!(1, first_attribute.namespace().unwrap());
    let third_attribute = tag_start.attribute(2);
    assert!(third_attribute.is_err());
}

#[test]
fn tag_start_reads_back_its_attributes() {
    let mut tag_start = XmlTagStartBuf::new(10, 22, 0xFFFFFFFF, 7, 5, 3);
    tag_start.add_attribute(AttributeBuf::new(1, 2, 3, 0x1000_0000, 6));
    let out = tag_start.to_vec().unwrap();
    let wrapper = XmlTagStartWrapper::new(&out);

    assert_eq!(7, wrapper.element_name_index().unwrap());
    assert_eq!(1, wrapper.attributes_amount().unwrap());
    let attribute = wrapper.attribute(0).unwrap();
    assert_eq!(2, attribute.name().unwrap());
    assert_eq!(6, attribute.data().unwrap());
    assert!(wrapper.attribute(1).is_err());
}

#[test]
fn mod_it_can_generate_a_chunk_with_the_given_data() {
    let mut table_type = TableTypeBuf::new(5, ConfigurationBuf::default());

    let entry = Entry::Simple(SimpleEntry::new(1, 2, 3, 4));
    let sub_entry = SimpleEntry::new(5, 6, 7, 8);
    let sub_entry2 = SimpleEntry::new(9, 0, 1, 2);

    let entry2 = Entry::Complex(ComplexEntry::new(10, 11, 12, vec![sub_entry, sub_entry2]));
    let entry3 = Entry::Simple(SimpleEntry::new(20, 21, 22, 23));

    table_type.add_entry(entry);
    table_type.add_entry(entry2);
    table_type.add_entry(entry3);

    assert_eq!(5, table_type.get_id().unwrap());
    assert_eq!(3, table_type.get_amount().unwrap());
    assert_eq!(
        10,
        table_type.get_entry(1).unwrap().complex().unwrap().get_id()
    )
}

#[test]
fn entries_are_of_one_kind() {
    let simple = Entry::Simple(SimpleEntry::new(1, 2, 3, 4));
    let empty = Entry::Empty(7, 8);

    assert_eq!(Error::NotComplexEntry, simple.complex().err().unwrap());
    assert_eq!(Error::NotSimpleEntry, empty.simple().err().unwrap());
    assert_eq!(7, empty.get_id());
    assert_eq!(8, empty.get_key());
    assert_eq!(2, simple.get_key());
    assert!(empty.to_vec().unwrap().is_empty());
    assert_eq!(
        vec![8, 0, 0, 0, 2, 0, 0, 0, 8, 0, 0, 3, 4, 0, 0, 0],
        simple.to_vec().unwrap()
    );
}

#[test]
fn a_complex_entry_without_values_announces_none() {
    let complex = ComplexEntry::new(1, 2, 3, vec![]);
    let out = complex.to_vec().unwrap();

    assert_eq!(vec![16, 0, 1, 0, 2, 0, 0, 0, 3, 0, 0, 0, 255, 255, 255, 255], out);
}

#[test]
fn owned_table_type_entry_out_of_bounds() {
    let table_type = TableTypeBuf::new(1, ConfigurationBuf::default());

    assert_eq!("entry out of bound", table_type.get_entry(0).err().unwrap().message());
}
