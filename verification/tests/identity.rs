use abxml::chunks::{
    ResourceWrapper, TypeSpecWrapper, XmlNamespaceEndWrapper, XmlNamespaceStartWrapper,
    XmlTagEndWrapper, XmlTagStartWrapper,
};
use abxml::model::owned::{
    AttributeBuf, OwnedBuf, ResourcesBuf, TableTypeSpecBuf, XmlNamespaceEndBuf,
    XmlNamespaceStartBuf, XmlTagEndBuf, XmlTagStartBuf,
};

#[test]
fn a_namespace_start_writes_back_the_bytes_it_was_read_from() {
    let raw = XmlNamespaceStartBuf::new(7, 11, 33).to_vec().unwrap();

    let owned = XmlNamespaceStartWrapper::new(&raw).to_buffer().unwrap();

    assert_eq!(raw, owned.to_vec().unwrap());
}

#[test]
fn a_namespace_end_writes_back_the_bytes_it_was_read_from() {
    let raw = XmlNamespaceEndBuf::new(8, 11, 33).to_vec().unwrap();

    let owned = XmlNamespaceEndWrapper::new(&raw).to_buffer().unwrap();

    assert_eq!(raw, owned.to_vec().unwrap());
}

#[test]
fn a_tag_end_writes_back_the_bytes_it_was_read_from() {
    let raw = XmlTagEndBuf::new(90).to_vec().unwrap();

    let owned = XmlTagEndWrapper::new(&raw).to_buffer().unwrap();

    assert_eq!(raw, owned.to_vec().unwrap());
}

#[test]
fn resources_write_back_the_bytes_they_were_read_from() {
    let mut resources = ResourcesBuf::default();
    resources.push_resource(0x0101_0000);
    resources.push_resource(0x0101_0003);
    let raw = resources.to_vec().unwrap();

    let owned = ResourceWrapper::new(&raw).to_buffer().unwrap();

    assert_eq!(raw, owned.to_vec().unwrap());
}

#[test]
fn a_type_spec_writes_back_the_bytes_it_was_read_from() {
    let mut spec = TableTypeSpecBuf::new(4);
    spec.push_flag(0x4000_0004);
    spec.push_flag(0);
    spec.push_flag(6);
    let raw = spec.to_vec().unwrap();

    let owned = TypeSpecWrapper::new(&raw).to_owned().unwrap();

    assert_eq!(raw, owned.to_vec().unwrap());
}

#[test]
fn a_namespace_start_with_a_comment_is_written_back_without_it() {
    let mut raw = XmlNamespaceStartBuf::new(7, 11, 33).to_vec().unwrap();
    raw[12] = 5;

    let owned = XmlNamespaceStartWrapper::new(&raw).to_buffer().unwrap();

    assert_eq!(255, owned.to_vec().unwrap()[12]);
}

#[test]
fn a_tag_start_writes_back_the_bytes_it_was_read_from() {
    let mut tag_start = XmlTagStartBuf::new(2, 0, 0xFFFF_FFFF, 2, 0x0014_0014, 0);
    tag_start.add_attribute(AttributeBuf::new(0xFFFF_FFFF, 3, 0xFFFF_FFFF, 3 << 24, 4));
    tag_start.add_attribute(AttributeBuf::new(1, 5, 6, 0x10 << 24, 42));
    let raw = tag_start.to_vec().unwrap();

    let owned = XmlTagStartWrapper::new(&raw).to_buffer().unwrap();

    assert_eq!(raw, owned.to_vec().unwrap());
}
