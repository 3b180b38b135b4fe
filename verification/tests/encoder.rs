use abxml::chunks::{ResourceWrapper, XmlTagStartWrapper};
use abxml::decoder::Decoder;
use abxml::model::builder::Xml as XmlBuilder;
use abxml::model::owned::{StringTableBuf, XmlTagEndBuf};
use abxml::encoder::Xml;
use abxml::errors::Error;
use abxml::model::owned::{AttributeBuf, OwnedBuf, PackageBuf, XmlTagStartBuf};
use abxml::model::{AttributeValue, Element, TagStart, Tag, Value};

const DECLARATION: &str = "<?xml version=\"1.0\" encoding=\"UTF-8\" standalone=\"no\"?>";

fn text(name: &str, value: &str) -> (String, AttributeValue) {
    (name.to_string(), AttributeValue::Text(value.to_string()))
}

#[test]
fn a_root_without_children_is_written_as_one_tag() {
    let root = Element::new(Tag::new("start_tag".to_string(), vec![]), vec![text("key", "value")]);

    let out = Xml::encode(&vec![], &root).unwrap();

    assert_eq!(format!("{}\n<start_tag key=\"value\" />", DECLARATION), out);
}

#[test]
fn children_are_indented_and_namespaces_declared_on_their_tag() {
    let uri = "http://schemas.android.com/apk/res/android".to_string();
    let namespaces = vec![(uri.clone(), "android".to_string())];
    let mut root = Element::new(
        Tag::new("manifest".to_string(), vec![uri.clone(), "urn:unknown".to_string()]),
        vec![text("android:label", "Demo")],
    );
    let mut application = Element::new(Tag::new("application".to_string(), vec![]), vec![]);
    application.append(Element::new(Tag::new("activity".to_string(), vec![]), vec![text("a", "b")]));
    root.append(application);
    root.append(Element::new(Tag::new("uses-sdk".to_string(), vec![]), vec![]));

    let out = Xml::encode(&namespaces, &root).unwrap();

    let expected = format!(
        "{}\n<manifest xmlns:android=\"{}\" android:label=\"Demo\">\n  <application>\n    \
         <activity a=\"b\" />\n  </application>\n  <uses-sdk />\n</manifest>",
        DECLARATION, uri
    );
    assert_eq!(expected, out);
}

#[test]
fn attribute_values_are_written_as_they_are() {
    let root = Element::new(Tag::new("a".to_string(), vec![]), vec![text("k", "x<y & \"z\"")]);

    let out = Xml::encode(&vec![], &root).unwrap();

    assert_eq!(format!("{}\n<a k=\"x<y & \"z\"\" />", DECLARATION), out);
}

#[test]
fn only_elements_whose_values_are_all_text_can_be_written() {
    let mut root = Element::new(Tag::new("a".to_string(), vec![]), vec![text("k", "v")]);
    assert!(root.has_only_text());
    root.append(Element::new(
        Tag::new("b".to_string(), vec![]),
        vec![("size".to_string(), AttributeValue::Unformatted(Value::Float(0)))],
    ));
    assert!(!root.has_only_text());
}

#[test]
fn a_package_header_takes_the_288_bytes_it_announces() {
    let package = PackageBuf::new(3, "a".to_string()).unwrap();
    let out = package.to_vec().unwrap();

    assert_eq!(288, out.len());
    assert_eq!(&[0x00, 0x02, 0x20, 0x01, 0x20, 0x01, 0, 0], &out[0..8]);
    assert_eq!(&[3, 0, 0, 0, b'a', 0, 0, 0], &out[8..16]);
    assert!(out[14..].iter().all(|b| *b == 0));
}

#[test]
fn an_attribute_past_the_announced_amount_is_refused_even_when_its_bytes_are_there() {
    let mut tag_start = XmlTagStartBuf::new(1, 0, 0xFFFF_FFFF, 0, 0, 0);
    tag_start.add_attribute(AttributeBuf::new(0xFFFF_FFFF, 1, 2, 3 << 24, 2));
    tag_start.add_attribute(AttributeBuf::new(0xFFFF_FFFF, 3, 4, 3 << 24, 4));
    let mut out = tag_start.to_vec().unwrap();
    out[28] = 1;

    let wrapper = XmlTagStartWrapper::new(&out);
    assert_eq!(Ok(1), wrapper.attributes_amount());
    assert!(wrapper.attribute(0).is_ok());
    assert_eq!(Err(Error::AttributeOutOfBounds), wrapper.attribute(1).map(|_| ()));
}

#[test]
fn a_resources_chunk_announcing_less_than_its_header_is_refused() {
    let data = vec![0x80, 0x01, 8, 0, 4, 0, 0, 0, 1, 0, 0, 0];

    assert_eq!(Err(Error::UnexpectedEof), ResourceWrapper::new(&data).get_resources());
    assert_eq!(Err(Error::UnexpectedEof), ResourceWrapper::new(&data).to_buffer().map(|_| ()));
    assert_eq!(Err(Error::UnexpectedEof), ResourceWrapper::new(&data[0..6]).get_resources());
}

#[test]
fn it_can_generate_a_decoder_from_a_buffer() {
    let arsc = vec![2, 0, 12, 0, 0, 0, 0, 0, 0, 0, 0, 0];
    let mut xml = XmlBuilder::default();
    let mut st = StringTableBuf::default();
    st.add_string("Some string".to_string());
    st.add_string("Another srtring".to_string());
    st.add_string("start_tag".to_string());
    st.add_string("key".to_string());
    st.add_string("value".to_string());

    let attribute = AttributeBuf::new(0xFFFF_FFFF, 3, 0xFFFF_FFFF, 3 << 24, 4);

    let mut tag_start = XmlTagStartBuf::new(2, 0, 0xFFFF_FFFF, 2, 0, 0);
    tag_start.add_attribute(attribute);

    xml.push_owned(&st).unwrap();
    xml.push_owned(&tag_start).unwrap();
    xml.push_owned(&XmlTagEndBuf::new(90)).unwrap();

    let xml_content = xml.into_vec().unwrap();
    let decoder = Decoder::new(&arsc, &arsc).unwrap();
    let xml_visitor = decoder.xml_visitor(&xml_content).unwrap();
    let root = xml_visitor.document_root().unwrap();
    assert!(root.has_only_text());
    let out = Xml::encode(xml_visitor.get_namespaces(), root).unwrap();

    let inner_expected = "<start_tag key=\"value\" />";
    let expected = format!(
        "<?xml version=\"1.0\" encoding=\"UTF-8\" standalone=\"no\"?>\n{}",
        inner_expected
    );
    assert_eq!(expected, out);
}
