use abxml::chunks::{
    PackageWrapper, ResourceWrapper, StringTableWrapper, TableTypeWrapper, TypeSpecWrapper,
    XmlNamespaceEndWrapper, XmlNamespaceStartWrapper, XmlTagEndWrapper, XmlTagStartWrapper,
    XmlTextWrapper,
};
use abxml::errors::Error;
use abxml::model::builder::{Arsc, Xml};
use abxml::model::owned::{ResourcesBuf, StringTableBuf};
use abxml::model::value::{
    TOKEN_TYPE_ARGB4, TOKEN_TYPE_ARGB8, TOKEN_TYPE_ATTRIBUTE_REFERENCE_ID, TOKEN_TYPE_BOOLEAN,
    TOKEN_TYPE_DIMENSION, TOKEN_TYPE_DYN_ATTRIBUTE, TOKEN_TYPE_DYN_REFERENCE, TOKEN_TYPE_FLAGS,
    TOKEN_TYPE_FLOAT, TOKEN_TYPE_FRACTION, TOKEN_TYPE_INTEGER, TOKEN_TYPE_REFERENCE_ID,
    TOKEN_TYPE_RGB4, TOKEN_TYPE_RGB8, TOKEN_TYPE_STRING,
};
use abxml::model::{AttributeValue, Element, ElementContainer, Identifier, Tag, Value};
use abxml::visitor::{ChunkVisitor, Executor, Origin};

#[test]
fn it_extracts_package_id() {
    assert_eq!(2130837685u32.package(), 127)
}

#[test]
fn it_converts_package_id_if_is_0() {
    assert_eq!(131253u32.package(), 1)
}

#[test]
fn it_extracts_spec_id() {
    assert_eq!(2130837685u32.spec(), 2)
}

#[test]
fn it_extracts_id() {
    assert_eq!(2130837685u32.id(), 181)
}

fn text(value: Result<Value, Error>) -> String {
    value.unwrap().to_string().unwrap()
}

#[test]
fn it_can_generate_a_string_value() {
    let value = Value::new(TOKEN_TYPE_STRING, 33);
    assert_eq!("@string/33", text(value));
}

#[test]
fn it_can_generate_reference_and_dyn_references() {
    let value = Value::new(TOKEN_TYPE_REFERENCE_ID, 12345);
    let value2 = Value::new(TOKEN_TYPE_DYN_REFERENCE, 67890);
    assert_eq!("@id/0x3039", text(value));
    assert_eq!("@id/0x10932", text(value2));
}

#[test]
fn it_can_generate_attribute_and_dyn_references() {
    let value = Value::new(TOKEN_TYPE_ATTRIBUTE_REFERENCE_ID, 12345);
    let value2 = Value::new(TOKEN_TYPE_DYN_ATTRIBUTE, 67890);
    assert_eq!("@id/0x3039", text(value));
    assert_eq!("@id/0x10932", text(value2));
}

#[test]
fn it_can_not_generate_a_dimension_if_units_are_out_of_range() {
    let dim = 0;
    let units = 0x6;
    let value = Value::new(TOKEN_TYPE_DIMENSION, dim | units);
    assert!(value.is_err());
    assert_eq!("expected a valid unit index, got: 6", value.err().unwrap().message());
}

#[test]
fn it_can_not_generate_a_fraction_if_units_are_out_of_range() {
    let dim = 1 << 31 | 1 << 5 | 1 << 10;
    let units = 0x2;
    let value = Value::new(TOKEN_TYPE_FRACTION, dim | units);
    assert!(value.is_err());
}

#[test]
fn dimensions_fractions_and_floats_keep_their_bits() {
    let dim = Value::new(TOKEN_TYPE_DIMENSION, (1 << 30) | 5).unwrap();
    assert!(matches!(dim, Value::Dimension(v) if v == (1 << 30) | 5));
    assert!(dim.to_string().is_none());
    let fraction = Value::new(TOKEN_TYPE_FRACTION, (1 << 25) | 1).unwrap();
    assert!(matches!(fraction, Value::Fraction(_)));
    let float = Value::new(TOKEN_TYPE_FLOAT, 0).unwrap();
    assert!(matches!(float, Value::Float(0)));
    assert!(float.to_string().is_none());
}

#[test]
fn it_can_generate_integer_values() {
    let int = 12345;
    let value = Value::new(TOKEN_TYPE_INTEGER, int);
    assert_eq!("12345", text(value));
}

#[test]
fn it_can_generate_flag_values() {
    let int = 12345;
    let value = Value::new(TOKEN_TYPE_FLAGS, int);
    assert_eq!("12345", text(value));
}

#[test]
fn it_can_generate_a_boolean_true_value() {
    let data = 123;
    let value = Value::new(TOKEN_TYPE_BOOLEAN, data);
    assert_eq!("true", text(value));
}

#[test]
fn it_can_generate_a_boolean_false_value() {
    let data = 0;
    let value = Value::new(TOKEN_TYPE_BOOLEAN, data);
    assert_eq!("false", text(value));
}

#[test]
fn it_can_generate_a_color_value() {
    let data = 0x01AB23FE;
    let value = Value::new(TOKEN_TYPE_ARGB8, data);
    assert_eq!("#01ab23fe", text(value));
}

#[test]
fn it_can_generate_a_color2_value() {
    let data = 0x01AB23FE;
    let value = Value::new(TOKEN_TYPE_RGB8, data);
    assert_eq!("#01ab23fe", text(value));
}

#[test]
fn it_can_generate_an_argb4_color_value() {
    let data = 0x01AB23FE;
    let value = Value::new(TOKEN_TYPE_ARGB4, data);
    assert_eq!("#01ab23fe", text(value));
}

#[test]
fn it_can_generate_a_rgb4_color_value() {
    let data = 0x01AB23FE;
    let value = Value::new(TOKEN_TYPE_RGB4, data);
    assert_eq!("#01ab23fe", text(value));
}

#[test]
fn it_generated_unknown_values_if_type_is_unkown() {
    let data = 0x12345;
    let value = Value::new(0x20, data);
    assert_eq!("Unknown", text(value));
}

#[derive(Default, Debug, Copy, Clone)]
pub struct CounterChunkVisitor {
    count: u32,
}

impl CounterChunkVisitor {
    pub fn new() -> Self {
        Self { count: 0 }
    }

    pub fn get_count(&self) -> u32 {
        self.count
    }
}

impl<'a> ChunkVisitor<'a> for CounterChunkVisitor {
    fn visit_string_table(&mut self, _string_table: StringTableWrapper<'a>, _origin: Origin) {
        self.count += 1
    }
    fn visit_package(&mut self, _package: PackageWrapper<'a>) {
        self.count += 1
    }
    fn visit_table_type(&mut self, _table_type: TableTypeWrapper<'a>) {
        self.count += 1
    }
    fn visit_type_spec(&mut self, _type_spec: TypeSpecWrapper<'a>) {
        self.count += 1
    }
    fn visit_xml_namespace_start(&mut self, _namespace_start: XmlNamespaceStartWrapper<'a>) {
        self.count += 1
    }
    fn visit_xml_namespace_end(&mut self, _namespace_end: XmlNamespaceEndWrapper<'a>) {
        self.count += 1
    }
    fn visit_xml_tag_start(&mut self, _tag_start: XmlTagStartWrapper<'a>) {
        self.count += 1
    }
    fn visit_xml_tag_end(&mut self, _tag_end: XmlTagEndWrapper<'a>) {
        self.count += 1
    }
    fn visit_xml_text(&mut self, _text: XmlTextWrapper<'a>) {
        self.count += 1
    }
    fn visit_resource(&mut self, _resource: ResourceWrapper<'a>) {
        self.count += 1
    }
}

#[test]
fn it_can_generate_a_resources_arsc_file_content() {
    let arsc = Arsc::default();
    let content = arsc.to_vec().unwrap();
    let mut visitor = CounterChunkVisitor::new();

    assert_eq!(vec![2, 0, 12, 0, 0, 0, 0, 0, 0, 0, 0, 0], content);

    Executor::arsc(&content, &mut visitor).unwrap();

    assert_eq!(0, visitor.get_count());
}

#[test]
fn it_can_generate_a_resources_arsc_file_content_with_some_chunks() {
    let mut arsc = Arsc::default();

    arsc.push_owned(&StringTableBuf::default()).unwrap();
    arsc.push_owned(&StringTableBuf::default()).unwrap();
    arsc.push_owned(&ResourcesBuf::default()).unwrap();

    let content = arsc.to_vec().unwrap();
    let mut visitor = CounterChunkVisitor::new();

    Executor::arsc(&content, &mut visitor).unwrap();

    assert_eq!(2, visitor.get_count());
}

#[test]
fn it_can_generate_a_resources_xml_file_content() {
    let xml = Xml::default();
    let content = xml.into_vec().unwrap();
    let mut visitor = CounterChunkVisitor::new();

    assert_eq!(vec![3, 0, 8, 0, 0, 0, 0, 0], content);

    Executor::xml(&content, &mut visitor).unwrap();

    assert_eq!(0, visitor.get_count());
}

#[test]
fn it_can_generate_a_resources_xml_file_content_with_some_chunks() {
    let mut xml = Xml::default();

    xml.push_owned(&StringTableBuf::default()).unwrap();
    xml.push_owned(&StringTableBuf::default()).unwrap();
    xml.push_owned(&ResourcesBuf::default()).unwrap();

    let content = xml.into_vec().unwrap();
    let mut visitor = CounterChunkVisitor::new();

    let _ = Executor::xml(&content, &mut visitor);

    assert_eq!(3, visitor.get_count());
}

#[test]
fn an_empty_buffer_is_not_a_binary_xml_document() {
    let content: Vec<u8> = vec![];
    let mut visitor = CounterChunkVisitor::new();

    assert_eq!(Err(Error::UnexpectedEof), Executor::xml(&content, &mut visitor));
}

#[test]
fn documents_with_another_token_are_refused() {
    let content = vec![3, 0, 8, 0, 0, 0, 0, 0];
    let mut visitor = CounterChunkVisitor::new();

    let result = Executor::arsc(&content, &mut visitor);
    assert_eq!(Err(Error::NotArscFile { token: 3 }), result);
    assert_eq!(
        "file does not start with ARSC token: 3",
        result.err().unwrap().message()
    );
    assert_eq!(
        Err(Error::NotXmlDocument { token: 2 }),
        Executor::xml(&[2, 0, 12, 0, 0, 0, 0, 0, 0, 0, 0, 0], &mut visitor)
    );
}

#[test]
fn a_truncated_chunk_ends_the_walk_with_an_error() {
    let content = vec![3, 0, 8, 0, 0, 0, 0, 0, 1, 0];
    let mut visitor = CounterChunkVisitor::new();

    assert_eq!(Err(Error::UnexpectedEof), Executor::xml(&content, &mut visitor));
}

#[test]
fn origins_cycle() {
    let first = Origin::Global;
    let second = Origin::next(first);
    let third = Origin::next(second);

    assert_eq!(Origin::Spec, second);
    assert_eq!(Origin::Entries, third);
    assert_eq!(Origin::Global, Origin::next(third));
}

#[test]
fn elements_form_a_tree() {
    let mut container = ElementContainer::default();
    let root = Element::new(Tag::new("root".to_string(), vec![]), vec![]);
    let child = Element::new(
        Tag::new("child".to_string(), vec![]),
        vec![("key".to_string(), AttributeValue::Text("value".to_string()))],
    );

    container.start_element(root);
    container.start_element(child);
    container.end_element();
    assert!(container.root().is_none());
    container.end_element();

    let root = container.root().as_ref().unwrap();
    assert_eq!("root", root.tag().name());
    assert_eq!(0, root.level());
    assert_eq!(1, root.children().len());
    let child = &root.children()[0];
    assert_eq!("child", child.tag().name());
    assert_eq!(1, child.level());
    assert_eq!("key", child.attributes()[0].0);
}

#[test]
fn ending_without_an_open_element_changes_nothing() {
    let mut container = ElementContainer::default();
    container.end_element();

    assert!(container.root().is_none());
}

#[test]
fn an_element_describes_its_tree_indented_by_level() {
    let mut container = ElementContainer::default();
    container.start_element(Element::new(Tag::new("manifest".to_string(), vec![]), vec![]));
    container.start_element(Element::new(Tag::new("application".to_string(), vec![]), vec![]));
    container.start_element(Element::new(Tag::new("activity".to_string(), vec![]), vec![]));
    container.end_element();
    container.end_element();
    container.start_element(Element::new(Tag::new("uses-sdk".to_string(), vec![]), vec![]));
    container.end_element();
    container.end_element();

    let root = container.root().as_ref().unwrap();
    assert_eq!(
        "Element: manifest\n\tElement: application\n\t\tElement: activity\n\tElement: uses-sdk\n",
        root.description()
    );
}
