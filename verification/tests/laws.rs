use abxml::chunks::{
    PackageWrapper, ResourceWrapper, StringTableWrapper, TableTypeWrapper, TypeSpecWrapper,
    XmlNamespaceEndWrapper, XmlNamespaceStartWrapper, XmlTagEndWrapper, XmlTagStartWrapper,
    XmlTextWrapper,
};
use abxml::model::builder::{Arsc, Xml};
use abxml::model::owned::{
    OwnedBuf, PackageBuf, ResourcesBuf, StringTableBuf, TableTypeSpecBuf, XmlTagEndBuf,
};
use abxml::model::{StringTable, TypeSpec};
use abxml::visitor::{ChunkVisitor, Executor, Origin};

/// Records which method received each chunk, with the origin of string tables.
#[derive(Default)]
struct RecordingVisitor {
    calls: Vec<String>,
}

impl<'a> ChunkVisitor<'a> for RecordingVisitor {
    fn visit_string_table(&mut self, _string_table: StringTableWrapper<'a>, origin: Origin) {
        self.calls.push(format!("string_table {:?}", origin));
    }
    fn visit_package(&mut self, _package: PackageWrapper<'a>) {
        self.calls.push("package".to_string());
    }
    fn visit_table_type(&mut self, _table_type: TableTypeWrapper<'a>) {
        self.calls.push("table_type".to_string());
    }
    fn visit_type_spec(&mut self, _type_spec: TypeSpecWrapper<'a>) {
        self.calls.push("type_spec".to_string());
    }
    fn visit_xml_namespace_start(&mut self, _namespace_start: XmlNamespaceStartWrapper<'a>) {
        self.calls.push("namespace_start".to_string());
    }
    fn visit_xml_namespace_end(&mut self, _namespace_end: XmlNamespaceEndWrapper<'a>) {
        self.calls.push("namespace_end".to_string());
    }
    fn visit_xml_tag_start(&mut self, _tag_start: XmlTagStartWrapper<'a>) {
        self.calls.push("tag_start".to_string());
    }
    fn visit_xml_tag_end(&mut self, _tag_end: XmlTagEndWrapper<'a>) {
        self.calls.push("tag_end".to_string());
    }
    fn visit_xml_text(&mut self, _text: XmlTextWrapper<'a>) {
        self.calls.push("text".to_string());
    }
    fn visit_resource(&mut self, _resource: ResourceWrapper<'a>) {
        self.calls.push("resource".to_string());
    }
}

#[test]
fn an_arsc_walk_hands_its_chunks_in_order_with_origins_in_turn() {
    let mut package = PackageBuf::new(0x7f, "com.test".to_string()).unwrap();
    package.add_chunk(&StringTableBuf::default()).unwrap();
    package.add_chunk(&StringTableBuf::default()).unwrap();
    package.add_chunk(&TableTypeSpecBuf::new(1)).unwrap();
    let mut arsc = Arsc::default();
    arsc.push_owned(&StringTableBuf::default()).unwrap();
    arsc.push_owned(&package).unwrap();
    arsc.push_owned(&ResourcesBuf::default()).unwrap();
    arsc.push_owned(&StringTableBuf::default()).unwrap();
    let content = arsc.to_vec().unwrap();

    let mut visitor = RecordingVisitor::default();
    Executor::arsc(&content, &mut visitor).unwrap();

    assert_eq!(
        vec![
            "string_table Global",
            "package",
            "string_table Spec",
            "string_table Entries",
            "type_spec",
            "string_table Global",
        ],
        visitor.calls
    );
}

#[test]
fn an_xml_walk_hands_its_chunks_in_order() {
    let mut xml = Xml::default();
    xml.push_owned(&StringTableBuf::default()).unwrap();
    xml.push_owned(&ResourcesBuf::default()).unwrap();
    xml.push_owned(&XmlTagEndBuf::new(0)).unwrap();
    xml.push_owned(&StringTableBuf::default()).unwrap();
    let content = xml.into_vec().unwrap();

    let mut visitor = RecordingVisitor::default();
    Executor::xml(&content, &mut visitor).unwrap();

    assert_eq!(
        vec!["string_table Global", "resource", "tag_end", "string_table Global"],
        visitor.calls
    );
}

#[test]
fn a_pushed_resource_id_is_written_last_and_read_back() {
    let mut resources = ResourcesBuf::default();
    resources.push_resource(1);
    resources.push_resource(2);
    let before = resources.to_vec().unwrap();
    resources.push_resource(0x0102_0304);
    let after = resources.to_vec().unwrap();

    assert_eq!(before.len() + 4, after.len());
    assert_eq!(&before[8..], &after[8..before.len()]);
    assert_eq!(&[4, 3, 2, 1], &after[before.len()..]);
    assert_eq!(Ok(vec![1, 2, 0x0102_0304]), ResourceWrapper::new(&after).get_resources());
}

#[test]
fn a_pushed_flag_is_read_back_after_the_others() {
    let mut type_spec = TableTypeSpecBuf::new(5);
    type_spec.push_flag(7);
    type_spec.push_flag(9);
    let out = type_spec.to_vec().unwrap();
    let wrapper = TypeSpecWrapper::new(&out);

    assert_eq!(Ok(5), wrapper.id());
    assert_eq!(Ok(2), wrapper.amount());
    assert_eq!(Ok(7), wrapper.flag(0));
    assert_eq!(Ok(9), wrapper.flag(1));
}

#[test]
fn a_written_string_table_gives_back_its_strings() {
    let mut st = StringTableBuf::default();
    st.add_string("first".to_string());
    st.add_string("ñandú".to_string());
    let out = st.to_vec().unwrap();
    let wrapper = StringTableWrapper::new(&out);

    assert_eq!(2, wrapper.strings_len());
    assert_eq!("first", wrapper.get_string(0).unwrap());
    assert_eq!("ñandú", wrapper.get_string(1).unwrap());
}

#[test]
fn a_written_package_gives_back_its_id_and_name() {
    let package = PackageBuf::new(3, "com.test.test".to_string()).unwrap();
    let out = package.to_vec().unwrap();
    let wrapper = PackageWrapper::new(&out);

    assert_eq!(Ok(3), wrapper.get_id());
    assert_eq!("com.test.test", wrapper.get_name().unwrap());
}

#[test]
fn a_written_package_gives_back_a_name_beyond_ascii() {
    let package = PackageBuf::new(9, "café.ñandú".to_string()).unwrap();
    let out = package.to_vec().unwrap();
    let wrapper = PackageWrapper::new(&out);

    assert_eq!(288, out.len());
    assert_eq!(Ok(9), wrapper.get_id());
    assert_eq!("café.ñandú", wrapper.get_name().unwrap());
}

#[test]
fn a_string_table_has_no_string_at_its_announced_amount() {
    let mut st = StringTableBuf::default();
    st.add_string("only".to_string());
    let out = st.to_vec().unwrap();
    let wrapper = StringTableWrapper::new(&out);

    assert_eq!("only", wrapper.get_string(0).unwrap());
    assert_eq!(
        Err(abxml::errors::Error::StringIndexOutOfBounds),
        wrapper.get_string(1)
    );

    let empty = StringTableBuf::default().to_vec().unwrap();
    assert_eq!(
        Err(abxml::errors::Error::StringIndexOutOfBounds),
        StringTableWrapper::new(&empty).get_string(0)
    );
}
