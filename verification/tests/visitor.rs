use abxml::chunks::{PackageWrapper, StringTableCache, StringTableWrapper, TypeSpecWrapper};
use abxml::errors::Error;
use abxml::model::builder::{Arsc, Xml};
use abxml::model::owned::{
    AttributeBuf, ComplexEntry, ConfigurationBuf, Entry, OwnedBuf, PackageBuf, ResourcesBuf,
    SimpleEntry, StringTableBuf, TableTypeBuf, TableTypeSpecBuf, XmlNamespaceEndBuf,
    XmlNamespaceStartBuf, XmlTagEndBuf, XmlTagStartBuf,
};
use abxml::model::AttributeValue;
use abxml::visitor::xml::{AttributeHelper, XmlVisitor};
use abxml::visitor::{Executor, Library, ModelVisitor, Origin, Resources};

/// A string table whose string at each index of `named` is the given one, and `s<index>`
/// elsewhere, up to `len` strings.
fn table_bytes(named: &[(usize, &str)], len: usize) -> Vec<u8> {
    let mut st = StringTableBuf::default();
    for i in 0..len {
        let s = named
            .iter()
            .find(|(k, _)| *k == i)
            .map(|(_, s)| s.to_string())
            .unwrap_or(format!("s{}", i));
        st.add_string(s);
    }
    st.to_vec().unwrap()
}

fn entry_names() -> Vec<u8> {
    table_bytes(&[(0, "Zero"), (123, "center"), (456, "left"), (789, "right")], 790)
}

fn type_names() -> Vec<u8> {
    table_bytes(&[(0, "attr"), (1, "string")], 2)
}

fn package_bytes(id: u32, name: &str) -> Vec<u8> {
    PackageBuf::new(id, name.to_string()).unwrap().to_vec().unwrap()
}

fn type_spec_bytes(id: u16) -> Vec<u8> {
    TableTypeSpecBuf::new(id).to_vec().unwrap()
}

fn fake_entries() -> Vec<(u32, Entry)> {
    let simple_entry3 = SimpleEntry::new((2 << 24) | 4, 1, 1, 1 << 8);
    let simple_entry5 = SimpleEntry::new((2 << 24) | 5, 789, 1, 1 << 9);
    let simple_entry6 = SimpleEntry::new((2 << 24) | 6, 123, 1, 1 << 10);
    let complex = ComplexEntry::new(1, 1, 1, vec![simple_entry3, simple_entry5, simple_entry6]);

    vec![
        ((1 << 24) | 1, Entry::Simple(SimpleEntry::new(1, 1, 1, 1))),
        ((2 << 24) | 1, Entry::Simple(SimpleEntry::new(1, 1, 1, 1))),
        ((2 << 24) | 2, Entry::Simple(simple_entry3)),
        ((2 << 24) | 3, Entry::Complex(complex)),
        ((2 << 24) | 4, Entry::Simple(SimpleEntry::new((2 << 24) | 4, 456, 1, 1 << 8))),
        ((2 << 24) | 5, Entry::Simple(simple_entry5)),
        ((2 << 24) | 6, Entry::Simple(simple_entry6)),
        ((1 << 24) | (2 << 16) | 7, Entry::Simple(SimpleEntry::new(7, 456, 1, 0))),
        ((2 << 24) | (1 << 16) | 8, Entry::Simple(SimpleEntry::new(8, 789, 1, 0))),
    ]
}

struct Fixture {
    main_package: Vec<u8>,
    other_package: Vec<u8>,
    entry_names: Vec<u8>,
    type_names: Vec<u8>,
    spec_one: Vec<u8>,
    spec_two: Vec<u8>,
}

impl Fixture {
    fn new() -> Self {
        Fixture {
            main_package: package_bytes(1, "com.main"),
            other_package: package_bytes(2, "Package name"),
            entry_names: entry_names(),
            type_names: type_names(),
            spec_one: type_spec_bytes(1),
            spec_two: type_spec_bytes(2),
        }
    }

    fn library<'a>(&'a self, package: &'a [u8]) -> Library<'a> {
        let mut library = Library::new(PackageWrapper::new(package));
        library.set_string_table(
            StringTableCache::new(StringTableWrapper::new(&self.entry_names)),
            Origin::Entries,
        );
        library.set_string_table(
            StringTableCache::new(StringTableWrapper::new(&self.type_names)),
            Origin::Spec,
        );
        library.add_type_spec(TypeSpecWrapper::new(&self.spec_one)).unwrap();
        library.add_type_spec(TypeSpecWrapper::new(&self.spec_two)).unwrap();
        library.add_entries(fake_entries());
        library
    }

    /// Packages 1 and 2, the first of them the main one.
    fn resources(&self) -> Resources<'_> {
        let mut resources = Resources::new();
        resources.push_package(1, self.library(&self.main_package));
        resources.push_package(2, self.library(&self.other_package));
        resources
    }
}

#[test]
fn it_resolves_to_null_if_id_is_0() {
    let fixture = Fixture::new();
    let resources = fixture.resources();

    let reference = AttributeHelper::resolve_reference(&resources, 0, "prefix");

    assert_eq!("@null", reference.unwrap());
}

#[test]
fn it_returns_error_if_the_provided_id_is_related_to_a_non_existing_package() {
    let fixture = Fixture::new();
    let resources = fixture.resources();

    let reference = AttributeHelper::resolve_reference(&resources, 3 << 24, "prefix");

    assert!(reference.is_err());
    assert_eq!("Package not found", reference.err().unwrap().message());
}

#[test]
fn a_reference_in_the_main_package_has_no_namespace() {
    let fixture = Fixture::new();
    let resources = fixture.resources();

    let reference =
        AttributeHelper::resolve_reference(&resources, (1 << 24) | (2 << 16) | 7, "@");

    assert_eq!("@string/left", reference.unwrap());
}

#[test]
fn a_reference_in_another_package_is_prefixed_with_its_name() {
    let fixture = Fixture::new();
    let resources = fixture.resources();

    let reference =
        AttributeHelper::resolve_reference(&resources, (2 << 24) | (1 << 16) | 8, "?");

    assert_eq!("?Package name:right", reference.unwrap());
}

#[test]
fn a_reference_to_a_missing_entry_is_not_resolved() {
    let fixture = Fixture::new();
    let resources = fixture.resources();

    let reference = AttributeHelper::resolve_reference(&resources, (1 << 24) | 99, "@");

    assert_eq!(Err(Error::ReferenceNotResolved), reference);
}

#[test]
fn a_reference_to_an_unknown_type_is_refused() {
    let fixture = Fixture::new();
    let resources = fixture.resources();

    let reference = AttributeHelper::resolve_reference(&resources, (1 << 24) | 1, "@");

    assert_eq!(Err(Error::SpecNotFound), reference);
}

#[test]
fn it_resolves_flags_if_index_out_of_bounds() {
    let attribute = AttributeBuf::new(0, 1, 0, 0, 0);
    let fixture = Fixture::new();
    let resources = fixture.resources();
    let default_flags = format!("@flags:{}", 567);
    let resc = vec![];

    let result = AttributeHelper::resolve_flags(&attribute, 567, &resc, &resources);

    assert_eq!(default_flags, result.unwrap());
}

#[test]
fn it_resolves_flags_if_in_resources() {
    let attribute = AttributeBuf::new(0, 0, 0, 0x1 << 24, 11);
    let fixture = Fixture::new();
    let resources = fixture.resources();

    let resc = vec![2 << 24 | 3];
    let flags = 1 << 8;

    let result = AttributeHelper::resolve_flags(&attribute, flags, &resc, &resources);

    assert_eq!("left", result.unwrap());
}

#[test]
fn it_resolves_flags_if_in_resources_multiple() {
    let fixture = Fixture::new();
    let resources = fixture.resources();
    let attribute = AttributeBuf::new(0, 0, 0, 1, 1);

    let resc = vec![2 << 24 | 3];
    let flags = 1 << 8 | 1 << 9;

    let result = AttributeHelper::resolve_flags(&attribute, flags, &resc, &resources);

    assert_eq!("left|right", result.unwrap());
}

#[test]
fn flags_with_more_bits_are_named_first() {
    let fixture = Fixture::new();
    let resources = fixture.resources();
    let attribute = AttributeBuf::new(0, 0, 0, 1, 1);
    let resc = vec![2 << 24 | 3];

    let result =
        AttributeHelper::resolve_flags(&attribute, 1 << 8 | 1 << 9 | 1 << 10, &resc, &resources);

    assert_eq!("left|right|center", result.unwrap());
}

#[test]
fn flags_that_match_no_value_give_nothing() {
    let fixture = Fixture::new();
    let resources = fixture.resources();
    let attribute = AttributeBuf::new(0, 0, 0, 1, 1);
    let resc = vec![2 << 24 | 3];

    assert_eq!(None, AttributeHelper::resolve_flags(&attribute, 1, &resc, &resources));
}

#[test]
fn resources_know_their_main_package() {
    let fixture = Fixture::new();
    let resources = fixture.resources();

    assert!(resources.is_main_package(1));
    assert!(!resources.is_main_package(2));
    assert_eq!(
        Some("com.main".to_string()),
        resources.main_package().unwrap().name()
    );
    assert!(resources.package(3).is_none());
}

#[test]
fn a_library_reads_its_entries_and_strings() {
    let fixture = Fixture::new();
    let library = fixture.library(&fixture.other_package);

    assert_eq!(Some("Package name".to_string()), library.name());
    assert_eq!(456, library.entry((2 << 24) | 4).unwrap().get_key());
    assert_eq!(Err(Error::UnknownEntry), library.entry(5).map(|e| e.get_key()));
    assert_eq!("center", library.entries_string(123).unwrap());
    assert_eq!("string", library.spec_string(1).unwrap());
}

#[test]
fn a_library_without_string_tables_reports_them_missing() {
    let package = package_bytes(1, "com.main");
    let library = Library::new(PackageWrapper::new(&package));

    assert_eq!(Err(Error::NoEntriesStringTable), library.entries_string(0));
    assert_eq!(Err(Error::NoSpecStringTable), library.spec_string(0));
}

#[test]
fn the_model_visitor_collects_packages_and_entries() {
    let mut arsc = Arsc::default();
    let mut global = StringTableBuf::default();
    global.add_string("res/icon.png".to_string());
    arsc.push_owned(&global).unwrap();

    let mut type_names = StringTableBuf::default();
    type_names.add_string("attr".to_string());
    type_names.add_string("string".to_string());
    let mut key_names = StringTableBuf::default();
    key_names.add_string("app_name".to_string());
    key_names.add_string("title".to_string());

    let mut table_type = TableTypeBuf::new(2, ConfigurationBuf::default());
    table_type.add_entry(Entry::Simple(SimpleEntry::new(0, 0, 3, 0)));
    table_type.add_entry(Entry::Empty(1, 1));
    table_type.add_entry(Entry::Simple(SimpleEntry::new(2, 1, 3, 0)));

    let mut package = PackageBuf::new(0x7f, "com.test.test".to_string()).unwrap();
    package.add_chunk(&type_names).unwrap();
    package.add_chunk(&key_names).unwrap();
    package.add_chunk(&TableTypeSpecBuf::new(2)).unwrap();
    package.add_chunk(&table_type).unwrap();
    arsc.push_owned(&package).unwrap();

    let content = arsc.to_vec().unwrap();
    let mut visitor = ModelVisitor::default();
    Executor::arsc(&content, &mut visitor).unwrap();
    let resources = visitor.into_resources();

    assert!(resources.is_main_package(0x7f));
    let library = resources.package(0x7f).unwrap();
    assert_eq!(Some("com.test.test".to_string()), library.name());
    assert_eq!(0, library.entry(0x7f02_0000).unwrap().get_key());
    assert!(library.entry(0x7f02_0001).is_err());
    assert_eq!(1, library.entry(0x7f02_0002).unwrap().get_key());
    assert_eq!(
        "@string/title",
        AttributeHelper::resolve_reference(&resources, 0x7f02_0002, "@").unwrap()
    );
}

#[test]
fn the_xml_visitor_builds_the_element_tree() {
    let arsc = vec![2, 0, 12, 0, 0, 0, 0, 0, 0, 0, 0, 0];
    let mut xml = Xml::default();
    let mut st = StringTableBuf::default();
    st.add_string("Some string".to_string());
    st.add_string("Another srtring".to_string());
    st.add_string("start_tag".to_string());
    st.add_string("key".to_string());
    st.add_string("value".to_string());

    let attribute = AttributeBuf::new(0xFFFF_FFFF, 3, 0xFFFF_FFFF, 3 << 24, 4);

    let mut tag_start = XmlTagStartBuf::new(2, 0, 0xFFFF_FFFF, 2, 0, 0);
    tag_start.add_attribute(attribute);

    xml.push_owned(&st).unwrap();
    xml.push_owned(&tag_start).unwrap();
    xml.push_owned(&XmlTagEndBuf::new(90)).unwrap();

    let xml_content = xml.into_vec().unwrap();
    let mut model = ModelVisitor::default();
    Executor::arsc(&arsc, &mut model).unwrap();
    let resources = model.into_resources();
    let mut visitor = XmlVisitor::new(&resources);
    Executor::xml(&xml_content, &mut visitor).unwrap();

    let root = visitor.get_root().as_ref().unwrap();
    assert_eq!("start_tag", root.tag().name());
    assert_eq!(0, root.children().len());
    let attributes = root.attributes();
    assert_eq!(1, attributes.len());
    assert_eq!("key", attributes[0].0);
    match &attributes[0].1 {
        AttributeValue::Text(text) => assert_eq!("value", text),
        other => panic!("unexpected attribute value {:?}", other),
    }
}

#[test]
fn the_xml_visitor_nests_elements_and_keeps_namespaces() {
    let arsc = vec![2, 0, 12, 0, 0, 0, 0, 0, 0, 0, 0, 0];
    let mut st = StringTableBuf::default();
    st.add_string("android".to_string());
    st.add_string("http://schemas.android.com/apk/res/android".to_string());
    st.add_string("manifest".to_string());
    st.add_string("application".to_string());
    st.add_string("label".to_string());
    st.add_string("Demo".to_string());
    let mut resources_chunk = ResourcesBuf::default();
    resources_chunk.push_resource(0x0101_0001);

    let mut outer = XmlTagStartBuf::new(1, 0, 0xFFFF_FFFF, 2, 0, 0);
    outer.add_attribute(AttributeBuf::new(1, 4, 5, 3 << 24, 5));
    let inner = XmlTagStartBuf::new(2, 0, 0xFFFF_FFFF, 3, 0, 0);

    let mut xml = Xml::default();
    xml.push_owned(&st).unwrap();
    xml.push_owned(&resources_chunk).unwrap();
    xml.push_owned(&XmlNamespaceStartBuf::new(1, 0, 1)).unwrap();
    xml.push_owned(&outer).unwrap();
    xml.push_owned(&inner).unwrap();
    xml.push_owned(&XmlTagEndBuf::new(3)).unwrap();
    xml.push_owned(&XmlTagEndBuf::new(2)).unwrap();
    xml.push_owned(&XmlNamespaceEndBuf::new(1, 0, 1)).unwrap();
    let xml_content = xml.into_vec().unwrap();

    let mut model = ModelVisitor::default();
    Executor::arsc(&arsc, &mut model).unwrap();
    let resources = model.into_resources();
    let mut visitor = XmlVisitor::new(&resources);
    Executor::xml(&xml_content, &mut visitor).unwrap();

    assert_eq!(
        &vec![(
            "http://schemas.android.com/apk/res/android".to_string(),
            "android".to_string()
        )],
        visitor.get_namespaces()
    );
    assert_eq!(&vec![0x0101_0001], visitor.get_resources());
    let root = visitor.get_root().as_ref().unwrap();
    assert_eq!("manifest", root.tag().name());
    assert_eq!(1, root.children().len());
    assert_eq!("application", root.children()[0].tag().name());
    assert_eq!(1, root.children()[0].level());
    let attributes = root.attributes();
    assert_eq!("android:label", attributes[0].0);
    match &attributes[0].1 {
        AttributeValue::Text(text) => assert_eq!("Demo", text),
        other => panic!("unexpected attribute value {:?}", other),
    }
}

#[test]
fn resources_can_be_changed_through_the_model_visitor() {
    let fixture = Fixture::new();
    let mut visitor = ModelVisitor::new();
    visitor
        .mut_resources()
        .push_package(3, fixture.library(&fixture.main_package));

    assert!(visitor.resources().package(3).is_some());
    assert!(visitor.resources().is_main_package(3));
}

#[test]
fn a_package_taken_out_and_put_back_is_found_again() {
    let fixture = Fixture::new();
    let mut resources = fixture.resources();

    let mut library = resources.take_package(2).unwrap();
    assert!(resources.package(2).is_none());
    assert!(resources.take_package(2).is_none());
    library.set_string_table(
        StringTableCache::new(StringTableWrapper::new(&fixture.type_names)),
        Origin::Entries,
    );
    resources.put_package(2, library);

    assert!(resources.is_main_package(1));
    assert_eq!("string", resources.package(2).unwrap().entries_string(1).unwrap());
}
