use abxml::apk::is_binary_xml;
use abxml::chunks::chunks_in_bounds;
use abxml::decoder::{BufferedDecoder, Decoder};
use abxml::errors::Error;
use abxml::model::builder::{Arsc, Xml};
use abxml::model::owned::{
    AttributeBuf, OwnedBuf, PackageBuf, StringTableBuf, XmlTagEndBuf, XmlTagStartBuf,
};
use abxml::visitor::{is_walkable, ChunkVisitor, Executor, Origin, PrintVisitor};

fn empty_arsc() -> Vec<u8> {
    vec![2, 0, 12, 0, 0, 0, 0, 0, 0, 0, 0, 0]
}

fn arsc_with_package(name: &str) -> Vec<u8> {
    let mut arsc = Arsc::default();
    let mut package = PackageBuf::new(0x7f, name.to_string()).unwrap();
    package.add_chunk(&StringTableBuf::default()).unwrap();
    arsc.push_owned(&package).unwrap();
    arsc.to_vec().unwrap()
}

fn small_document() -> Vec<u8> {
    let mut xml = Xml::default();
    let mut st = StringTableBuf::default();
    st.add_string("manifest".to_string());
    st.add_string("package".to_string());
    st.add_string("com.test".to_string());
    let mut tag_start = XmlTagStartBuf::new(1, 0, 0xFFFF_FFFF, 0, 0, 0);
    tag_start.add_attribute(AttributeBuf::new(0xFFFF_FFFF, 1, 2, 3 << 24, 2));
    xml.push_owned(&st).unwrap();
    xml.push_owned(&tag_start).unwrap();
    xml.push_owned(&XmlTagEndBuf::new(0)).unwrap();
    xml.into_vec().unwrap()
}

#[test]
fn well_formed_documents_are_walkable() {
    assert!(is_walkable(&empty_arsc(), 2, 12));
    assert!(is_walkable(&arsc_with_package("com.test.test"), 2, 12));
    assert!(is_walkable(&small_document(), 3, 8));
}

#[test]
fn a_chunk_past_the_end_is_not_walkable() {
    let mut content = empty_arsc();
    content.extend_from_slice(&[1, 0, 8, 0, 100, 0, 0, 0]);

    assert!(!is_walkable(&content, 2, 12));
    assert!(!chunks_in_bounds(&content, 12));
    assert!(chunks_in_bounds(&content, 20));
}

#[test]
fn a_package_header_takes_what_it_announces_whatever_the_name() {
    for name in ["a", "com.example", "com.test.test", "a.much.longer.package.name"] {
        assert!(is_walkable(&arsc_with_package(name), 2, 12));
    }
}

#[test]
fn documents_with_another_token_are_walkable_as_they_are_refused_at_once() {
    assert!(is_walkable(&small_document(), 2, 12));
    assert!(is_walkable(&[], 2, 12));
}

#[test]
fn the_decoder_reads_both_resource_files() {
    let android = empty_arsc();
    let apk = arsc_with_package("com.test.test");
    let decoder = Decoder::new(&android, &apk).unwrap();

    assert!(decoder.get_resources().package(0x7f).is_some());
    assert!(decoder.get_resources().is_main_package(0x7f));
}

#[test]
fn the_decoder_reports_the_first_file_that_fails() {
    let android = vec![3, 0, 8, 0, 0, 0, 0, 0];
    let apk = vec![1];

    assert_eq!(
        Err(Error::NotArscFile { token: 3 }),
        Decoder::new(&android, &apk).map(|_| ())
    );
    let android = empty_arsc();
    assert_eq!(Err(Error::UnexpectedEof), Decoder::new(&android, &apk).map(|_| ()));
}

#[test]
fn the_decoder_decodes_documents() {
    let android = empty_arsc();
    let buffered = BufferedDecoder::from(arsc_with_package("com.test.test"));
    let decoder = buffered.get_decoder(&android).unwrap();
    let document = small_document();

    let visitor = decoder.xml_visitor(&document).unwrap();
    let root = visitor.document_root().unwrap();
    assert_eq!("manifest", root.tag().name());
    assert_eq!("package", root.attributes()[0].0);

    assert_eq!(
        Err(Error::NotXmlDocument { token: 2 }),
        decoder.xml_visitor(&android).map(|_| ())
    );
}

#[test]
fn a_document_without_elements_has_no_root() {
    let android = empty_arsc();
    let decoder = Decoder::new(&android, &android).unwrap();
    let mut xml = Xml::default();
    xml.push_owned(&StringTableBuf::default()).unwrap();
    let document = xml.into_vec().unwrap();

    let visitor = decoder.xml_visitor(&document).unwrap();
    assert_eq!(Err(Error::NoRootElement), visitor.document_root().map(|_| ()));
}

#[test]
fn a_document_without_string_table_builds_no_element() {
    let android = empty_arsc();
    let decoder = Decoder::new(&android, &android).unwrap();
    let mut xml = Xml::default();
    xml.push_owned(&XmlTagStartBuf::new(1, 0, 0xFFFF_FFFF, 0, 0, 0)).unwrap();
    xml.push_owned(&XmlTagEndBuf::new(0)).unwrap();
    let document = xml.into_vec().unwrap();

    let visitor = decoder.xml_visitor(&document).unwrap();
    assert!(visitor.get_root().is_none());
    assert_eq!(Err(Error::NoRootElement), visitor.document_root().map(|_| ()));
}

#[test]
fn binary_xml_files_of_an_apk_are_recognised() {
    assert!(is_binary_xml("AndroidManifest.xml"));
    assert!(is_binary_xml("res/layout/main.xml"));
    assert!(!is_binary_xml("res/drawable/icon.png"));
    assert!(!is_binary_xml("assets/data.xml"));
    assert!(!is_binary_xml("res/"));
    assert!(!is_binary_xml("AndroidManifest.xml.bak"));
}

#[test]
fn the_print_visitor_describes_the_chunks() {
    let apk = arsc_with_package("com.test.test");
    let mut visitor = PrintVisitor::default();
    Executor::arsc(&apk, &mut visitor).unwrap();

    let expected: Vec<String> = vec![
        "Package!".to_string(),
        "\tId: 127".to_string(),
        "\tName: com.test.test".to_string(),
        "String Table!".to_string(),
        "\tLength (Global): 0 ".to_string(),
    ];
    assert_eq!(&expected, visitor.lines());
}

#[test]
fn the_print_visitor_names_each_origin() {
    let mut st = StringTableBuf::default();
    st.add_string("a".to_string());
    let bytes = st.to_vec().unwrap();
    let mut visitor = PrintVisitor::new();
    visitor.visit_string_table(abxml::chunks::StringTableWrapper::new(&bytes), Origin::Spec);
    visitor.visit_string_table(abxml::chunks::StringTableWrapper::new(&bytes), Origin::Entries);

    assert_eq!("\tLength (Spec): 1 ", visitor.lines()[1]);
    assert_eq!("\tLength (Entries): 1 ", visitor.lines()[3]);
}
