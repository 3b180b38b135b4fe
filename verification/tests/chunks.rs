use abxml::chunks::{
    Chunk, ChunkHeader, ChunkLoaderStream, ConfigurationWrapper, PackageWrapper, Region,
    ResourceWrapper, StringTableWrapper, TableTypeWrapper, TypeSpecWrapper,
};
use abxml::errors::Error;
use abxml::model::owned::{
    ComplexEntry, Entry, OwnedBuf, PackageBuf, ResourcesBuf, SimpleEntry, StringTableBuf,
    TableTypeBuf, TableTypeSpecBuf,
};
use abxml::model::{Configuration, StringTable, TableType, TypeSpec};

#[test]
fn it_returns_data_offset() {
    let chunk = ChunkHeader::new(4000, 8, 16, 0);

    assert_eq!(4008, chunk.get_data_offset());
}

#[test]
fn it_returns_chunk_end() {
    let chunk = ChunkHeader::new(4000, 8, 16, 0);

    assert_eq!(4016, chunk.get_chunk_end());
}

#[test]
fn it_returns_absolute_offsets_from_relative_ones() {
    let chunk = ChunkHeader::new(4000, 8, 500, 0);
    let res = chunk.absolute(490);

    assert_eq!(4490, res);
}

#[test]
fn it_can_detect_loops() {
    let data = vec![0, 0, 0, 0, 0, 0, 0, 0, 0, 0, 0, 0];
    let mut stream = ChunkLoaderStream::new(&data, 0);

    let _ = stream.next().unwrap();
    assert!(stream.next().is_none());
}

#[test]
fn it_stops_the_iteration_if_out_of_bounds() {
    let data = vec![0, 0, 0, 0, 0, 0, 0, 0, 0, 0, 0, 0];
    let mut stream = ChunkLoaderStream::new(&data, 30);

    assert!(stream.next().is_none());
}

#[test]
fn it_can_iterate_over_chunks() {
    let mut data = vec![0, 0, 12, 0, 0, 0, 0, 0, 0, 0, 0, 0];
    let st = StringTableBuf::default();
    data.extend(st.to_vec().unwrap());
    let res = ResourcesBuf::default();
    data.extend(res.to_vec().unwrap());

    let mut stream = ChunkLoaderStream::new(&data, 12);

    let _ = stream.next().unwrap();
    let _ = stream.next().unwrap();

    assert!(stream.next().is_none());
}

#[test]
fn stream_reports_a_truncated_chunk_header_and_then_stops() {
    let data = vec![1, 0, 8, 0];
    let mut stream = ChunkLoaderStream::new(&data, 0);

    match stream.next() {
        Some(Err(e)) => assert_eq!(Error::UnexpectedEof, e),
        _ => panic!("a truncated header should be an error"),
    }
    assert!(stream.next().is_none());
}

#[test]
fn stream_enters_packages_and_passes_other_chunks() {
    let mut package = PackageBuf::new(3, "com.test.test".to_string()).unwrap();
    package.add_chunk(&ResourcesBuf::default()).unwrap();
    let out = package.to_vec().unwrap();
    let mut stream = ChunkLoaderStream::new(&out, 0);

    match stream.next() {
        Some(Ok(Chunk::Package(_))) => (),
        _ => panic!("the first chunk should be the package"),
    }
    match stream.next() {
        Some(Ok(Chunk::Resource(_))) => (),
        _ => panic!("the second chunk should be the resources inside the package"),
    }
    assert!(stream.next().is_none());
}

#[test]
fn it_can_not_decode_a_buffer_with_an_invalid_size() {
    let mut resources = ResourcesBuf::default();
    resources.push_resource(111);
    resources.push_resource(222);
    let mut out = resources.to_vec().unwrap();

    out[4] = 255;

    let wrapper = ResourceWrapper::new(&out);

    let result = wrapper.get_resources();
    assert!(result.is_err());
    assert_eq!(
        "there is not enough data on the buffer (16) to read the reported resources count \
         (255)",
        result.err().unwrap().message()
    );
}

#[test]
fn resources_are_copied_into_a_buffer() {
    let mut resources = ResourcesBuf::default();
    resources.push_resource(7);
    resources.push_resource(9);
    let out = resources.to_vec().unwrap();

    let owned = ResourceWrapper::new(&out).to_buffer().unwrap();

    assert_eq!(out, owned.to_vec().unwrap());
}

fn full_configuration() -> Vec<u8> {
    let mut data = vec![0u8; 56];
    data[0] = 56;
    data[4] = (310 % 256) as u8;
    data[5] = (310 / 256) as u8;
    data[6] = (800 % 256) as u8;
    data[7] = (800 / 256) as u8;
    data[8] = b'b';
    data[9] = b's';
    data[10] = b'B';
    data[11] = b'A';
    data
}

#[test]
fn it_can_decode_a_full_configuration_slice() {
    let data = full_configuration();
    let wrapper = ConfigurationWrapper::new(&data);

    assert_eq!(56, wrapper.get_size().unwrap());
    assert_eq!(310, wrapper.get_mcc().unwrap());
    assert_eq!(800, wrapper.get_mnc().unwrap());
    assert_eq!("bs", wrapper.get_language().unwrap());
    assert_eq!("BA", wrapper.get_region().unwrap());
    assert_eq!(0, wrapper.get_orientation().unwrap());
    assert_eq!(0, wrapper.get_touchscreen().unwrap());
    assert_eq!(0, wrapper.get_density().unwrap());
    assert_eq!(0, wrapper.get_keyboard().unwrap());
    assert_eq!(0, wrapper.get_keyboard().unwrap());
    assert_eq!(0, wrapper.get_width().unwrap());
    assert_eq!(0, wrapper.get_height().unwrap());
}

#[test]
fn configuration_identity() {
    let data = full_configuration();
    let owned = ConfigurationWrapper::new(&data).to_buffer().unwrap();

    assert_eq!(data, owned.to_vec().unwrap());
    assert_eq!("bs", owned.get_language().unwrap());
    assert_eq!("BA", owned.get_region().unwrap());
}

#[test]
fn configuration_fields_past_the_announced_size_are_missing() {
    let mut data = full_configuration();
    data[0] = 28;
    let wrapper = ConfigurationWrapper::new(&data);

    assert_eq!(0, wrapper.get_screen_layout().unwrap());
    assert_eq!(Err(Error::ConfigurationFieldMissing), wrapper.get_ui_mode());
    assert_eq!(Err(Error::ConfigurationFieldMissing), wrapper.get_smallest_screen());
    assert!(wrapper.get_locale_script().is_err());
}

#[test]
fn a_configuration_shorter_than_its_fixed_fields_is_refused() {
    let data = vec![0u8; 20];

    assert!(ConfigurationWrapper::new(&data).to_buffer().is_err());
}

#[test]
fn it_can_encode_bytes_region_to_string() {
    let region = Region::from((99, 97));

    assert_eq!("ca", region.to_string());
}

#[test]
fn it_can_encode_bytes_region_to_string_any() {
    let region = Region::from((0, 0));

    assert_eq!("any", region.to_string());
}

#[test]
fn it_can_encode_bytes_region_from_string() {
    let region = Region::from_bytes("ps".as_bytes());
    let (low, high) = region.to_pair();

    assert_eq!(112, low);
    assert_eq!(115, high);
}

#[test]
fn it_can_encode_bytes_region_from_string_any() {
    let region = Region::from_bytes("any".as_bytes());
    let (low, high) = region.to_pair();

    assert_eq!(0, low);
    assert_eq!(0, high);
}

#[test]
fn invalid_region_bytes_give_no_text() {
    let region = Region::from((0xFF, 0xFE));

    assert_eq!("", region.to_string());
}

#[test]
fn package_it_can_generate_a_chunk_with_the_given_data() {
    let some_other_chunk = PackageBuf::new(4, "com.test.test".to_string()).unwrap();
    let mut package = PackageBuf::new(3, "com.test.test".to_string()).unwrap();
    package.add_chunk(&some_other_chunk).unwrap();
    let out = package.to_vec().unwrap();

    let header = ChunkHeader::new(0, 288, out.len() as u32, 0x0200);
    assert_eq!(288, header.get_header_size());
    let wrapper = PackageWrapper::new(&out);

    assert_eq!(3, wrapper.get_id().unwrap());
    assert_eq!("com.test.test", wrapper.get_name().unwrap());
}

#[test]
fn body_can_be_iterated_with_chunk_stream_loader() {
    let some_other_chunk = StringTableBuf::default();
    let mut inner_chunk_2 = StringTableBuf::default();
    inner_chunk_2.add_string("some string".to_string());
    inner_chunk_2.add_string("another string".to_string());

    let mut package = PackageBuf::new(3, "com.test.test".to_string()).unwrap();
    package.add_chunk(&some_other_chunk).unwrap();
    package.add_chunk(&inner_chunk_2).unwrap();

    let out = package.to_vec().unwrap();
    let mut stream = ChunkLoaderStream::new(&out, 0);

    let first_chunk = stream.next().unwrap().unwrap();
    let second_chunk = stream.next().unwrap().unwrap();
    let third_chunk = stream.next().unwrap().unwrap();

    match first_chunk {
        Chunk::Package(_) => (),
        _ => panic!("First chunk should be a Package"),
    }

    match second_chunk {
        Chunk::StringTable(st) => {
            assert_eq!(st.strings_len(), 0);
        }
        _ => panic!("Second chunk should be a string table"),
    }

    match third_chunk {
        Chunk::StringTable(st) => {
            assert_eq!(st.strings_len(), 2);
            assert_eq!("another string", st.get_string(1).unwrap());
        }
        _ => panic!("Second chunk should be string table"),
    }
}

#[test]
fn it_can_not_create_a_package_with_a_too_large_package_name() {
    let target = std::iter::repeat('\u{1F624}').take((256 / 4) + 1).collect::<String>();
    let package = PackageBuf::new(1, target);

    assert!(package.is_err());
    assert_eq!(Error::PackageNameTooLong, package.err().unwrap());
}

#[test]
fn it_can_create_a_package_with_the_maximum_length() {
    let target = std::iter::repeat('\u{1F624}').take(256 / 4).collect::<String>();
    let package = PackageBuf::new(1, target);

    assert!(package.is_ok());
}

#[test]
fn a_package_chunk_too_short_for_its_name_is_refused() {
    let data = vec![0u8; 100];

    assert_eq!(Err(Error::PackageNameOutOfBounds), PackageWrapper::new(&data).get_name());
}

#[test]
fn table_type_spec_it_can_generate_a_chunk_with_the_given_data() {
    let type_spec = TableTypeSpecBuf::new(14);

    assert_eq!(14, type_spec.id().unwrap());
}

#[test]
fn a_type_spec_reads_back_its_id_and_flags() {
    let mut type_spec = TableTypeSpecBuf::new(4);
    type_spec.push_flag(0x4000_0004);
    type_spec.push_flag(0);
    type_spec.push_flag(6);
    let out = type_spec.to_vec().unwrap();
    let wrapper = TypeSpecWrapper::new(&out);

    assert_eq!(4, wrapper.id().unwrap());
    assert_eq!(3, wrapper.amount().unwrap());
    assert_eq!(0x4000_0004, wrapper.flag(0).unwrap());
    assert_eq!(6, wrapper.flag(2).unwrap());
    assert_eq!(
        "Invalid flag on index 3 out of 3",
        wrapper.flag(3).err().unwrap().message()
    );
}

#[test]
fn string_table_wrapper_reads_the_strings_written() {
    let mut table = StringTableBuf::default();
    table.add_string("first".to_string());
    table.add_string("second".to_string());
    let out = table.to_vec().unwrap();
    let wrapper = StringTableWrapper::new(&out);

    assert!(wrapper.is_utf8());
    assert_eq!(2, wrapper.strings_len());
    assert_eq!("first", wrapper.get_string(0).unwrap());
    assert_eq!("second", wrapper.get_string(1).unwrap());
    assert_eq!(Err(Error::StringIndexOutOfBounds), wrapper.get_string(2));
    assert_eq!(Err(Error::StringIndexOutOfBounds), wrapper.get_string(3));
}

#[test]
fn utf16_string_table_wrapper_reads_the_strings_written() {
    let mut table = StringTableBuf::default();
    table.set_encoding(abxml::model::owned::Encoding::Utf16);
    table.add_string("some string".to_string());
    table.add_string("another".to_string());
    let out = table.to_vec().unwrap();
    let wrapper = StringTableWrapper::new(&out);

    assert!(!wrapper.is_utf8());
    assert_eq!("some string", wrapper.get_string(0).unwrap());
    assert_eq!("another", wrapper.get_string(1).unwrap());

    let owned = wrapper.to_buffer().unwrap();
    assert_eq!(out, owned.to_vec().unwrap());
}

/// The position of the first `a` followed by `b`.
fn position_of_ab(out: &[u8]) -> usize {
    out.windows(2).position(|w| w == b"ab").unwrap()
}

#[test]
fn a_utf8_string_cut_in_a_character_is_refused() {
    let mut table = StringTableBuf::default();
    table.add_string("ab".to_string());
    let mut out = table.to_vec().unwrap();
    let at = position_of_ab(&out);
    out[at + 1] = 0xC3;
    let wrapper = StringTableWrapper::new(&out);

    assert_eq!(Err(Error::InvalidUtf8), wrapper.get_string(0));
}

#[test]
fn a_utf8_string_with_an_invalid_byte_keeps_what_came_before() {
    let mut table = StringTableBuf::default();
    table.add_string("ab".to_string());
    let mut out = table.to_vec().unwrap();
    let at = position_of_ab(&out);
    out[at + 1] = 0xFF;
    let wrapper = StringTableWrapper::new(&out);

    assert_eq!(Ok("a".to_string()), wrapper.get_string(0));
}

#[test]
fn a_table_type_reads_back_its_entries() {
    let config_bytes = full_configuration();
    let config = ConfigurationWrapper::new(&config_bytes).to_buffer().unwrap();
    let mut table_type = TableTypeBuf::new(5, config);
    table_type.add_entry(Entry::Simple(SimpleEntry::new(0, 2, 3, 4)));
    table_type.add_entry(Entry::Empty(1, 1));
    table_type.add_entry(Entry::Complex(ComplexEntry::new(
        2,
        11,
        12,
        vec![SimpleEntry::new(5, 11, 7, 8)],
    )));
    let out = table_type.to_vec().unwrap();
    let header_size = u16::from_le_bytes([out[2], out[3]]) as u64;
    let wrapper = TableTypeWrapper::new(&out, header_size);

    assert_eq!(5, wrapper.get_id().unwrap());
    assert_eq!(3, wrapper.get_amount().unwrap());
    let entries = wrapper.entries().unwrap();
    assert_eq!(3, entries.len());
    assert_eq!(4, entries[0].simple().unwrap().get_value());
    assert!(entries[1].is_empty());
    let complex = entries[2].complex().unwrap();
    assert_eq!(1, complex.get_entries().len());
    assert_eq!(12, complex.get_id() + 10);
    assert_eq!(Some(5), complex.get_referent_id(8));
    assert_eq!(None, complex.get_referent_id(9));

    let owned = wrapper.to_buffer().unwrap();
    assert_eq!(out, owned.to_vec().unwrap());
}

#[test]
fn a_table_type_with_a_short_configuration_is_refused() {
    let data = vec![0u8; 60];
    let wrapper = TableTypeWrapper::new(&data, 40);

    assert!(wrapper.get_configuration().is_err());
}
