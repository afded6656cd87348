use overboost::numvec::{decode_words, encode_words, read_word, DataType, Endianness};
use overboost::platform::{Mazdaspeed6, Platform};
use overboost::table::{Interpolation, Table};
use overboost::Rom;

fn table_of(width: usize, height: usize, offset: u64, data_type: DataType) -> Table {
    Table {
        width,
        height,
        offset,
        name: "".to_string(),
        description: "".to_string(),
        id: "".to_string(),
        x_axis_id: None,
        y_axis_id: None,
        interpolation: Interpolation::Linear,
        data_type,
        endianness: Endianness::Big,
    }
}

#[test]
fn table_read() {
    let table = table_of(8, 8, 0, DataType::I32);

    // Write test data
    let mut buff = std::io::Cursor::new(Vec::<u8>::new());
    {
        let mut wr = byteordered::ByteOrdered::be(&mut buff);
        for i in 0..64 {
            wr.write_i32(i).unwrap();
        }
    }
    let rom = Rom::new(buff.into_inner());
    let bytes = rom.table_bytes(&table).unwrap();
    let words = decode_words(table.data_type, table.endianness, &bytes, table.size()).unwrap();
    for r in 0..8_i32 {
        for c in 0..8_i32 {
            assert_eq!(words[(r * 8 + c) as usize] as u32 as i32, r * 8 + c);
        }
    }
}

#[test]
fn table_write() {
    let table = table_of(2, 2, 0, DataType::I16);
    let values: Vec<i16> = vec![-1, 2, -300, 400];
    let words: Vec<u64> = values.iter().map(|v| *v as u16 as u64).collect();
    let bytes = encode_words(table.data_type, table.endianness, &words);
    assert_eq!(bytes, vec![0xFF, 0xFF, 0x00, 0x02, 0xFE, 0xD4, 0x01, 0x90]);
    let back = decode_words(table.data_type, table.endianness, &bytes, table.size()).unwrap();
    let read: Vec<i16> = back.iter().map(|w| *w as u16 as i16).collect();
    assert_eq!(read, values);
}

#[test]
fn byte_size_of_each_type() {
    assert_eq!(DataType::I8.byte_size(), 1);
    assert_eq!(DataType::U8.byte_size(), 1);
    assert_eq!(DataType::I16.byte_size(), 2);
    assert_eq!(DataType::U16.byte_size(), 2);
    assert_eq!(DataType::I32.byte_size(), 4);
    assert_eq!(DataType::U32.byte_size(), 4);
    assert_eq!(DataType::F32.byte_size(), 4);
    assert_eq!(DataType::I64.byte_size(), 8);
    assert_eq!(DataType::U64.byte_size(), 8);
    assert_eq!(DataType::F64.byte_size(), 8);
}

#[test]
fn table_geometry() {
    let t = table_of(8, 4, 0, DataType::U16);
    assert_eq!(t.size(), 32);
    assert_eq!(t.byte_size(), 64);
    assert_eq!(t.width(), 8);
    assert_eq!(t.height(), 4);
    assert!(!t.is_scalar());
    assert!(!t.is_one_dimensional());
    let s = table_of(1, 1, 0, DataType::F64);
    assert!(s.is_scalar());
    assert!(s.is_one_dimensional());
    assert_eq!(s.byte_size(), 8);
    let row = table_of(5, 1, 0, DataType::U8);
    assert!(!row.is_scalar());
    assert!(row.is_one_dimensional());
}

#[test]
fn table_bytes_inside_and_outside_rom() {
    let rom = Rom::new((0..16).collect());
    assert_eq!(rom.len(), 16);
    assert_eq!(rom.table_bytes(&table_of(2, 1, 4, DataType::U16)).unwrap(), vec![4, 5, 6, 7]);
    assert_eq!(rom.table_bytes(&table_of(4, 2, 0, DataType::U16)).unwrap(), (0..16).collect::<Vec<u8>>());
    assert!(rom.table_bytes(&table_of(4, 2, 1, DataType::U16)).is_none());
    assert!(rom.table_bytes(&table_of(1, 1, 17, DataType::U8)).is_none());
    assert_eq!(rom.table_bytes(&table_of(0, 3, 16, DataType::U8)).unwrap(), Vec::<u8>::new());
    assert!(rom.table_bytes(&table_of(usize::MAX, 2, 0, DataType::U64)).is_none());
}

#[test]
fn decode_little_endian_and_short_input() {
    let bytes = [0x01, 0x02, 0x03, 0x04, 0x05, 0x06, 0x07, 0x08];
    assert_eq!(read_word(&bytes, 0, 4, Endianness::Little), 0x0403_0201);
    assert_eq!(read_word(&bytes, 4, 4, Endianness::Big), 0x0506_0708);
    assert_eq!(read_word(&bytes, 0, 8, Endianness::Big), 0x0102_0304_0506_0708);
    assert_eq!(
        decode_words(DataType::U16, Endianness::Little, &bytes, 4).unwrap(),
        vec![0x0201, 0x0403, 0x0605, 0x0807]
    );
    assert!(decode_words(DataType::U16, Endianness::Little, &bytes, 5).is_none());
    assert_eq!(decode_words(DataType::U64, Endianness::Big, &bytes, 0).unwrap(), Vec::<u64>::new());
}

#[test]
fn encode_truncates_to_element_width() {
    assert_eq!(encode_words(DataType::U8, Endianness::Big, &[0x1FF, 0x02]), vec![0xFF, 0x02]);
    assert_eq!(
        encode_words(DataType::U32, Endianness::Little, &[0x0102_0304]),
        vec![0x04, 0x03, 0x02, 0x01]
    );
    assert_eq!(encode_words(DataType::F64, Endianness::Big, &[1.5f64.to_bits()]), 1.5f64.to_be_bytes().to_vec());
}

#[test]
fn mazdaspeed6_platform() {
    assert_eq!(<Mazdaspeed6 as Platform>::name(), "Mazdaspeed6 / Mazda 6 MPS / Mazdaspeed Atenza");
    assert_eq!(<Mazdaspeed6 as Platform>::id(), "mazdaspeed6");
    assert_eq!(Mazdaspeed6.rom_length(), 1024 * 1024 * 1024);
    assert!(Mazdaspeed6.table("boost").is_none());
}
