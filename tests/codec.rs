use sqlite_reader::cell::LeafTableCell;
use sqlite_reader::error::Error;
use sqlite_reader::record::{ColumnType, RecordHeader};
use sqlite_reader::varint::read_varint;

/// SQLite's varint encoder, written out for the tests.
fn encode_varint(v: u64) -> Vec<u8> {
    if v >= 1 << 56 {
        let mut out = Vec::new();
        let high = v >> 8;
        for i in (0..8).rev() {
            out.push((((high >> (7 * i)) & 0x7f) as u8) | 0x80);
        }
        out.push((v & 0xff) as u8);
        return out;
    }
    let mut groups = vec![(v & 0x7f) as u8];
    let mut rest = v >> 7;
    while rest > 0 {
        groups.push(((rest & 0x7f) as u8) | 0x80);
        rest >>= 7;
    }
    groups.reverse();
    groups
}

#[test]
fn varint_single_and_multi_byte() {
    assert_eq!(read_varint(&[0x00]).unwrap(), (0, 1));
    assert_eq!(read_varint(&[0x7f, 0xff]).unwrap(), (127, 1));
    assert_eq!(read_varint(&[0x81, 0x00]).unwrap(), (128, 2));
    assert_eq!(read_varint(&[0x82, 0x2c]).unwrap(), (300, 2));
    let nine = [0xff; 9];
    assert_eq!(read_varint(&nine).unwrap(), (u64::MAX, 9));
}

#[test]
fn varint_truncated() {
    assert_eq!(read_varint(&[]), Err(Error::TruncatedVarint));
    assert_eq!(read_varint(&[0x81]), Err(Error::TruncatedVarint));
    assert_eq!(read_varint(&[0xff; 8]), Err(Error::TruncatedVarint));
}

#[test]
fn varint_round_trip_on_sample_values() {
    let samples = [
        0u64,
        1,
        127,
        128,
        16383,
        16384,
        (1 << 21) - 1,
        1 << 21,
        (1 << 28) + 5,
        (1 << 35) + 7,
        (1 << 42) + 9,
        (1 << 49) + 11,
        (1 << 56) - 1,
        1 << 56,
        0x0123_4567_89ab_cdef,
        u64::MAX,
    ];
    for v in samples {
        let mut bytes = encode_varint(v);
        let len = bytes.len();
        bytes.extend_from_slice(&[0xaa, 0x01]);
        assert_eq!(read_varint(&bytes).unwrap(), (v, len), "value {}", v);
    }
}

#[test]
fn serial_types_and_sizes() {
    let table: [(u64, ColumnType, u64); 12] = [
        (0, ColumnType::Null, 0),
        (1, ColumnType::Integer { size: 1 }, 1),
        (2, ColumnType::Integer { size: 2 }, 2),
        (3, ColumnType::Integer { size: 3 }, 3),
        (4, ColumnType::Integer { size: 4 }, 4),
        (5, ColumnType::Integer { size: 6 }, 6),
        (6, ColumnType::Integer { size: 8 }, 8),
        (7, ColumnType::Real, 8),
        (8, ColumnType::ConstantZero, 0),
        (9, ColumnType::ConstantOne, 0),
        (12, ColumnType::Blob { length: 0 }, 0),
        (13, ColumnType::Text { length: 0 }, 0),
    ];
    for (code, ty, size) in table {
        let t = ColumnType::from_serial_type(code).unwrap();
        assert_eq!(t, ty);
        assert_eq!(t.data_size(), size);
    }
    assert_eq!(ColumnType::from_serial_type(30).unwrap(), ColumnType::Blob { length: 9 });
    assert_eq!(ColumnType::from_serial_type(31).unwrap(), ColumnType::Text { length: 9 });
    assert_eq!(ColumnType::from_serial_type(31).unwrap().data_size(), 9);
    assert_eq!(
        ColumnType::from_serial_type(u64::MAX).unwrap(),
        ColumnType::Text { length: (u64::MAX - 13) / 2 }
    );
    assert_eq!(ColumnType::from_serial_type(10), Err(Error::ReservedSerialType { code: 10 }));
    assert_eq!(ColumnType::from_serial_type(11), Err(Error::ReservedSerialType { code: 11 }));
}

#[test]
fn record_header_reads_types_and_data_start() {
    // Two leading bytes that are not part of the record.
    let buf = [0xee, 0xee, 4, 1, 0, 19, 0x05, b'r', b'e', b'd'];
    let header = RecordHeader::parse(&buf, 2).unwrap();
    assert_eq!(
        header.column_types,
        vec![ColumnType::Integer { size: 1 }, ColumnType::Null, ColumnType::Text { length: 3 }]
    );
    assert_eq!(header.data_start_offset, 6);
    assert_eq!(header.column_count(), 3);
}

#[test]
fn record_header_errors() {
    // The second serial type runs past the header's end.
    assert_eq!(RecordHeader::parse(&[2, 0x81, 0x00], 0), Err(Error::RecordHeaderInconsistent));
    // The header claims more bytes than the buffer has.
    assert_eq!(RecordHeader::parse(&[9, 1], 0), Err(Error::RecordHeaderInconsistent));
    assert_eq!(RecordHeader::parse(&[2, 10], 0), Err(Error::ReservedSerialType { code: 10 }));
    assert_eq!(RecordHeader::parse(&[], 0), Err(Error::TruncatedVarint));
}

fn cell_with_record(header: &[u8], body: &[u8]) -> Vec<u8> {
    let payload = header.len() + body.len();
    let mut cell = vec![payload as u8, 7];
    cell.extend_from_slice(header);
    cell.extend_from_slice(body);
    // Room so that the payload fits on the "page".
    cell.resize(cell.len() + 64, 0);
    cell
}

#[test]
fn leaf_cell_columns() {
    // Columns: 3-byte -2, 6-byte -1, 1-byte 100, "hi", constant 1, 2-byte 0x0102.
    let buf = cell_with_record(
        &[7, 3, 5, 1, 17, 9, 2],
        &[0xff, 0xff, 0xfe, 0xff, 0xff, 0xff, 0xff, 0xff, 0xff, 100, b'h', b'i', 0x01, 0x02],
    );
    let cell = LeafTableCell::parse(&buf, 0).unwrap();
    assert_eq!(cell.row_id, 7);
    assert_eq!(cell.integer_column(&buf, 0).unwrap(), -2);
    assert_eq!(cell.integer_column(&buf, 1).unwrap(), -1);
    assert_eq!(cell.integer_column(&buf, 2).unwrap(), 100);
    assert_eq!(cell.text_column(&buf, 3).unwrap(), "hi");
    assert_eq!(cell.integer_column(&buf, 4).unwrap(), 1);
    assert_eq!(cell.integer_column(&buf, 5).unwrap(), 258);
    assert_eq!(cell.column_data(&buf, 3).unwrap(), b"hi");
    assert_eq!(cell.display_column(&buf, 0).unwrap(), "-2");
    assert_eq!(cell.display_column(&buf, 3).unwrap(), "hi");
    assert_eq!(cell.display_column(&buf, 4).unwrap(), "1");
    assert_eq!(cell.text_column(&buf, 0), Err(Error::UnsupportedColumnType { index: 0 }));
    assert_eq!(cell.integer_column(&buf, 3), Err(Error::UnsupportedColumnType { index: 3 }));
}

#[test]
fn column_index_bounds() {
    let buf = cell_with_record(&[3, 1, 15], &[5, b'x']);
    let cell = LeafTableCell::parse(&buf, 0).unwrap();
    let n = cell.record_header.column_count();
    assert_eq!(n, 2);
    assert_eq!(cell.column_data(&buf, n), Err(Error::ColumnIndexOutOfBounds { index: n }));
    assert_eq!(cell.text_column(&buf, n), Err(Error::ColumnIndexOutOfBounds { index: n }));
    assert_eq!(cell.integer_column(&buf, n), Err(Error::ColumnIndexOutOfBounds { index: n }));
    assert_eq!(cell.display_column(&buf, n), Err(Error::ColumnIndexOutOfBounds { index: n }));
    for i in 0..n {
        assert!(cell.column_data(&buf, i).is_ok());
    }
}

#[test]
fn invalid_utf8_text() {
    let buf = cell_with_record(&[2, 17], &[0xff, 0xfe]);
    let cell = LeafTableCell::parse(&buf, 0).unwrap();
    assert_eq!(cell.text_column(&buf, 0), Err(Error::InvalidUtf8));
}

#[test]
fn column_bytes_past_the_buffer() {
    let buf = [0u8, 0, 2, 6];
    let header = RecordHeader::parse(&buf, 2).unwrap();
    let cell = LeafTableCell { row_id: 1, record_header: header };
    assert_eq!(cell.column_data(&buf, 0), Err(Error::ColumnDataOutOfBounds { index: 0 }));
}

#[test]
fn overflowing_payload() {
    let mut buf = vec![0x81, 0x00, 1, 2, 1, 5];
    buf.resize(100, 0);
    assert_eq!(LeafTableCell::parse(&buf, 0), Err(Error::OverflowNotSupported));
}
