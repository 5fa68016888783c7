//! Leaf table cells (rows) and the values of their columns, and the rows of
//! the schema catalog.
use vstd::prelude::*;
use vstd::slice::slice_subrange;
use vstd::utf8::{decode_utf8, valid_utf8};

use crate::error::Error;
use crate::record::{record_header_at, ColumnType, RecordHeader};
use crate::text::{signed_decimal, signed_decimal_string, utf8_string};
use crate::varint::{lemma_varint_at_bounds, read_varint_at, varint_at};

verus! {

/// Bytes that a table leaf cell may keep on its page, below the page's size:
/// a larger payload continues on overflow pages.
pub const LEAF_PAYLOAD_RESERVE: u64 = 35;

/// The decoded head of a table leaf cell.
pub struct LeafCellView {
    pub row_id: u64,
    pub column_types: Seq<ColumnType>,
    pub data_start: int,
}

/// The table leaf cell at `offset` of the page `b`: payload size, row id,
/// then the record header.
pub open spec fn leaf_cell_at(b: Seq<u8>, offset: int) -> Result<LeafCellView, Error> {
    leaf_cell_in(b, offset, 0)
}

/// The table leaf cell at `offset` of `b`, which holds a page without its
/// first `skipped` bytes: the page's size is `b.len() + skipped`.
pub open spec fn leaf_cell_in(b: Seq<u8>, offset: int, skipped: int) -> Result<LeafCellView, Error> {
    match varint_at(b, offset) {
        Err(e) => Err(e),
        Ok((payload, n1)) => match varint_at(b, offset + n1) {
            Err(e) => Err(e),
            Ok((row_id, n2)) => if payload + LEAF_PAYLOAD_RESERVE > b.len() + skipped {
                Err(Error::OverflowNotSupported)
            } else {
                match record_header_at(b, offset + n1 + n2) {
                    Err(e) => Err(e),
                    Ok((ts, start)) => Ok(
                        LeafCellView { row_id, column_types: ts, data_start: start },
                    ),
                }
            },
        },
    }
}

/// Total width of the first `i` columns.
pub open spec fn columns_width(ts: Seq<ColumnType>, i: int) -> nat
    decreases i,
{
    if i <= 0 {
        0
    } else {
        columns_width(ts, i - 1) + ts[i - 1].width()
    }
}

/// The bytes of column `i` of a record whose data starts at `start`.
pub open spec fn column_data_at(b: Seq<u8>, ts: Seq<ColumnType>, start: int, i: int) -> Result<
    Seq<u8>,
    Error,
> {
    if i < 0 || i >= ts.len() {
        Err(Error::ColumnIndexOutOfBounds { index: i as usize })
    } else {
        let from = start + columns_width(ts, i);
        let to = from + ts[i].width();
        if to > b.len() {
            Err(Error::ColumnDataOutOfBounds { index: i as usize })
        } else {
            Ok(b.subrange(from, to))
        }
    }
}

/// Column `i` read as text.
pub open spec fn text_column_at(b: Seq<u8>, ts: Seq<ColumnType>, start: int, i: int) -> Result<
    Seq<char>,
    Error,
> {
    if i < 0 || i >= ts.len() {
        Err(Error::ColumnIndexOutOfBounds { index: i as usize })
    } else if !(ts[i] is Text) {
        Err(Error::UnsupportedColumnType { index: i as usize })
    } else {
        match column_data_at(b, ts, start, i) {
            Err(e) => Err(e),
            Ok(d) => if valid_utf8(d) {
                Ok(decode_utf8(d))
            } else {
                Err(Error::InvalidUtf8)
            },
        }
    }
}

/// 256 to the power `n`.
pub open spec fn byte_bound(n: nat) -> nat
    decreases n,
{
    if n == 0 {
        1
    } else {
        256 * byte_bound((n - 1) as nat)
    }
}

/// `d` read as a big-endian unsigned integer.
pub open spec fn be_unsigned(d: Seq<u8>) -> nat
    decreases d.len(),
{
    if d.len() == 0 {
        0
    } else {
        (be_unsigned(d.drop_last()) * 256 + d.last()) as nat
    }
}

/// `d` read as a big-endian two's complement integer.
pub open spec fn be_signed(d: Seq<u8>) -> int {
    if d.len() > 0 && be_unsigned(d) * 2 >= byte_bound(d.len()) {
        be_unsigned(d) - byte_bound(d.len())
    } else {
        be_unsigned(d) as int
    }
}

/// Column `i` read as an integer: a stored integer, or the constants 0 and 1.
pub open spec fn integer_column_at(b: Seq<u8>, ts: Seq<ColumnType>, start: int, i: int) -> Result<
    i64,
    Error,
> {
    if i < 0 || i >= ts.len() {
        Err(Error::ColumnIndexOutOfBounds { index: i as usize })
    } else {
        match ts[i] {
            ColumnType::ConstantZero => Ok(0),
            ColumnType::ConstantOne => Ok(1),
            ColumnType::Integer { size } => if size > 8 {
                Err(Error::UnsupportedColumnType { index: i as usize })
            } else {
                match column_data_at(b, ts, start, i) {
                    Err(e) => Err(e),
                    Ok(d) => Ok(be_signed(d) as i64),
                }
            },
            _ => Err(Error::UnsupportedColumnType { index: i as usize }),
        }
    }
}

/// Column `i` as query output: text as itself, integers in base 10.
pub open spec fn display_column_at(b: Seq<u8>, ts: Seq<ColumnType>, start: int, i: int) -> Result<
    Seq<char>,
    Error,
> {
    if 0 <= i < ts.len() && ts[i] is Text {
        text_column_at(b, ts, start, i)
    } else {
        match integer_column_at(b, ts, start, i) {
            Ok(v) => Ok(signed_decimal(v as int)),
            Err(e) => Err(e),
        }
    }
}

/// Whether a column read failed on the column's index.
pub open spec fn index_out_of_bounds<T>(r: Result<T, Error>) -> bool {
    r matches Err(Error::ColumnIndexOutOfBounds { .. })
}

/// Column extraction bounds: of a record with `N` columns, asking for column
/// `N` fails with `ColumnIndexOutOfBounds`, and no index in `[0, N)` fails on
/// its bounds (it may still fail on the column's type or bytes).
pub proof fn lemma_column_index_bounds(b: Seq<u8>, ts: Seq<ColumnType>, start: int, i: int)
    ensures
        i == ts.len() ==> column_data_at(b, ts, start, i) == Err::<Seq<u8>, Error>(
            Error::ColumnIndexOutOfBounds { index: i as usize },
        ),
        i == ts.len() ==> text_column_at(b, ts, start, i) == Err::<Seq<char>, Error>(
            Error::ColumnIndexOutOfBounds { index: i as usize },
        ),
        i == ts.len() ==> integer_column_at(b, ts, start, i) == Err::<i64, Error>(
            Error::ColumnIndexOutOfBounds { index: i as usize },
        ),
        i == ts.len() ==> display_column_at(b, ts, start, i) == Err::<Seq<char>, Error>(
            Error::ColumnIndexOutOfBounds { index: i as usize },
        ),
        0 <= i < ts.len() ==> !index_out_of_bounds(column_data_at(b, ts, start, i)),
        0 <= i < ts.len() ==> !index_out_of_bounds(text_column_at(b, ts, start, i)),
        0 <= i < ts.len() ==> !index_out_of_bounds(integer_column_at(b, ts, start, i)),
        0 <= i < ts.len() ==> !index_out_of_bounds(display_column_at(b, ts, start, i)),
{
}

proof fn lemma_columns_width_monotone(ts: Seq<ColumnType>, i: int, j: int)
    requires
        i <= j,
    ensures
        columns_width(ts, i) <= columns_width(ts, j),
    decreases j - i,
{
    if i < j {
        lemma_columns_width_monotone(ts, i, j - 1);
    }
}

proof fn lemma_byte_bound_values()
    ensures
        byte_bound(1) == 0x100,
        byte_bound(2) == 0x1_0000,
        byte_bound(3) == 0x100_0000,
        byte_bound(4) == 0x1_0000_0000,
        byte_bound(5) == 0x100_0000_0000,
        byte_bound(6) == 0x1_0000_0000_0000,
        byte_bound(7) == 0x100_0000_0000_0000,
        byte_bound(8) == 0x1_0000_0000_0000_0000,
{
    reveal_with_fuel(byte_bound, 9);
}

/// Reads `d` (at most 8 bytes) as a big-endian two's complement integer.
fn decode_be_signed(d: &[u8]) -> (r: i64)
    requires
        d@.len() <= 8,
    ensures
        r == be_signed(d@),
{
    let mut value: u128 = 0;
    let mut bound: u128 = 1;
    let mut i: usize = 0;
    proof {
        lemma_byte_bound_values();
    }
    while i < d.len()
        invariant
            d@.len() <= 8,
            i <= d@.len(),
            value == be_unsigned(d@.subrange(0, i as int)),
            bound == byte_bound(i as nat),
            value < bound,
            bound <= 0x1_0000_0000_0000_0000,
            byte_bound(8) == 0x1_0000_0000_0000_0000,
        decreases d@.len() - i,
    {
        proof {
            assert(d@.subrange(0, i + 1).drop_last() =~= d@.subrange(0, i as int));
            if i + 1 <= 7 {
                lemma_byte_bound_values();
                assert(byte_bound((i + 1) as nat) <= 0x100_0000_0000_0000) by {
                    if i + 1 == 1 {} else if i + 1 == 2 {} else if i + 1 == 3 {} else if i + 1
                        == 4 {} else if i + 1 == 5 {} else if i + 1 == 6 {} else {}
                }
            }
        }
        value = value * 256 + d[i] as u128;
        bound = bound * 256;
        i = i + 1;
    }
    proof {
        assert(d@.subrange(0, d@.len() as int) =~= d@);
    }
    // The sign bit is the top bit of the first byte: when it is set, the
    // value is `value - 2^(8 * len)`, as if the high bytes were filled with ones.
    if d.len() > 0 && value * 2 >= bound {
        (value as i128 - bound as i128) as i64
    } else {
        value as i64
    }
}

/// One table row: its row id and record header. The column bytes stay in
/// the page buffer that the cell was read from.
#[derive(Debug, Clone, PartialEq)]
pub struct LeafTableCell {
    pub row_id: u64,
    pub record_header: RecordHeader,
}

impl LeafTableCell {
    /// The column types of the row.
    pub open spec fn types(&self) -> Seq<ColumnType> {
        self.record_header.column_types@
    }

    /// Where the row's column data begins.
    pub open spec fn start(&self) -> int {
        self.record_header.data_start_offset as int
    }

    /// Reads the table leaf cell at `cell_offset` of the page in `buffer`.
    /// A payload that cannot fit on the page (it would continue on overflow
    /// pages) fails with `OverflowNotSupported`.
    pub fn parse(buffer: &[u8], cell_offset: u16) -> (r: Result<Self, Error>)
        ensures
            match leaf_cell_at(buffer@, cell_offset as int) {
                Ok(c) => r matches Ok(cell) && cell.row_id == c.row_id && cell.types()
                    == c.column_types && cell.start() == c.data_start,
                Err(e) => r == Err::<Self, Error>(e),
            },
    {
        Self::parse_in_page(buffer, cell_offset, 0)
    }

    /// Reads the table leaf cell at `cell_offset` of `buffer`, which holds a
    /// page without its first `skipped` bytes (page 1 without the database
    /// header); offsets count from the start of `buffer`. The overflow
    /// threshold follows from the whole page's size.
    pub fn parse_in_page(buffer: &[u8], cell_offset: u16, skipped: u64) -> (r: Result<
        Self,
        Error,
    >)
        ensures
            match leaf_cell_in(buffer@, cell_offset as int, skipped as int) {
                Ok(c) => r matches Ok(cell) && cell.row_id == c.row_id && cell.types()
                    == c.column_types && cell.start() == c.data_start,
                Err(e) => r == Err::<Self, Error>(e),
            },
    {
        let mut offset = cell_offset as usize;
        let (payload_size, consumed) = match read_varint_at(buffer, offset) {
            Ok(v) => v,
            Err(e) => return Err(e),
        };
        proof {
            lemma_varint_at_bounds(buffer@, offset as int);
        }
        offset = offset + consumed;
        let (row_id, consumed) = match read_varint_at(buffer, offset) {
            Ok(v) => v,
            Err(e) => return Err(e),
        };
        proof {
            lemma_varint_at_bounds(buffer@, offset as int);
        }
        offset = offset + consumed;
        let page_size = buffer.len() as u128 + skipped as u128;
        if payload_size as u128 + LEAF_PAYLOAD_RESERVE as u128 > page_size {
            return Err(Error::OverflowNotSupported);
        }
        match RecordHeader::parse(buffer, offset) {
            Ok(record_header) => Ok(LeafTableCell { row_id, record_header }),
            Err(e) => Err(e),
        }
    }

    /// The bytes of column `column_index`, found by adding up the widths of
    /// the columns before it.
    pub fn column_data<'a>(&self, buffer: &'a [u8], column_index: usize) -> (r: Result<
        &'a [u8],
        Error,
    >)
        ensures
            match column_data_at(buffer@, self.types(), self.start(), column_index as int) {
                Ok(d) => r matches Ok(s) && s@ == d,
                Err(e) => r == Err::<&[u8], Error>(e),
            },
    {
        let types = &self.record_header.column_types;
        if column_index >= types.len() {
            return Err(Error::ColumnIndexOutOfBounds { index: column_index });
        }
        let ghost ts = self.types();
        let len = buffer.len() as u64;
        let start = self.record_header.data_start_offset as u64;
        proof {
            lemma_columns_width_monotone(ts, 0, column_index as int);
            lemma_columns_width_monotone(ts, column_index as int, column_index + 1);
        }
        if start > len {
            return Err(Error::ColumnDataOutOfBounds { index: column_index });
        }
        let mut data_offset: u64 = start;
        let mut i: usize = 0;
        while i < column_index
            invariant
                ts == self.types(),
                types@ == ts,
                column_index < ts.len(),
                i <= column_index,
                len == buffer@.len(),
                data_offset == start + columns_width(ts, i as int),
                data_offset <= len,
                start == self.start(),
            decreases column_index - i,
        {
            let w = types[i].data_size();
            if w > len - data_offset {
                proof {
                    lemma_columns_width_monotone(ts, i + 1, column_index as int);
                }
                return Err(Error::ColumnDataOutOfBounds { index: column_index });
            }
            data_offset = data_offset + w;
            i = i + 1;
        }
        let size = types[column_index].data_size();
        if size > len - data_offset {
            return Err(Error::ColumnDataOutOfBounds { index: column_index });
        }
        let from = data_offset as usize;
        let to = (data_offset + size) as usize;
        Ok(slice_subrange(buffer, from, to))
    }

    /// Column `column_index` as a string; it must be a text column holding UTF-8.
    pub fn text_column(&self, buffer: &[u8], column_index: usize) -> (r: Result<String, Error>)
        ensures
            match text_column_at(buffer@, self.types(), self.start(), column_index as int) {
                Ok(s) => r matches Ok(t) && t@ == s,
                Err(e) => r == Err::<String, Error>(e),
            },
    {
        if column_index >= self.record_header.column_types.len() {
            return Err(Error::ColumnIndexOutOfBounds { index: column_index });
        }
        match self.record_header.column_types[column_index] {
            ColumnType::Text { .. } => {
                let data = match self.column_data(buffer, column_index) {
                    Ok(d) => d,
                    Err(e) => return Err(e),
                };
                match utf8_string(data) {
                    Some(s) => Ok(s),
                    None => Err(Error::InvalidUtf8),
                }
            },
            _ => Err(Error::UnsupportedColumnType { index: column_index }),
        }
    }

    /// Column `column_index` as an integer: a stored integer of 1 to 8
    /// bytes, sign-extended, or one of the constants 0 and 1.
    pub fn integer_column(&self, buffer: &[u8], column_index: usize) -> (r: Result<i64, Error>)
        ensures
            r == integer_column_at(buffer@, self.types(), self.start(), column_index as int),
    {
        if column_index >= self.record_header.column_types.len() {
            return Err(Error::ColumnIndexOutOfBounds { index: column_index });
        }
        match self.record_header.column_types[column_index] {
            ColumnType::ConstantZero => Ok(0),
            ColumnType::ConstantOne => Ok(1),
            ColumnType::Integer { size } => {
                if size > 8 {
                    return Err(Error::UnsupportedColumnType { index: column_index });
                }
                match self.column_data(buffer, column_index) {
                    Ok(d) => Ok(decode_be_signed(d)),
                    Err(e) => Err(e),
                }
            },
            _ => Err(Error::UnsupportedColumnType { index: column_index }),
        }
    }

    /// Column `column_index` as query output: text as it is, integers in
    /// base 10; other types are not rendered.
    pub fn display_column(&self, buffer: &[u8], column_index: usize) -> (r: Result<
        String,
        Error,
    >)
        ensures
            match display_column_at(buffer@, self.types(), self.start(), column_index as int) {
                Ok(s) => r matches Ok(t) && t@ == s,
                Err(e) => r == Err::<String, Error>(e),
            },
    {
        if column_index < self.record_header.column_types.len() {
            if let ColumnType::Text { .. } = self.record_header.column_types[column_index] {
                return self.text_column(buffer, column_index);
            }
        }
        match self.integer_column(buffer, column_index) {
            Ok(v) => Ok(signed_decimal_string(v)),
            Err(e) => Err(e),
        }
    }
}

} // verus!
