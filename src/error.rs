use vstd::prelude::*;

verus! {

/// Every way in which opening a database, decoding it or answering a query can fail.
#[derive(Debug, Clone, PartialEq, Eq)]
pub enum Error {
    /// The file holds fewer than 100 bytes.
    TooSmallForHeader,
    /// The first 16 bytes are not `"SQLite format 3\0"`.
    InvalidMagic,
    /// The header declares a page size that is not a power of two in 512..=65536.
    InvalidPageSize { raw: u16 },
    /// The file ends before the end of page 1.
    TooSmallForFirstPage,
    /// A page number of zero or below.
    InvalidPageNumber { value: i64 },
    /// `page * page_size` lies beyond the 100 MiB sanity ceiling.
    PageOutOfRange { page: u64 },
    /// The buffer handed to the pager is not one page long.
    BufferSizeMismatch { expected: usize, found: usize },
    /// The file ends inside the page.
    UnexpectedEndOfFile { page: u64 },
    /// The first byte of a B-tree page is none of 0x02, 0x05, 0x0a, 0x0d.
    InvalidPageType { byte: u8 },
    /// The buffer is shorter than the page header.
    HeaderTooShort,
    /// The two-byte slot of a cell pointer lies outside the buffer.
    CellPointerOutOfBounds { cell: u16 },
    /// A cell that does not fit in the page.
    CellOutOfBounds { offset: u16 },
    /// The cell content area starts inside the header or the pointer array.
    InvalidCellContentStart,
    /// The buffer ends before a varint does.
    TruncatedVarint,
    /// Serial types 10 and 11 are reserved.
    ReservedSerialType { code: u64 },
    /// The cell's payload spills onto overflow pages.
    OverflowNotSupported,
    /// The record header does not end exactly where its size says.
    RecordHeaderInconsistent,
    /// A page of another kind than the one that was asked for.
    UnexpectedPageKind { tag: u8 },
    /// A catalog row that does not hold exactly five columns.
    SchemaColumnCount { columns: usize },
    /// No table of that name in the catalog.
    TableNotFound { table: String },
    /// The table's `CREATE TABLE` text names another table.
    SchemaMismatch { expected: String, found: String },
    /// The table has no column of that name.
    ColumnNotFound { table: String, column: String },
    /// The record has no column at that index.
    ColumnIndexOutOfBounds { index: usize },
    /// The column's bytes run past the end of the buffer.
    ColumnDataOutOfBounds { index: usize },
    /// The column's type cannot be read in the way that was asked for.
    UnsupportedColumnType { index: usize },
    /// A text column whose bytes are not UTF-8.
    InvalidUtf8,
    /// Projection needs a leaf table page at the root.
    ExpectedLeafPage,
    /// Counting needs table pages all the way down.
    ExpectedTablePage,
    /// The B-tree is deeper than the depth cap.
    TreeTooDeep,
    /// The row count does not fit in 64 bits.
    CountOverflow,
    /// A type name other than INTEGER, TEXT, REAL, BLOB and NUMERIC.
    UnsupportedSqlType,
    /// The `CREATE TABLE` text does not follow the grammar.
    InvalidCreateTable,
    /// The statement is not one of the supported `SELECT` forms.
    InvalidStatement,
}

} // verus!
