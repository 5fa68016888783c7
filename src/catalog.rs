//! The schema catalog: page 1 of the file read as a leaf table page whose
//! rows describe every table, index, view and trigger.
use vstd::prelude::*;

use crate::cell::{integer_column_at, leaf_cell_in, text_column_at, LeafTableCell};
use crate::error::Error;
use crate::page::{page_header_error, page_header_of, BTreePageHeader, PageType};
use crate::record::ColumnType;
use crate::DATABASE_HEADER_SIZE;

verus! {

/// One catalog row, as values.
pub struct SchemaRecordView {
    pub type_: Seq<char>,
    pub name: Seq<char>,
    pub tbl_name: Seq<char>,
    pub rootpage: i64,
    pub sql: Seq<char>,
}

/// One row of the schema catalog.
#[derive(Debug, Clone, PartialEq)]
pub struct SchemaMasterRecord {
    /// `table`, `index`, `view` or `trigger`.
    pub type_: String,
    pub name: String,
    /// The table that the object belongs to.
    pub tbl_name: String,
    /// First page of the object's B-tree.
    pub rootpage: i64,
    /// The statement that created the object.
    pub sql: String,
}

impl View for SchemaMasterRecord {
    type V = SchemaRecordView;

    open spec fn view(&self) -> SchemaRecordView {
        SchemaRecordView {
            type_: self.type_@,
            name: self.name@,
            tbl_name: self.tbl_name@,
            rootpage: self.rootpage,
            sql: self.sql@,
        }
    }
}

/// The catalog row held by a record with types `ts` and data at `start`:
/// five columns, four of them text and the fourth an integer.
pub open spec fn schema_record_of(b: Seq<u8>, ts: Seq<ColumnType>, start: int) -> Result<
    SchemaRecordView,
    Error,
> {
    if ts.len() != 5 {
        Err(Error::SchemaColumnCount { columns: ts.len() as usize })
    } else {
        match (
            text_column_at(b, ts, start, 0),
            text_column_at(b, ts, start, 1),
            text_column_at(b, ts, start, 2),
            integer_column_at(b, ts, start, 3),
            text_column_at(b, ts, start, 4),
        ) {
            (Err(e), _, _, _, _) => Err(e),
            (Ok(_), Err(e), _, _, _) => Err(e),
            (Ok(_), Ok(_), Err(e), _, _) => Err(e),
            (Ok(_), Ok(_), Ok(_), Err(e), _) => Err(e),
            (Ok(_), Ok(_), Ok(_), Ok(_), Err(e)) => Err(e),
            (Ok(type_), Ok(name), Ok(tbl_name), Ok(rootpage), Ok(sql)) => Ok(
                SchemaRecordView { type_, name, tbl_name, rootpage, sql },
            ),
        }
    }
}

impl SchemaMasterRecord {
    /// Reads the catalog row that `cell` holds in `buffer`.
    pub fn from_cell(buffer: &[u8], cell: &LeafTableCell) -> (r: Result<Self, Error>)
        ensures
            match schema_record_of(buffer@, cell.types(), cell.start()) {
                Ok(v) => r matches Ok(rec) && rec@ == v,
                Err(e) => r == Err::<Self, Error>(e),
            },
    {
        let columns = cell.record_header.column_count();
        if columns != 5 {
            return Err(Error::SchemaColumnCount { columns });
        }
        let type_ = match cell.text_column(buffer, 0) {
            Ok(s) => s,
            Err(e) => return Err(e),
        };
        let name = match cell.text_column(buffer, 1) {
            Ok(s) => s,
            Err(e) => return Err(e),
        };
        let tbl_name = match cell.text_column(buffer, 2) {
            Ok(s) => s,
            Err(e) => return Err(e),
        };
        let rootpage = match cell.integer_column(buffer, 3) {
            Ok(v) => v,
            Err(e) => return Err(e),
        };
        let sql = match cell.text_column(buffer, 4) {
            Ok(s) => s,
            Err(e) => return Err(e),
        };
        Ok(SchemaMasterRecord { type_, name, tbl_name, rootpage, sql })
    }
}

/// The catalog row in the cell at `offset` of `b`, page 1 without the
/// database header.
#[verifier::opaque]
pub open spec fn catalog_entry_at(b: Seq<u8>, offset: int) -> Result<SchemaRecordView, Error> {
    match leaf_cell_in(b, offset, DATABASE_HEADER_SIZE as int) {
        Err(e) => Err(e),
        Ok(c) => schema_record_of(b, c.column_types, c.data_start),
    }
}

/// The rows in the cells at `ptrs`, in order; the first failure stops the reading.
pub open spec fn catalog_entries(b: Seq<u8>, ptrs: Seq<u16>) -> Result<
    Seq<SchemaRecordView>,
    Error,
>
    decreases ptrs.len(),
{
    if ptrs.len() == 0 {
        Ok(seq![])
    } else {
        match catalog_entries(b, ptrs.drop_last()) {
            Err(e) => Err(e),
            Ok(rs) => match catalog_entry_at(b, ptrs.last() as int) {
                Err(e) => Err(e),
                Ok(r) => Ok(rs.push(r)),
            },
        }
    }
}

/// The word that marks a table in the catalog's `type` column.
pub open spec fn table_word() -> Seq<char> {
    seq!['t', 'a', 'b', 'l', 'e']
}

/// Names of the rows of type `table`, in order.
pub open spec fn table_names_of(rs: Seq<SchemaRecordView>) -> Seq<Seq<char>>
    decreases rs.len(),
{
    if rs.len() == 0 {
        seq![]
    } else if rs.last().type_ == table_word() {
        table_names_of(rs.drop_last()).push(rs.last().name)
    } else {
        table_names_of(rs.drop_last())
    }
}

/// The names of the tables in the catalog, or the first failure reading it.
pub open spec fn catalog_table_names(b: Seq<u8>, ptrs: Seq<u16>) -> Result<Seq<Seq<char>>, Error> {
    match catalog_entries(b, ptrs) {
        Ok(rs) => Ok(table_names_of(rs)),
        Err(e) => Err(e),
    }
}

/// The first row of type `table` named `name`, reading the cells in order:
/// a failure before it is reported, rows after it are not read.
pub open spec fn catalog_lookup(b: Seq<u8>, ptrs: Seq<u16>, name: Seq<char>) -> Result<
    Option<SchemaRecordView>,
    Error,
>
    decreases ptrs.len(),
{
    if ptrs.len() == 0 {
        Ok(None)
    } else {
        match catalog_lookup(b, ptrs.drop_last(), name) {
            Err(e) => Err(e),
            Ok(Some(r)) => Ok(Some(r)),
            Ok(None) => match catalog_entry_at(b, ptrs.last() as int) {
                Err(e) => Err(e),
                Ok(r) => if r.type_ == table_word() && r.name == name {
                    Ok(Some(r))
                } else {
                    Ok(None)
                },
            },
        }
    }
}

/// A lookup result, as values.
pub open spec fn lookup_view(r: Result<Option<SchemaMasterRecord>, Error>) -> Result<
    Option<SchemaRecordView>,
    Error,
> {
    match r {
        Ok(Some(rec)) => Ok(Some(rec@)),
        Ok(None) => Ok(None),
        Err(e) => Err(e),
    }
}

/// A list of names, as values.
pub open spec fn names_view(r: Result<Vec<String>, Error>) -> Result<Seq<Seq<char>>, Error> {
    match r {
        Ok(v) => Ok(v@.map_values(|s: String| s@)),
        Err(e) => Err(e),
    }
}

/// The catalog page, as values.
pub struct RootPageView {
    pub first_freeblock: u16,
    pub cell_count: u16,
    pub cell_content_start: u16,
    pub fragmented_bytes: u8,
    /// Cell offsets into `buffer`, in key order.
    pub cell_pointers: Seq<u16>,
    /// Page 1 without the database header.
    pub buffer: Seq<u8>,
}

/// Index of the first pointer from `i` on that points into the database header.
pub open spec fn first_header_pointer(ptrs: Seq<u16>, i: int) -> Option<int>
    decreases ptrs.len() - i,
{
    if i < 0 || i >= ptrs.len() {
        None
    } else if ptrs[i] < DATABASE_HEADER_SIZE {
        Some(i)
    } else {
        first_header_pointer(ptrs, i + 1)
    }
}

/// The catalog page that `b` (page 1 after the database header) holds.
pub open spec fn catalog_page_of(b: Seq<u8>) -> Result<RootPageView, Error> {
    match page_header_error(b) {
        Some(e) => Err(e),
        None => {
            let h = page_header_of(b);
            if h.page_type != PageType::LeafTable {
                Err(Error::UnexpectedPageKind { tag: b[0] })
            } else if h.cell_content_start < 8 + 2 * h.cell_count {
                Err(Error::InvalidCellContentStart)
            } else {
                match first_header_pointer(h.cell_pointers, 0) {
                    Some(i) => Err(Error::CellPointerOutOfBounds { cell: i as u16 }),
                    None => Ok(
                        RootPageView {
                            first_freeblock: h.first_freeblock,
                            cell_count: h.cell_count,
                            cell_content_start: h.cell_content_start,
                            fragmented_bytes: h.fragmented_bytes,
                            cell_pointers: h.cell_pointers.map_values(
                                |p: u16| (p - DATABASE_HEADER_SIZE) as u16,
                            ),
                            buffer: b,
                        },
                    ),
                }
            }
        },
    }
}

/// The `sqlite_schema` page.
#[derive(Debug, PartialEq)]
pub struct RootPage {
    first_freeblock: u16,
    cell_count: u16,
    cell_content_start: u16,
    fragmented_bytes: u8,
    cell_pointers: Vec<u16>,
    buffer: Vec<u8>,
}

impl View for RootPage {
    type V = RootPageView;

    closed spec fn view(&self) -> RootPageView {
        RootPageView {
            first_freeblock: self.first_freeblock,
            cell_count: self.cell_count,
            cell_content_start: self.cell_content_start,
            fragmented_bytes: self.fragmented_bytes,
            cell_pointers: self.cell_pointers@,
            buffer: self.buffer@,
        }
    }
}

impl RootPage {
    /// The cell count in the header is the number of cell pointers.
    #[verifier::type_invariant]
    closed spec fn counts_agree(self) -> bool {
        self.cell_count as nat == self.cell_pointers@.len()
    }

    /// Reads page 1 without its first 100 bytes as the catalog's leaf table
    /// page. Its cell pointers count from the start of the file, so each is
    /// moved back by the header's length.
    pub fn init(buffer: Vec<u8>) -> (r: Result<Self, Error>)
        ensures
            match catalog_page_of(buffer@) {
                Ok(v) => r matches Ok(p) && p@ == v,
                Err(e) => r == Err::<Self, Error>(e),
            },
    {
        let header = match BTreePageHeader::parse(buffer.as_slice()) {
            Ok(h) => h,
            Err(e) => return Err(e),
        };
        match header.page_type {
            PageType::LeafTable => {},
            _ => return Err(Error::UnexpectedPageKind { tag: buffer[0] }),
        }
        if (header.cell_content_start as u64) < 8 + 2 * (header.cell_count as u64) {
            return Err(Error::InvalidCellContentStart);
        }
        let ghost ptrs = header.cell_pointers@;
        let mut adjusted: Vec<u16> = Vec::new();
        let mut i: usize = 0;
        while i < header.cell_pointers.len()
            invariant
                ptrs == header.cell_pointers@,
                i <= ptrs.len(),
                ptrs.len() <= 0xffff,
                page_header_error(buffer@) is None,
                header@ == page_header_of(buffer@),
                header.page_type == PageType::LeafTable,
                header.cell_content_start >= 8 + 2 * header.cell_count,
                first_header_pointer(ptrs, 0) == first_header_pointer(ptrs, i as int),
                adjusted@ == ptrs.subrange(0, i as int).map_values(
                    |p: u16| (p - DATABASE_HEADER_SIZE) as u16,
                ),
            decreases ptrs.len() - i,
        {
            let p = header.cell_pointers[i];
            if (p as u64) < DATABASE_HEADER_SIZE {
                return Err(Error::CellPointerOutOfBounds { cell: i as u16 });
            }
            adjusted.push(p - DATABASE_HEADER_SIZE as u16);
            i = i + 1;
            assert(adjusted@ =~= ptrs.subrange(0, i as int).map_values(
                |p: u16| (p - DATABASE_HEADER_SIZE) as u16,
            ));
        }
        assert(ptrs.subrange(0, ptrs.len() as int) =~= ptrs);
        Ok(Self {
            first_freeblock: header.first_freeblock,
            cell_count: header.cell_count,
            cell_content_start: header.cell_content_start,
            fragmented_bytes: header.fragmented_bytes,
            cell_pointers: adjusted,
            buffer,
        })
    }

    /// Number of catalog rows (of every type).
    pub fn table_count(&self) -> (r: u16)
        ensures
            r == self@.cell_count,
            r as nat == self@.cell_pointers.len(),
    {
        proof {
            use_type_invariant(self);
        }
        self.cell_count
    }

    /// The catalog's cell offsets, in order.
    pub fn cells(&self) -> (r: Vec<u16>)
        ensures
            r@ == self@.cell_pointers,
    {
        let mut out: Vec<u16> = Vec::new();
        let mut i: usize = 0;
        while i < self.cell_pointers.len()
            invariant
                i <= self@.cell_pointers.len(),
                out@ == self@.cell_pointers.subrange(0, i as int),
            decreases self@.cell_pointers.len() - i,
        {
            out.push(self.cell_pointers[i]);
            i = i + 1;
            assert(out@ =~= self@.cell_pointers.subrange(0, i as int));
        }
        assert(out@ =~= self@.cell_pointers);
        out
    }

    fn entry(&self, cell_offset: u16) -> (r: Result<SchemaMasterRecord, Error>)
        ensures
            match catalog_entry_at(self@.buffer, cell_offset as int) {
                Ok(v) => r matches Ok(rec) && rec@ == v,
                Err(e) => r == Err::<SchemaMasterRecord, Error>(e),
            },
    {
        proof {
            reveal(catalog_entry_at);
        }
        let buffer = self.buffer.as_slice();
        let cell = match LeafTableCell::parse_in_page(buffer, cell_offset, DATABASE_HEADER_SIZE) {
            Ok(c) => c,
            Err(e) => return Err(e),
        };
        SchemaMasterRecord::from_cell(buffer, &cell)
    }

    /// Names of the catalog rows of type `table`, in cell order; a row that
    /// cannot be read fails the whole list.
    pub fn table_names(&self) -> (r: Result<Vec<String>, Error>)
        ensures
            names_view(r) == catalog_table_names(self@.buffer, self@.cell_pointers),
    {
        proof {
            reveal_strlit("table");
        }
        let table_kw: String = "table".to_owned();
        let ghost ptrs = self@.cell_pointers;
        let mut names: Vec<String> = Vec::new();
        let mut i: usize = 0;
        while i < self.cell_pointers.len()
            invariant
                ptrs == self@.cell_pointers,
                i <= ptrs.len(),
                table_kw@ == table_word(),
                catalog_entries(self@.buffer, ptrs.subrange(0, i as int)) matches Ok(rs) && names@.map_values(|s: String| s@)
                    == table_names_of(rs),
            decreases ptrs.len() - i,
        {
            let ghost prefix = ptrs.subrange(0, i as int);
            let ghost next = ptrs.subrange(0, i + 1);
            proof {
                assert(next.drop_last() =~= prefix);
            }
            let rec = match self.entry(self.cell_pointers[i]) {
                Ok(rec) => rec,
                Err(e) => {
                    proof {
                        lemma_entries_fail_later(self@.buffer, ptrs, i + 1);
                    }
                    return Err(e);
                },
            };
            let ghost rs = catalog_entries(self@.buffer, prefix)->Ok_0;
            proof {
                assert(rs.push(rec@).drop_last() =~= rs);
            }
            if rec.type_ == table_kw {
                names.push(rec.name);
                proof {
                    assert(names@.map_values(|s: String| s@) =~= table_names_of(rs).push(rec@.name));
                }
            }
            i = i + 1;
        }
        proof {
            assert(ptrs.subrange(0, ptrs.len() as int) =~= ptrs);
        }
        Ok(names)
    }

    /// The first row of type `table` whose name is exactly `table_name`,
    /// scanning the cells in order; `None` when there is none.
    pub fn find_table(&self, table_name: &str) -> (r: Result<Option<SchemaMasterRecord>, Error>)
        ensures
            lookup_view(r) == catalog_lookup(self@.buffer, self@.cell_pointers, table_name@),
    {
        proof {
            reveal_strlit("table");
        }
        let table_kw: String = "table".to_owned();
        let wanted: String = table_name.to_owned();
        let ghost ptrs = self@.cell_pointers;
        let mut i: usize = 0;
        while i < self.cell_pointers.len()
            invariant
                ptrs == self@.cell_pointers,
                i <= ptrs.len(),
                table_kw@ == table_word(),
                wanted@ == table_name@,
                catalog_lookup(self@.buffer, ptrs.subrange(0, i as int), table_name@)
                    == Ok::<Option<SchemaRecordView>, Error>(None),
            decreases ptrs.len() - i,
        {
            let ghost prefix = ptrs.subrange(0, i as int);
            let ghost next = ptrs.subrange(0, i + 1);
            proof {
                assert(next.drop_last() =~= prefix);
            }
            let rec = match self.entry(self.cell_pointers[i]) {
                Ok(rec) => rec,
                Err(e) => {
                    proof {
                        lemma_lookup_settled(self@.buffer, ptrs, table_name@, i + 1);
                    }
                    return Err(e);
                },
            };
            if rec.type_ == table_kw && rec.name == wanted {
                proof {
                    lemma_lookup_settled(self@.buffer, ptrs, table_name@, i + 1);
                }
                return Ok(Some(rec));
            }
            i = i + 1;
        }
        proof {
            assert(ptrs.subrange(0, ptrs.len() as int) =~= ptrs);
        }
        Ok(None)
    }
}

/// Once reading a prefix of the cells fails, reading more of them fails the same way.
proof fn lemma_entries_fail_later(b: Seq<u8>, ptrs: Seq<u16>, i: int)
    requires
        0 <= i <= ptrs.len(),
        catalog_entries(b, ptrs.subrange(0, i)) is Err,
    ensures
        catalog_entries(b, ptrs) == catalog_entries(b, ptrs.subrange(0, i)),
    decreases ptrs.len() - i,
{
    if i < ptrs.len() {
        let next = ptrs.subrange(0, i + 1);
        assert(next.drop_last() =~= ptrs.subrange(0, i));
        lemma_entries_fail_later(b, ptrs, i + 1);
    } else {
        assert(ptrs.subrange(0, i) =~= ptrs);
    }
}

/// Once a prefix of the cells settles the lookup (a failure or a match),
/// the rest of the cells do not change it.
proof fn lemma_lookup_settled(b: Seq<u8>, ptrs: Seq<u16>, name: Seq<char>, i: int)
    requires
        0 <= i <= ptrs.len(),
        catalog_lookup(b, ptrs.subrange(0, i), name) != Ok::<Option<SchemaRecordView>, Error>(
            None,
        ),
    ensures
        catalog_lookup(b, ptrs, name) == catalog_lookup(b, ptrs.subrange(0, i), name),
    decreases ptrs.len() - i,
{
    if i < ptrs.len() {
        let next = ptrs.subrange(0, i + 1);
        assert(next.drop_last() =~= ptrs.subrange(0, i));
        lemma_lookup_settled(b, ptrs, name, i + 1);
    } else {
        assert(ptrs.subrange(0, i) =~= ptrs);
    }
}

/// Looking a name up twice in an unchanged catalog gives the same result:
/// any two results that `find_table` may return for one page and one name
/// are equal.
pub proof fn lemma_find_table_idempotent(
    page: RootPageView,
    name: Seq<char>,
    first: Result<Option<SchemaMasterRecord>, Error>,
    second: Result<Option<SchemaMasterRecord>, Error>,
)
    requires
        lookup_view(first) == catalog_lookup(page.buffer, page.cell_pointers, name),
        lookup_view(second) == catalog_lookup(page.buffer, page.cell_pointers, name),
    ensures
        lookup_view(first) == lookup_view(second),
{
}

} // verus!
