use sqlite_reader::catalog::{RootPage, SchemaMasterRecord};
use sqlite_reader::cell::LeafTableCell;
use sqlite_reader::db::{DbHeader, Sqlite};
use sqlite_reader::error::Error;
use sqlite_reader::executor::QueryExecutor;
use sqlite_reader::page::{
    BTreePage, InteriorIndexPage, InteriorTableCell, InteriorTablePage, LeafIndexPage,
    LeafTablePage, PageType,
};
use sqlite_reader::schema::{TableSchema, TableSchemaParser};
use sqlite_reader::pager::{PageNumber, Pager};
use sqlite_reader::sql::{parse_sql, Statement};

const PAGE: usize = 4096;

/// A record: header (size, serial types) then body.
fn record(serials: &[u8], body: &[u8]) -> Vec<u8> {
    let mut r = vec![(serials.len() + 1) as u8];
    r.extend_from_slice(serials);
    r.extend_from_slice(body);
    r
}

/// A table leaf cell: payload size, row id, record.
fn leaf_cell(row_id: u8, rec: &[u8]) -> Vec<u8> {
    let mut c = vec![rec.len() as u8, row_id];
    c.extend_from_slice(rec);
    c
}

/// Writes a B-tree page at `base` of `page`: header, pointers, and cells
/// packed at the end of the page.
fn write_btree_page(page: &mut [u8], base: usize, tag: u8, cells: &[Vec<u8>], rightmost: Option<u32>) {
    let header_len = if rightmost.is_some() { 12 } else { 8 };
    let mut end = page.len();
    let mut pointers = Vec::new();
    for c in cells {
        end -= c.len();
        page[end..end + c.len()].copy_from_slice(c);
        pointers.push(end as u16);
    }
    page[base] = tag;
    page[base + 3..base + 5].copy_from_slice(&(cells.len() as u16).to_be_bytes());
    page[base + 5..base + 7].copy_from_slice(&(end as u16).to_be_bytes());
    if let Some(r) = rightmost {
        page[base + 8..base + 12].copy_from_slice(&r.to_be_bytes());
    }
    for (i, p) in pointers.iter().enumerate() {
        let at = base + header_len + 2 * i;
        page[at..at + 2].copy_from_slice(&p.to_be_bytes());
    }
}

fn schema_row(row_id: u8, kind: &str, name: &str, rootpage: u8, sql: &str) -> Vec<u8> {
    let text = |s: &str| (13 + 2 * s.len()) as u8;
    let mut body = Vec::new();
    body.extend_from_slice(kind.as_bytes());
    body.extend_from_slice(name.as_bytes());
    body.extend_from_slice(name.as_bytes());
    body.push(rootpage);
    body.extend_from_slice(sql.as_bytes());
    let rec = record(&[text(kind), text(name), text(name), 1, text(sql)], &body);
    leaf_cell(row_id, &rec)
}

const APPLES_SQL: &str = "CREATE TABLE apples (id INTEGER PRIMARY KEY, name TEXT)";

fn file_header(page: &mut [u8]) {
    page[..16].copy_from_slice(b"SQLite format 3\0");
    page[16..18].copy_from_slice(&(PAGE as u16).to_be_bytes());
}

fn fruit_row(row_id: u8, name: &str) -> Vec<u8> {
    leaf_cell(row_id, &record(&[0, (13 + 2 * name.len()) as u8], name.as_bytes()))
}

/// One table `apples(id INTEGER PRIMARY KEY, name TEXT)` holding
/// `(1, "red")` and `(2, "green")` on a single leaf page.
fn apples_image() -> Vec<u8> {
    let mut image = vec![0u8; 2 * PAGE];
    file_header(&mut image[..PAGE]);
    let catalog = vec![schema_row(1, "table", "apples", 2, APPLES_SQL)];
    write_btree_page(&mut image[..PAGE], 100, 0x0d, &catalog, None);
    let rows = vec![fruit_row(1, "red"), fruit_row(2, "green")];
    write_btree_page(&mut image[PAGE..], 0, 0x0d, &rows, None);
    image
}

/// `apples` spread over three pages: an interior root (page 2) whose one
/// cell points at page 3 (two rows) and whose rightmost child is page 4 (one
/// row); `loop_t` is an interior page that is its own rightmost child; an
/// index `idx` on page 5; `empty_t` with root page 0.
fn tree_image() -> Vec<u8> {
    let mut image = vec![0u8; 5 * PAGE];
    file_header(&mut image[..PAGE]);
    let catalog = vec![
        schema_row(1, "table", "apples", 2, APPLES_SQL),
        schema_row(2, "index", "idx", 5, "CREATE INDEX idx ON apples(name)"),
        schema_row(3, "table", "loop_t", 5, "CREATE TABLE loop_t (a TEXT)"),
        schema_row(4, "table", "empty_t", 0, "CREATE TABLE empty_t (a TEXT)"),
        schema_row(5, "table", "indexed", 6, "CREATE TABLE indexed (a TEXT)"),
    ];
    write_btree_page(&mut image[..PAGE], 100, 0x0d, &catalog, None);
    let interior_cell = vec![0, 0, 0, 3, 2];
    write_btree_page(&mut image[PAGE..2 * PAGE], 0, 0x05, &[interior_cell], Some(4));
    let left = vec![fruit_row(1, "red"), fruit_row(2, "green")];
    write_btree_page(&mut image[2 * PAGE..3 * PAGE], 0, 0x0d, &left, None);
    write_btree_page(&mut image[3 * PAGE..4 * PAGE], 0, 0x0d, &[fruit_row(3, "blue")], None);
    write_btree_page(&mut image[4 * PAGE..5 * PAGE], 0, 0x05, &[], Some(5));
    image
}

fn open(image: Vec<u8>) -> Sqlite {
    Sqlite::open("/data/sample.db".to_string(), image).unwrap()
}

fn run(db: &Sqlite, sql: &str) -> Result<Vec<Vec<String>>, Error> {
    let statement = parse_sql(sql).unwrap();
    QueryExecutor
        .execute(db, statement)
        .map(|r| r.rows.into_iter().map(|row| row.values).collect())
}

#[test]
fn select_name_gives_rows_in_order() {
    let db = open(apples_image());
    assert_eq!(run(&db, "SELECT name FROM apples").unwrap(), vec![vec!["red"], vec!["green"]]);
}

#[test]
fn count_of_single_leaf_table() {
    let db = open(apples_image());
    assert_eq!(run(&db, "SELECT COUNT(*) FROM apples").unwrap(), vec![vec!["2"]]);
}

#[test]
fn bad_magic_fails_before_any_page() {
    let mut image = apples_image();
    image[0] = b's';
    assert!(matches!(Sqlite::open("x.db".to_string(), image), Err(Error::InvalidMagic)));
    let header_only = b"SQLite format 2\0".to_vec();
    let mut short = header_only.clone();
    short.resize(100, 0);
    assert!(matches!(Sqlite::open("x.db".to_string(), short), Err(Error::InvalidMagic)));
}

#[test]
fn missing_column_names_table_and_column() {
    let db = open(apples_image());
    match run(&db, "SELECT color FROM apples") {
        Err(Error::ColumnNotFound { table, column }) => {
            assert_eq!(table, "apples");
            assert_eq!(column, "color");
        }
        other => panic!("unexpected {:?}", other),
    }
}

#[test]
fn open_time_errors() {
    assert!(matches!(Sqlite::open("x".to_string(), vec![0; 99]), Err(Error::TooSmallForHeader)));
    let mut image = apples_image();
    image.truncate(PAGE - 1);
    assert!(matches!(Sqlite::open("x".to_string(), image), Err(Error::TooSmallForFirstPage)));
    let mut image = apples_image();
    image[16..18].copy_from_slice(&1000u16.to_be_bytes());
    assert!(matches!(
        Sqlite::open("x".to_string(), image),
        Err(Error::InvalidPageSize { raw: 1000 })
    ));
}

#[test]
fn session_surface() {
    let db = open(apples_image());
    assert_eq!(db.page_size(), 4096);
    assert_eq!(db.table_count(), 1);
    assert_eq!(db.table_names().unwrap(), vec!["apples".to_string()]);
    assert_eq!(db.file_name(), "sample.db");
    assert_eq!(db.header.page_size_bytes(), 4096);
    let header = DbHeader::parse_from(&apples_image()).unwrap();
    assert_eq!(header.raw.len(), 100);
}

#[test]
fn find_table_twice_gives_equal_results() {
    let db = open(tree_image());
    let first = db.schema_page.find_table("apples").unwrap();
    let second = db.schema_page.find_table("apples").unwrap();
    assert_eq!(first, second);
    let rec = first.unwrap();
    assert_eq!(rec.rootpage, 2);
    assert_eq!(rec.sql, APPLES_SQL);
    assert_eq!(rec.tbl_name, "apples");
    assert_eq!(db.schema_page.find_table("idx").unwrap(), None);
    assert_eq!(db.schema_page.find_table("Apples").unwrap(), None);
    assert_eq!(
        db.schema_page.table_names().unwrap(),
        vec!["apples", "loop_t", "empty_t", "indexed"]
    );
    assert_eq!(db.table_count(), 5);
}

#[test]
fn count_walks_interior_pages() {
    let db = open(tree_image());
    assert_eq!(run(&db, "SELECT COUNT(*) FROM apples").unwrap(), vec![vec!["3"]]);
}

#[test]
fn count_of_cyclic_tree_is_too_deep() {
    let db = open(tree_image());
    assert!(matches!(run(&db, "SELECT COUNT(*) FROM loop_t"), Err(Error::TreeTooDeep)));
}

#[test]
fn projection_needs_leaf_root() {
    let db = open(tree_image());
    assert!(matches!(run(&db, "SELECT name FROM apples"), Err(Error::ExpectedLeafPage)));
}

#[test]
fn root_page_zero_is_an_empty_table() {
    let db = open(tree_image());
    assert_eq!(run(&db, "SELECT COUNT(*) FROM empty_t").unwrap(), Vec::<Vec<String>>::new());
    assert_eq!(run(&db, "SELECT a FROM empty_t").unwrap(), Vec::<Vec<String>>::new());
}

#[test]
fn query_errors() {
    let db = open(apples_image());
    match run(&db, "SELECT COUNT(*) FROM pears") {
        Err(Error::TableNotFound { table }) => assert_eq!(table, "pears"),
        other => panic!("unexpected {:?}", other),
    }
    assert!(matches!(
        run(&db, "SELECT id FROM apples"),
        Err(Error::UnsupportedColumnType { index: 0 })
    ));
    let db = open(tree_image());
    assert!(matches!(
        run(&db, "SELECT COUNT(*) FROM indexed"),
        Err(Error::UnexpectedEndOfFile { page: 6 })
    ));
}

#[test]
fn projection_of_several_columns() {
    let db = open(apples_image());
    let stmt = Statement::SelectStmt {
        count_only: false,
        columns: vec!["name".to_string(), "name".to_string()],
        table_name: "apples".to_string(),
    };
    let result = QueryExecutor.execute(&db, stmt).unwrap();
    assert_eq!(result.rows[1].values, vec!["green".to_string(), "green".to_string()]);
}

#[test]
fn page_dispatch_by_first_byte() {
    let mut buf = vec![0u8; 64];
    for (tag, kind) in [
        (0x0du8, PageType::LeafTable),
        (0x0a, PageType::LeafIndex),
        (0x05, PageType::InteriorTable),
        (0x02, PageType::InteriorIndex),
    ] {
        buf[0] = tag;
        let page = BTreePage::parse(&buf).unwrap();
        let found = match page {
            BTreePage::LeafTable(_) => PageType::LeafTable,
            BTreePage::LeafIndex(_) => PageType::LeafIndex,
            BTreePage::InteriorTable(_) => PageType::InteriorTable,
            BTreePage::InteriorIndex(_) => PageType::InteriorIndex,
        };
        assert_eq!(found, kind);
        assert_eq!(page.cell_count(), 0);
    }
    for tag in [0x00u8, 0x01, 0x0b, 0x0e, 0xff] {
        buf[0] = tag;
        assert_eq!(BTreePage::parse(&buf), Err(Error::InvalidPageType { byte: tag }));
    }
    assert_eq!(BTreePage::parse(&[0x13]), Err(Error::InvalidPageType { byte: 0x13 }));
    assert_eq!(BTreePage::parse(&[0x0d, 0, 0]), Err(Error::HeaderTooShort));
    assert_eq!(BTreePage::parse(&[0x05, 0, 0, 0, 0, 0, 0, 0, 0]), Err(Error::HeaderTooShort));
    assert_eq!(BTreePage::parse(&[]), Err(Error::HeaderTooShort));
}

#[test]
fn page_header_fields() {
    let image = tree_image();
    let page = BTreePage::parse(&image[PAGE..2 * PAGE]).unwrap();
    assert!(!page.is_leaf());
    assert!(page.is_table_page());
    assert_eq!(page.cells().len(), 1);
    match page {
        BTreePage::InteriorTable(p) => assert_eq!(p.rightmost_pointer, 4),
        other => panic!("unexpected {:?}", other),
    }
    // Three cells announced, room for one pointer only.
    let buf = [0x0d, 0, 0, 0, 3, 0, 0, 0, 0x10, 0x00];
    assert_eq!(BTreePage::parse(&buf), Err(Error::CellPointerOutOfBounds { cell: 1 }));
}

#[test]
fn catalog_page_checks() {
    let image = apples_image();
    let page1 = image[100..PAGE].to_vec();
    let root = RootPage::init(page1).unwrap();
    assert_eq!(root.table_count(), 1);
    assert!(root.cells()[0] < (PAGE - 100) as u16);
    let mut wrong = image[100..PAGE].to_vec();
    wrong[0] = 0x05;
    assert!(matches!(RootPage::init(wrong), Err(Error::UnexpectedPageKind { tag: 0x05 })));
    let mut pointer_in_header = image[100..PAGE].to_vec();
    pointer_in_header[8..10].copy_from_slice(&50u16.to_be_bytes());
    assert!(matches!(
        RootPage::init(pointer_in_header),
        Err(Error::CellPointerOutOfBounds { cell: 0 })
    ));
}

#[test]
fn pager_reads_pages() {
    let image = apples_image();
    let pager = Pager::new(image.clone(), PAGE);
    let mut buf = vec![0u8; PAGE];
    pager.read(PageNumber::new(2).unwrap(), &mut buf).unwrap();
    assert_eq!(buf, image[PAGE..].to_vec());
    let mut short = vec![0u8; 10];
    assert!(matches!(
        pager.read(PageNumber::new(1).unwrap(), &mut short),
        Err(Error::BufferSizeMismatch { expected: 4096, found: 10 })
    ));
    assert!(matches!(
        pager.read(PageNumber::new(3).unwrap(), &mut buf),
        Err(Error::UnexpectedEndOfFile { page: 3 })
    ));
    assert!(matches!(
        pager.read(PageNumber::new(1_000_000).unwrap(), &mut buf),
        Err(Error::PageOutOfRange { page: 1_000_000 })
    ));
    assert!(PageNumber::new(0).is_err());
    assert_eq!(PageNumber::new(9).unwrap().value(), 9);
}

#[test]
fn page_kind_parsers() {
    let image = tree_image();
    let interior = &image[PAGE..2 * PAGE];
    let p = InteriorTablePage::parse(interior).unwrap();
    assert_eq!(p.rightmost_pointer, 4);
    assert_eq!(p.cell_count, 1);
    let cell = InteriorTableCell::parse(interior, p.cell_pointers[0]).unwrap();
    assert_eq!(cell, InteriorTableCell { left_child: 3, key: 2 });
    assert_eq!(
        InteriorTableCell::parse(interior, (PAGE - 2) as u16),
        Err(Error::CellOutOfBounds { offset: (PAGE - 2) as u16 })
    );
    assert!(matches!(LeafTablePage::parse(interior), Err(Error::UnexpectedPageKind { tag: 0x05 })));
    let leaf = LeafTablePage::parse(&image[2 * PAGE..3 * PAGE]).unwrap();
    assert_eq!(leaf.cell_pointers.len(), 2);
    let mut index_leaf = vec![0u8; 16];
    index_leaf[0] = 0x0a;
    assert_eq!(LeafIndexPage::parse(&index_leaf).unwrap().cell_count, 0);
    index_leaf[0] = 0x02;
    index_leaf[8..12].copy_from_slice(&7u32.to_be_bytes());
    assert_eq!(InteriorIndexPage::parse(&index_leaf).unwrap().rightmost_pointer, 7);
}

#[test]
fn schema_rows_and_column_resolution() {
    let image = apples_image();
    let page = &image[PAGE..];
    let cell = LeafTableCell::parse(page, (PAGE - 8) as u16).unwrap();
    assert_eq!(
        SchemaMasterRecord::from_cell(page, &cell),
        Err(Error::SchemaColumnCount { columns: 2 })
    );
    let (name, columns) = TableSchemaParser::parse_create_table_sql(APPLES_SQL).unwrap();
    let schema = TableSchema { name, columns, rootpage: 2 };
    let wanted = vec!["name".to_string(), "id".to_string(), "name".to_string()];
    assert_eq!(schema.resolve_column_indices(&wanted).unwrap(), vec![1, 0, 1]);
    let resolved = schema.resolve_columns(&wanted).unwrap();
    assert_eq!(resolved[1].name, "id");
    let missing = vec!["id".to_string(), "color".to_string(), "size".to_string()];
    match schema.resolve_column_indices(&missing) {
        Err(Error::ColumnNotFound { table, column }) => {
            assert_eq!(table, "apples");
            assert_eq!(column, "color");
        }
        other => panic!("unexpected {:?}", other),
    }
}

/// Varint of `v < 2^14`.
fn short_varint(v: usize) -> Vec<u8> {
    if v < 0x80 {
        vec![v as u8]
    } else {
        vec![0x80 | (v >> 7) as u8, (v & 0x7f) as u8]
    }
}

#[test]
fn large_catalog_row_is_not_overflow() {
    // The catalog row's payload is 3970 bytes: above 4096 - 100 - 35 but not
    // above 4096 - 35, so it stays on page 1.
    let mut sql = APPLES_SQL.to_string();
    sql.push_str(&" ".repeat(3945 - sql.len()));
    let mut header = vec![7u8, 23, 25, 25, 1];
    header.extend(short_varint(13 + 2 * sql.len()));
    let mut payload = header;
    payload.extend_from_slice(b"table");
    payload.extend_from_slice(b"apples");
    payload.extend_from_slice(b"apples");
    payload.push(2);
    payload.extend_from_slice(sql.as_bytes());
    assert_eq!(payload.len(), 3970);
    let mut cell = short_varint(payload.len());
    cell.push(1);
    cell.extend(payload);
    let mut image = vec![0u8; 2 * PAGE];
    file_header(&mut image[..PAGE]);
    write_btree_page(&mut image[..PAGE], 100, 0x0d, &[cell], None);
    let rows = vec![fruit_row(1, "red"), fruit_row(2, "green")];
    write_btree_page(&mut image[PAGE..], 0, 0x0d, &rows, None);
    let db = open(image);
    assert_eq!(db.table_names().unwrap(), vec!["apples".to_string()]);
    assert_eq!(run(&db, "SELECT COUNT(*) FROM apples").unwrap(), vec![vec!["2"]]);
    assert_eq!(run(&db, "SELECT name FROM apples").unwrap(), vec![vec!["red"], vec!["green"]]);
}
