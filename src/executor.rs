//! The query executor: `SELECT COUNT(*)` by walking a table's B-tree, and
//! column projection over a table whose root is a leaf page.
use vstd::prelude::*;

use crate::catalog::{catalog_lookup, RootPageView};
use crate::cell::{display_column_at, leaf_cell_at, LeafTableCell};
use crate::db::Sqlite;
use crate::error::Error;
use crate::page::{
    interior_cell_at, page_header_error, page_header_of, BTreePage, InteriorTableCell,
    PageHeaderView, PageType,
};
use crate::pager::page_bytes;
use crate::schema::{
    create_table_of, first_missing, resolved, column_views, ColumnDefinition, ColumnView,
    TableSchema, TableSchemaParser,
};
use crate::sql::{Statement, StatementView};
use crate::text::{decimal_digits, string_views, unsigned_decimal};

verus! {

/// Deepest B-tree that counting walks; deeper trees are taken as corrupt.
pub const MAX_TREE_DEPTH: u64 = 64;

/// One row of output: the requested columns as text.
#[derive(Debug, Clone, PartialEq)]
pub struct QueryRow {
    pub values: Vec<String>,
}

/// The rows of a query's answer.
#[derive(Debug, Clone, PartialEq)]
pub struct QueryResult {
    pub rows: Vec<QueryRow>,
}

/// Rows as values.
pub open spec fn row_views(rows: Seq<QueryRow>) -> Seq<Seq<Seq<char>>> {
    rows.map_values(|row: QueryRow| string_views(row.values@))
}

impl View for QueryResult {
    type V = Seq<Seq<Seq<char>>>;

    open spec fn view(&self) -> Seq<Seq<Seq<char>>> {
        row_views(self.rows@)
    }
}

impl QueryResult {
    /// No rows at all.
    pub fn empty() -> (r: Self)
        ensures
            r@ == Seq::<Seq<Seq<char>>>::empty(),
    {
        let r = Self { rows: Vec::new() };
        assert(r@ =~= Seq::<Seq<Seq<char>>>::empty());
        r
    }

    /// One row holding one value.
    pub fn single_value(value: String) -> (r: Self)
        ensures
            r@ == seq![seq![value@]],
    {
        let ghost v = value@;
        let mut values: Vec<String> = Vec::new();
        values.push(value);
        let mut rows: Vec<QueryRow> = Vec::new();
        rows.push(QueryRow { values });
        let r = Self { rows };
        assert(string_views(r.rows@[0].values@) =~= seq![v]);
        assert(r@ =~= seq![seq![v]]);
        r
    }

    /// The answer to a count: one row holding `count` in base 10.
    pub fn count(count: u64) -> (r: Self)
        ensures
            r@ == seq![seq![decimal_digits(count as nat)]],
    {
        Self::single_value(unsigned_decimal(count))
    }
}

/// `a + b`, unless it does not fit in 64 bits.
pub open spec fn add_rows(a: u64, b: u64) -> Result<u64, Error> {
    if a + b > u64::MAX {
        Err(Error::CountOverflow)
    } else {
        Ok((a + b) as u64)
    }
}

/// Rows in the B-tree rooted at page `n`, met at `depth` (the root is at
/// depth 1): a leaf table page counts its cells, an interior table page adds
/// up its children, the rightmost one last.
pub open spec fn subtree_rows(image: Seq<u8>, page_size: nat, n: u64, depth: nat) -> Result<
    u64,
    Error,
>
    decreases MAX_TREE_DEPTH + 1 - depth, 1int, 0int,
{
    if depth > MAX_TREE_DEPTH {
        Err(Error::TreeTooDeep)
    } else {
        match page_bytes(image, page_size, n) {
            Err(e) => Err(e),
            Ok(b) => match page_header_error(b) {
                Some(e) => Err(e),
                None => {
                    let h = page_header_of(b);
                    if h.page_type == PageType::LeafTable {
                        Ok(h.cell_count as u64)
                    } else if h.page_type == PageType::InteriorTable {
                        match children_rows(
                            image,
                            page_size,
                            b,
                            h.cell_pointers,
                            h.cell_pointers.len() as int,
                            depth,
                        ) {
                            Err(e) => Err(e),
                            Ok(acc) => match subtree_rows(
                                image,
                                page_size,
                                h.rightmost_pointer->0 as u64,
                                depth + 1,
                            ) {
                                Err(e) => Err(e),
                                Ok(k) => add_rows(acc, k),
                            },
                        }
                    } else {
                        Err(Error::ExpectedTablePage)
                    }
                },
            },
        }
    }
}

/// Rows under the children that the first `i` cells of the interior page `b`
/// point at.
pub open spec fn children_rows(
    image: Seq<u8>,
    page_size: nat,
    b: Seq<u8>,
    ptrs: Seq<u16>,
    i: int,
    depth: nat,
) -> Result<u64, Error>
    decreases MAX_TREE_DEPTH + 1 - depth, 0int, i,
{
    if depth > MAX_TREE_DEPTH {
        Err(Error::TreeTooDeep)
    } else if i <= 0 {
        Ok(0)
    } else {
        match children_rows(image, page_size, b, ptrs, i - 1, depth) {
            Err(e) => Err(e),
            Ok(acc) => match interior_cell_at(b, ptrs[i - 1] as int) {
                Err(e) => Err(e),
                Ok(c) => match subtree_rows(image, page_size, c.left_child as u64, depth + 1) {
                    Err(e) => Err(e),
                    Ok(k) => add_rows(acc, k),
                },
            },
        }
    }
}

/// The first `k` requested columns of a record, as output text.
pub open spec fn row_values(
    b: Seq<u8>,
    ts: Seq<crate::record::ColumnType>,
    start: int,
    positions: Seq<int>,
    k: int,
) -> Result<Seq<Seq<char>>, Error>
    decreases k,
{
    if k <= 0 {
        Ok(seq![])
    } else {
        match row_values(b, ts, start, positions, k - 1) {
            Err(e) => Err(e),
            Ok(vs) => match display_column_at(b, ts, start, positions[k - 1]) {
                Err(e) => Err(e),
                Ok(v) => Ok(vs.push(v)),
            },
        }
    }
}

/// The requested columns of the row in the cell at `offset`.
pub open spec fn row_at(b: Seq<u8>, offset: int, positions: Seq<int>) -> Result<
    Seq<Seq<char>>,
    Error,
> {
    match leaf_cell_at(b, offset) {
        Err(e) => Err(e),
        Ok(c) => row_values(b, c.column_types, c.data_start, positions, positions.len() as int),
    }
}

/// The rows of the first `k` cells.
pub open spec fn rows_at(b: Seq<u8>, ptrs: Seq<u16>, positions: Seq<int>, k: int) -> Result<
    Seq<Seq<Seq<char>>>,
    Error,
>
    decreases k,
{
    if k <= 0 {
        Ok(seq![])
    } else {
        match rows_at(b, ptrs, positions, k - 1) {
            Err(e) => Err(e),
            Ok(rs) => match row_at(b, ptrs[k - 1] as int, positions) {
                Err(e) => Err(e),
                Ok(r) => Ok(rs.push(r)),
            },
        }
    }
}

/// Projection of the columns at `positions` over a page: every cell of a
/// leaf table page, in order.
pub open spec fn projection_of(b: Seq<u8>, page: PageHeaderView, positions: Seq<int>) -> Result<
    Seq<Seq<Seq<char>>>,
    Error,
> {
    if page.page_type != PageType::LeafTable {
        Err(Error::ExpectedLeafPage)
    } else {
        rows_at(b, page.cell_pointers, positions, page.cell_pointers.len() as int)
    }
}

/// Positions of column definitions.
pub open spec fn positions_of(cols: Seq<ColumnView>) -> Seq<int> {
    cols.map_values(|c: ColumnView| c.position)
}

/// How a query fails, as values.
pub enum QueryFailure {
    Failed(Error),
    TableNotFound(Seq<char>),
    SchemaMismatch(Seq<char>, Seq<char>),
    ColumnNotFound(Seq<char>, Seq<char>),
}

/// An error, as values.
pub open spec fn failure_of(e: Error) -> QueryFailure {
    match e {
        Error::TableNotFound { table } => QueryFailure::TableNotFound(table@),
        Error::SchemaMismatch { expected, found } => QueryFailure::SchemaMismatch(
            expected@,
            found@,
        ),
        Error::ColumnNotFound { table, column } => QueryFailure::ColumnNotFound(table@, column@),
        _ => QueryFailure::Failed(e),
    }
}

/// A query's outcome, as values.
pub open spec fn outcome_view(r: Result<QueryResult, Error>) -> Result<
    Seq<Seq<Seq<char>>>,
    QueryFailure,
> {
    match r {
        Ok(q) => Ok(q@),
        Err(e) => Err(failure_of(e)),
    }
}

/// Lifts a rows-or-error to an outcome.
pub open spec fn lifted(r: Result<Seq<Seq<Seq<char>>>, Error>) -> Result<
    Seq<Seq<Seq<char>>>,
    QueryFailure,
> {
    match r {
        Ok(rows) => Ok(rows),
        Err(e) => Err(failure_of(e)),
    }
}

/// The answer to `SELECT COUNT(*) FROM table`.
pub open spec fn count_outcome(
    image: Seq<u8>,
    page_size: nat,
    catalog: RootPageView,
    table: Seq<char>,
) -> Result<Seq<Seq<Seq<char>>>, QueryFailure> {
    match catalog_lookup(catalog.buffer, catalog.cell_pointers, table) {
        Err(e) => Err(failure_of(e)),
        Ok(None) => Err(QueryFailure::TableNotFound(table)),
        Ok(Some(rec)) => if rec.rootpage <= 0 {
            Ok(seq![])
        } else {
            match subtree_rows(image, page_size, rec.rootpage as u64, 1) {
                Err(e) => Err(failure_of(e)),
                Ok(n) => Ok(seq![seq![decimal_digits(n as nat)]]),
            }
        },
    }
}

/// The answer to `SELECT columns FROM table`.
pub open spec fn projection_outcome(
    image: Seq<u8>,
    page_size: nat,
    catalog: RootPageView,
    table: Seq<char>,
    columns: Seq<Seq<char>>,
) -> Result<Seq<Seq<Seq<char>>>, QueryFailure> {
    match catalog_lookup(catalog.buffer, catalog.cell_pointers, table) {
        Err(e) => Err(failure_of(e)),
        Ok(None) => Err(QueryFailure::TableNotFound(table)),
        Ok(Some(rec)) => match create_table_of(rec.sql) {
            None => Err(failure_of(Error::InvalidCreateTable)),
            Some((name, cols)) => if name != table {
                Err(QueryFailure::SchemaMismatch(table, name))
            } else {
                match first_missing(cols, columns) {
                    Some(m) => Err(QueryFailure::ColumnNotFound(name, m)),
                    None => if rec.rootpage <= 0 {
                        Ok(seq![])
                    } else {
                        match page_bytes(image, page_size, rec.rootpage as u64) {
                            Err(e) => Err(failure_of(e)),
                            Ok(b) => match page_header_error(b) {
                                Some(e) => Err(failure_of(e)),
                                None => lifted(
                                    projection_of(
                                        b,
                                        page_header_of(b),
                                        positions_of(resolved(cols, columns)),
                                    ),
                                ),
                            },
                        }
                    },
                }
            },
        },
    }
}

/// The answer to a statement.
pub open spec fn statement_outcome(
    image: Seq<u8>,
    page_size: nat,
    catalog: RootPageView,
    st: StatementView,
) -> Result<Seq<Seq<Seq<char>>>, QueryFailure> {
    if st.count_only {
        count_outcome(image, page_size, catalog, st.table_name)
    } else {
        projection_outcome(image, page_size, catalog, st.table_name, st.columns)
    }
}

/// Runs statements against an open database.
pub struct QueryExecutor;

impl QueryExecutor {
    /// Answers `statement`: a count or a projection.
    pub fn execute(&self, sqlite: &Sqlite, statement: Statement) -> (r: Result<QueryResult, Error>)
        ensures
            outcome_view(r) == statement_outcome(
                sqlite.pager.input@,
                sqlite.pager.page_size as nat,
                sqlite.schema_page@,
                statement@,
            ),
    {
        match statement {
            Statement::SelectStmt { count_only, columns, table_name } => {
                if count_only {
                    self.execute_count(sqlite, table_name.as_str())
                } else {
                    self.execute_select_columns(sqlite, table_name.as_str(), columns.as_slice())
                }
            },
        }
    }

    /// `SELECT COUNT(*) FROM table_name`: every row of the table's B-tree.
    pub fn execute_count(&self, sqlite: &Sqlite, table_name: &str) -> (r: Result<
        QueryResult,
        Error,
    >)
        ensures
            outcome_view(r) == count_outcome(
                sqlite.pager.input@,
                sqlite.pager.page_size as nat,
                sqlite.schema_page@,
                table_name@,
            ),
    {
        let record = match sqlite.schema_page.find_table(table_name) {
            Ok(Some(rec)) => rec,
            Ok(None) => return Err(Error::TableNotFound { table: table_name.to_owned() }),
            Err(e) => return Err(e),
        };
        if record.rootpage <= 0 {
            return Ok(QueryResult::empty());
        }
        match self.count_subtree(sqlite, record.rootpage as u64, 1) {
            Ok(n) => Ok(QueryResult::count(n)),
            Err(e) => Err(e),
        }
    }

    /// Rows in the B-tree rooted at page `page_number`, met at `depth`.
    fn count_subtree(&self, sqlite: &Sqlite, page_number: u64, depth: u64) -> (r: Result<
        u64,
        Error,
    >)
        ensures
            r == subtree_rows(
                sqlite.pager.input@,
                sqlite.pager.page_size as nat,
                page_number,
                depth as nat,
            ),
        decreases MAX_TREE_DEPTH + 1 - depth,
    {
        let ghost image = sqlite.pager.input@;
        let ghost size = sqlite.pager.page_size as nat;
        if depth > MAX_TREE_DEPTH {
            return Err(Error::TreeTooDeep);
        }
        let buffer = match sqlite.load_page(page_number) {
            Ok(b) => b,
            Err(e) => return Err(e),
        };
        let page = match BTreePage::parse(buffer.as_slice()) {
            Ok(p) => p,
            Err(e) => return Err(e),
        };
        match page {
            BTreePage::LeafTable(p) => Ok(p.cell_count as u64),
            BTreePage::InteriorTable(p) => {
                let ghost b = buffer@;
                let ghost ptrs = p.cell_pointers@;
                let mut acc: u64 = 0;
                let mut i: usize = 0;
                while i < p.cell_pointers.len()
                    invariant
                        page_bytes(image, size, page_number) == Ok::<Seq<u8>, Error>(b),
                        page_header_error(b) is None,
                        page_header_of(b) == p.view_header(),
                        image == sqlite.pager.input@,
                        size == sqlite.pager.page_size as nat,
                        depth <= MAX_TREE_DEPTH,
                        b == buffer@,
                        ptrs == p.cell_pointers@,
                        i <= ptrs.len(),
                        children_rows(image, size, b, ptrs, i as int, depth as nat) == Ok::<
                            u64,
                            Error,
                        >(acc),
                    decreases ptrs.len() - i,
                {
                    let cell = match InteriorTableCell::parse(buffer.as_slice(), p.cell_pointers[i]) {
                        Ok(c) => c,
                        Err(e) => {
                            proof {
                                lemma_children_fail_later(image, size, b, ptrs, i + 1, depth as nat);
                            }
                            return Err(e);
                        },
                    };
                    let k = match self.count_subtree(sqlite, cell.left_child as u64, depth + 1) {
                        Ok(k) => k,
                        Err(e) => {
                            proof {
                                lemma_children_fail_later(image, size, b, ptrs, i + 1, depth as nat);
                            }
                            return Err(e);
                        },
                    };
                    if k > u64::MAX - acc {
                        proof {
                            lemma_children_fail_later(image, size, b, ptrs, i + 1, depth as nat);
                        }
                        return Err(Error::CountOverflow);
                    }
                    acc = acc + k;
                    i = i + 1;
                }
                let k = match self.count_subtree(sqlite, p.rightmost_pointer as u64, depth + 1) {
                    Ok(k) => k,
                    Err(e) => return Err(e),
                };
                if k > u64::MAX - acc {
                    return Err(Error::CountOverflow);
                }
                Ok(acc + k)
            },
            _ => Err(Error::ExpectedTablePage),
        }
    }

    /// `SELECT columns FROM table_name`: the requested columns of every row,
    /// in cell order, from a table whose root is a leaf page.
    pub fn execute_select_columns(
        &self,
        sqlite: &Sqlite,
        table_name: &str,
        columns: &[String],
    ) -> (r: Result<QueryResult, Error>)
        ensures
            outcome_view(r) == projection_outcome(
                sqlite.pager.input@,
                sqlite.pager.page_size as nat,
                sqlite.schema_page@,
                table_name@,
                string_views(columns@),
            ),
    {
        let record = match sqlite.schema_page.find_table(table_name) {
            Ok(Some(rec)) => rec,
            Ok(None) => return Err(Error::TableNotFound { table: table_name.to_owned() }),
            Err(e) => return Err(e),
        };
        let (parsed_table_name, column_definitions) =
            match TableSchemaParser::parse_create_table_sql(record.sql.as_str()) {
            Ok(v) => v,
            Err(e) => return Err(e),
        };
        let wanted = table_name.to_owned();
        if parsed_table_name != wanted {
            return Err(Error::SchemaMismatch { expected: wanted, found: parsed_table_name });
        }
        let table_schema = TableSchema {
            name: parsed_table_name,
            columns: column_definitions,
            rootpage: record.rootpage,
        };
        proof {
            assert(table_schema.columns_view() == column_views(table_schema.columns@));
        }
        let resolved_columns = match table_schema.resolve_columns(columns) {
            Ok(c) => c,
            Err(e) => return Err(e),
        };
        if record.rootpage <= 0 {
            return Ok(QueryResult::empty());
        }
        let page_buffer = match sqlite.load_page(record.rootpage as u64) {
            Ok(b) => b,
            Err(e) => return Err(e),
        };
        let table_page = match BTreePage::parse(page_buffer.as_slice()) {
            Ok(p) => p,
            Err(e) => return Err(e),
        };
        let r = self.execute_projection(&table_page, page_buffer.as_slice(), resolved_columns.as_slice());
        proof {
            assert(positions_of(column_views(resolved_columns@)) == positions_of(
                resolved(column_views(table_schema.columns@), string_views(columns@)),
            ));
        }
        r
    }

    /// The columns of `column_definitions` (by position) from every cell of
    /// `table_page`, which must be a leaf table page, in cell order.
    pub fn execute_projection(
        &self,
        table_page: &BTreePage,
        page_buffer: &[u8],
        column_definitions: &[ColumnDefinition],
    ) -> (r: Result<QueryResult, Error>)
        ensures
            match projection_of(
                page_buffer@,
                table_page@,
                positions_of(column_views(column_definitions@)),
            ) {
                Ok(rows) => r matches Ok(q) && q@ == rows,
                Err(e) => r == Err::<QueryResult, Error>(e),
            },
    {
        let leaf = match table_page {
            BTreePage::LeafTable(p) => p,
            _ => return Err(Error::ExpectedLeafPage),
        };
        let ghost positions = positions_of(column_views(column_definitions@));
        let ghost ptrs = leaf.cell_pointers@;
        let mut rows: Vec<QueryRow> = Vec::new();
        assert(row_views(rows@) =~= seq![]);
        assert(table_page@ == leaf.view_header());
        let mut i: usize = 0;
        while i < leaf.cell_pointers.len()
            invariant
                ptrs == leaf.cell_pointers@,
                table_page@ == leaf.view_header(),
                positions == positions_of(column_views(column_definitions@)),
                i <= ptrs.len(),
                rows_at(page_buffer@, ptrs, positions, i as int) == Ok::<
                    Seq<Seq<Seq<char>>>,
                    Error,
                >(row_views(rows@)),
            decreases ptrs.len() - i,
        {
            let cell = match LeafTableCell::parse(page_buffer, leaf.cell_pointers[i]) {
                Ok(c) => c,
                Err(e) => {
                    proof {
                        lemma_rows_fail_later(page_buffer@, ptrs, positions, i as int + 1);
                    }
                    return Err(e);
                },
            };
            let values = match self.row_values(&cell, page_buffer, column_definitions) {
                Ok(v) => v,
                Err(e) => {
                    proof {
                        lemma_rows_fail_later(page_buffer@, ptrs, positions, i as int + 1);
                    }
                    return Err(e);
                },
            };
            let ghost before = rows@;
            rows.push(QueryRow { values });
            proof {
                assert(row_views(rows@) =~= row_views(before).push(string_views(values@)));
            }
            i = i + 1;
        }
        Ok(QueryResult { rows })
    }

    fn row_values(
        &self,
        cell: &LeafTableCell,
        page_buffer: &[u8],
        column_definitions: &[ColumnDefinition],
    ) -> (r: Result<Vec<String>, Error>)
        ensures
            match row_values(
                page_buffer@,
                cell.types(),
                cell.start(),
                positions_of(column_views(column_definitions@)),
                column_definitions@.len() as int,
            ) {
                Ok(vs) => r matches Ok(v) && string_views(v@) == vs,
                Err(e) => r == Err::<Vec<String>, Error>(e),
            },
    {
        let ghost positions = positions_of(column_views(column_definitions@));
        let mut values: Vec<String> = Vec::new();
        assert(string_views(values@) =~= seq![]);
        let mut j: usize = 0;
        while j < column_definitions.len()
            invariant
                positions == positions_of(column_views(column_definitions@)),
                j <= column_definitions@.len(),
                row_values(page_buffer@, cell.types(), cell.start(), positions, j as int) == Ok::<
                    Seq<Seq<char>>,
                    Error,
                >(string_views(values@)),
            decreases column_definitions@.len() - j,
        {
            assert(positions[j as int] == column_definitions@[j as int].position as int);
            let v = match cell.display_column(page_buffer, column_definitions[j].position) {
                Ok(v) => v,
                Err(e) => {
                    proof {
                        lemma_values_fail_later(
                            page_buffer@,
                            cell.types(),
                            cell.start(),
                            positions,
                            j as int + 1,
                        );
                    }
                    return Err(e);
                },
            };
            let ghost before = values@;
            values.push(v);
            proof {
                assert(string_views(values@) =~= string_views(before).push(v@));
            }
            j = j + 1;
        }
        Ok(values)
    }
}

proof fn lemma_children_fail_later(
    image: Seq<u8>,
    page_size: nat,
    b: Seq<u8>,
    ptrs: Seq<u16>,
    i: int,
    depth: nat,
)
    requires
        1 <= i <= ptrs.len(),
        depth <= MAX_TREE_DEPTH,
        children_rows(image, page_size, b, ptrs, i, depth) is Err,
    ensures
        children_rows(image, page_size, b, ptrs, ptrs.len() as int, depth) == children_rows(
            image,
            page_size,
            b,
            ptrs,
            i,
            depth,
        ),
    decreases ptrs.len() - i,
{
    if i < ptrs.len() {
        lemma_children_fail_later(image, page_size, b, ptrs, i + 1, depth);
    }
}

proof fn lemma_rows_fail_later(b: Seq<u8>, ptrs: Seq<u16>, positions: Seq<int>, k: int)
    requires
        1 <= k <= ptrs.len(),
        rows_at(b, ptrs, positions, k) is Err,
    ensures
        rows_at(b, ptrs, positions, ptrs.len() as int) == rows_at(b, ptrs, positions, k),
    decreases ptrs.len() - k,
{
    if k < ptrs.len() {
        lemma_rows_fail_later(b, ptrs, positions, k + 1);
    }
}

proof fn lemma_values_fail_later(
    b: Seq<u8>,
    ts: Seq<crate::record::ColumnType>,
    start: int,
    positions: Seq<int>,
    k: int,
)
    requires
        1 <= k <= positions.len(),
        row_values(b, ts, start, positions, k) is Err,
    ensures
        row_values(b, ts, start, positions, positions.len() as int) == row_values(
            b,
            ts,
            start,
            positions,
            k,
        ),
    decreases positions.len() - k,
{
    if k < positions.len() {
        lemma_values_fail_later(b, ts, start, positions, k + 1);
    }
}

} // verus!
