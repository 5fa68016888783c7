//! Table schemas read from the `CREATE TABLE` text stored in the catalog.
//!
//! Grammar (keywords in any case, `ws` is space, tab, CR or LF, and any
//! Unicode white space may come first):
//! `CREATE ws+ TABLE ws+ name ws* ( column (, column)* ws* )`, where a
//! column is `ws* name ws+ type ws* [PRIMARY ws+ KEY]` followed by anything
//! up to the next `,` or `)`, a type is one of INTEGER, TEXT, REAL, BLOB,
//! NUMERIC (matched as a prefix, in that order), and a name is a run of ASCII
//! letters, digits and `_`. Whatever follows the closing `)` is not read.
use vstd::prelude::*;

use crate::error::Error;
use crate::scan::{
    char_at, char_at_exec, keyword_at, keyword_at_exec, lemma_skip_spaces_bounds,
    lemma_word_end_bounds, skip_spaces, skip_spaces_from, skip_white_space, skip_white_space_from, word_end,
    word_end_from,
};
use crate::text::{chars_of, string_views, to_upper, upper_of};

verus! {

/// SQL data types supported by SQLite.
#[derive(Debug, Clone, Copy, PartialEq, Eq, Structural)]
pub enum SqlType {
    Integer,
    Text,
    Real,
    Blob,
    Numeric,
}

pub open spec fn kw_integer() -> Seq<char> {
    seq!['I', 'N', 'T', 'E', 'G', 'E', 'R']
}

pub open spec fn kw_text() -> Seq<char> {
    seq!['T', 'E', 'X', 'T']
}

pub open spec fn kw_real() -> Seq<char> {
    seq!['R', 'E', 'A', 'L']
}

pub open spec fn kw_blob() -> Seq<char> {
    seq!['B', 'L', 'O', 'B']
}

pub open spec fn kw_numeric() -> Seq<char> {
    seq!['N', 'U', 'M', 'E', 'R', 'I', 'C']
}

/// The type whose upper-case name is exactly `s`.
pub open spec fn sql_type_spelled(s: Seq<char>) -> Option<SqlType> {
    if s == kw_integer() {
        Some(SqlType::Integer)
    } else if s == kw_text() {
        Some(SqlType::Text)
    } else if s == kw_real() {
        Some(SqlType::Real)
    } else if s == kw_blob() {
        Some(SqlType::Blob)
    } else if s == kw_numeric() {
        Some(SqlType::Numeric)
    } else {
        None
    }
}

/// The type keyword that starts at `i`, and where it ends.
pub open spec fn type_keyword_at(s: Seq<char>, i: int) -> Option<(SqlType, int)> {
    if keyword_at(s, i, kw_integer()) {
        Some((SqlType::Integer, i + 7))
    } else if keyword_at(s, i, kw_text()) {
        Some((SqlType::Text, i + 4))
    } else if keyword_at(s, i, kw_real()) {
        Some((SqlType::Real, i + 4))
    } else if keyword_at(s, i, kw_blob()) {
        Some((SqlType::Blob, i + 4))
    } else if keyword_at(s, i, kw_numeric()) {
        Some((SqlType::Numeric, i + 7))
    } else {
        None
    }
}

fn sql_type(s: &Vec<char>, i: usize) -> (r: Option<(SqlType, usize)>)
    requires
        i <= s@.len(),
    ensures
        match type_keyword_at(s@, i as int) {
            Some((t, e)) => r == Some((t, e as usize)),
            None => r is None,
        },
{
    // Reading the length as a `usize` bounds every position below.
    let _len = s.len();
    let integer_kw = ['I', 'N', 'T', 'E', 'G', 'E', 'R'];
    let text_kw = ['T', 'E', 'X', 'T'];
    let real_kw = ['R', 'E', 'A', 'L'];
    let blob_kw = ['B', 'L', 'O', 'B'];
    let numeric_kw = ['N', 'U', 'M', 'E', 'R', 'I', 'C'];
    assert(integer_kw@ =~= kw_integer());
    assert(text_kw@ =~= kw_text());
    assert(real_kw@ =~= kw_real());
    assert(blob_kw@ =~= kw_blob());
    assert(numeric_kw@ =~= kw_numeric());
    if keyword_at_exec(s, i, &integer_kw) {
        Some((SqlType::Integer, i + 7))
    } else if keyword_at_exec(s, i, &text_kw) {
        Some((SqlType::Text, i + 4))
    } else if keyword_at_exec(s, i, &real_kw) {
        Some((SqlType::Real, i + 4))
    } else if keyword_at_exec(s, i, &blob_kw) {
        Some((SqlType::Blob, i + 4))
    } else if keyword_at_exec(s, i, &numeric_kw) {
        Some((SqlType::Numeric, i + 7))
    } else {
        None
    }
}

fn same_chars(s: &Vec<char>, word: &[char]) -> (r: bool)
    ensures
        r == (s@ == word@),
{
    if s.len() != word.len() {
        return false;
    }
    let mut i: usize = 0;
    while i < s.len()
        invariant
            s@.len() == word@.len(),
            i <= s@.len(),
            s@.subrange(0, i as int) == word@.subrange(0, i as int),
        decreases s@.len() - i,
    {
        if s[i] != word[i] {
            assert(s@[i as int] != word@[i as int]);
            return false;
        }
        i = i + 1;
        assert(s@.subrange(0, i as int) =~= word@.subrange(0, i as int));
    }
    assert(s@ =~= s@.subrange(0, i as int));
    assert(word@ =~= word@.subrange(0, i as int));
    true
}

impl SqlType {
    /// The type whose name, already in upper case, is exactly `name`.
    pub fn from_upper(name: &str) -> (r: Result<Self, Error>)
        ensures
            match sql_type_spelled(name@) {
                Some(t) => r == Ok::<Self, Error>(t),
                None => r == Err::<Self, Error>(Error::UnsupportedSqlType),
            },
    {
        let s = chars_of(name);
        let integer_kw = ['I', 'N', 'T', 'E', 'G', 'E', 'R'];
        let text_kw = ['T', 'E', 'X', 'T'];
        let real_kw = ['R', 'E', 'A', 'L'];
        let blob_kw = ['B', 'L', 'O', 'B'];
        let numeric_kw = ['N', 'U', 'M', 'E', 'R', 'I', 'C'];
        assert(integer_kw@ =~= kw_integer());
        assert(text_kw@ =~= kw_text());
        assert(real_kw@ =~= kw_real());
        assert(blob_kw@ =~= kw_blob());
        assert(numeric_kw@ =~= kw_numeric());
        if same_chars(&s, &integer_kw) {
            Ok(SqlType::Integer)
        } else if same_chars(&s, &text_kw) {
            Ok(SqlType::Text)
        } else if same_chars(&s, &real_kw) {
            Ok(SqlType::Real)
        } else if same_chars(&s, &blob_kw) {
            Ok(SqlType::Blob)
        } else if same_chars(&s, &numeric_kw) {
            Ok(SqlType::Numeric)
        } else {
            Err(Error::UnsupportedSqlType)
        }
    }

    /// The type named by `type_str` in any case: its upper-case form must be
    /// one of INTEGER, TEXT, REAL, BLOB, NUMERIC.
    pub fn from_str(type_str: &str) -> (r: Result<Self, Error>)
        ensures
            match sql_type_spelled(upper_of(type_str@)) {
                Some(t) => r == Ok::<Self, Error>(t),
                None => r == Err::<Self, Error>(Error::UnsupportedSqlType),
            },
    {
        let upper = to_upper(type_str);
        Self::from_upper(upper.as_str())
    }
}

/// A column definition in a `CREATE TABLE` statement.
#[derive(Debug, Clone, PartialEq)]
pub struct ColumnDefinition {
    pub name: String,
    pub sql_type: SqlType,
    /// 0-based position among the table's columns.
    pub position: usize,
    pub is_primary_key: bool,
}

/// Each column definition, as values.
pub open spec fn column_views(v: Seq<ColumnDefinition>) -> Seq<ColumnView> {
    v.map_values(|c: ColumnDefinition| c@)
}

/// A column definition, as values.
pub struct ColumnView {
    pub name: Seq<char>,
    pub sql_type: SqlType,
    pub position: int,
    pub is_primary_key: bool,
}

impl View for ColumnDefinition {
    type V = ColumnView;

    open spec fn view(&self) -> ColumnView {
        ColumnView {
            name: self.name@,
            sql_type: self.sql_type,
            position: self.position as int,
            is_primary_key: self.is_primary_key,
        }
    }
}

impl ColumnDefinition {
    fn copy(&self) -> (r: Self)
        ensures
            r@ == self@,
    {
        ColumnDefinition {
            name: self.name.clone(),
            sql_type: self.sql_type,
            position: self.position,
            is_primary_key: self.is_primary_key,
        }
    }
}

pub open spec fn kw_primary() -> Seq<char> {
    seq!['P', 'R', 'I', 'M', 'A', 'R', 'Y']
}

pub open spec fn kw_key() -> Seq<char> {
    seq!['K', 'E', 'Y']
}

/// First index from `i` on that holds `,` or `)`, or the end.
pub open spec fn constraint_end(s: Seq<char>, i: int) -> int
    decreases s.len() - i,
{
    if 0 <= i < s.len() && s[i] != ',' && s[i] != ')' {
        constraint_end(s, i + 1)
    } else {
        i
    }
}

pub proof fn lemma_constraint_end_bounds(s: Seq<char>, i: int)
    ensures
        constraint_end(s, i) >= i,
        0 <= i <= s.len() ==> constraint_end(s, i) <= s.len(),
    decreases s.len() - i,
{
    if 0 <= i < s.len() && s[i] != ',' && s[i] != ')' {
        lemma_constraint_end_bounds(s, i + 1);
    }
}

/// `PRIMARY ws+ KEY` at `e`: where it ends.
pub open spec fn primary_key_end(s: Seq<char>, e: int) -> Option<int> {
    if keyword_at(s, e, kw_primary()) && skip_spaces(s, e + 7) > e + 7 && keyword_at(
        s,
        skip_spaces(s, e + 7),
        kw_key(),
    ) {
        Some(skip_spaces(s, e + 7) + 3)
    } else {
        None
    }
}

/// The column definition (name, type, primary key) that starts at `i`, and
/// where it ends: at the next `,` or `)`, or the end of the text.
pub open spec fn column_def_at(s: Seq<char>, i: int) -> Option<(ColumnView, int)> {
    let a = skip_spaces(s, i);
    let b = word_end(s, a);
    let c = skip_spaces(s, b);
    if b == a || c == b {
        None
    } else {
        match type_keyword_at(s, c) {
            None => None,
            Some((t, d)) => {
                let e = skip_spaces(s, d);
                let f = match primary_key_end(s, e) {
                    Some(k) => k,
                    None => e,
                };
                Some(
                    (
                        ColumnView {
                            name: s.subrange(a, b),
                            sql_type: t,
                            position: 0,
                            is_primary_key: primary_key_end(s, e) is Some,
                        },
                        constraint_end(s, f),
                    ),
                )
            },
        }
    }
}

pub proof fn lemma_column_def_advances(s: Seq<char>, i: int)
    requires
        0 <= i <= s.len(),
    ensures
        column_def_at(s, i) matches Some((c, g)) ==> i < g <= s.len(),
{
    let a = skip_spaces(s, i);
    lemma_skip_spaces_bounds(s, i);
    lemma_word_end_bounds(s, a);
    let b = word_end(s, a);
    lemma_skip_spaces_bounds(s, b);
    let c = skip_spaces(s, b);
    if b != a && c != b {
        if let Some((t, d)) = type_keyword_at(s, c) {
            lemma_skip_spaces_bounds(s, d);
            let e = skip_spaces(s, d);
            lemma_skip_spaces_bounds(s, e + 7);
            let f = match primary_key_end(s, e) {
                Some(k) => k,
                None => e,
            };
            lemma_constraint_end_bounds(s, f);
        }
    }
}

/// The column definitions from `i` on, separated by `,`: their list and
/// where the last one ends.
pub open spec fn column_defs_from(s: Seq<char>, i: int) -> Option<(Seq<ColumnView>, int)>
    decreases s.len() - i,
{
    if i < 0 || i > s.len() {
        None
    } else {
        match column_def_at(s, i) {
            None => None,
            Some((c, g)) => {
                proof {
                    lemma_column_def_advances(s, i);
                }
                if char_at(s, g, ',') {
                    match column_defs_from(s, g + 1) {
                        None => None,
                        Some((cs, k)) => Some((seq![c] + cs, k)),
                    }
                } else {
                    Some((seq![c], g))
                }
            },
        }
    }
}

pub open spec fn kw_create() -> Seq<char> {
    seq!['C', 'R', 'E', 'A', 'T', 'E']
}

pub open spec fn kw_table() -> Seq<char> {
    seq!['T', 'A', 'B', 'L', 'E']
}

/// `cs` with each column's position set to its index.
pub open spec fn numbered(cs: Seq<ColumnView>) -> Seq<ColumnView> {
    Seq::new(
        cs.len(),
        |k: int|
            ColumnView {
                name: cs[k].name,
                sql_type: cs[k].sql_type,
                position: k,
                is_primary_key: cs[k].is_primary_key,
            },
    )
}

/// The table name and the column definitions of a `CREATE TABLE` text, if
/// it follows the grammar.
pub open spec fn create_table_of(s: Seq<char>) -> Option<(Seq<char>, Seq<ColumnView>)> {
    let i0 = skip_white_space(s, 0);
    let i2 = skip_spaces(s, i0 + 6);
    let i4 = skip_spaces(s, i2 + 5);
    let e = word_end(s, i4);
    let p = skip_spaces(s, e);
    if keyword_at(s, i0, kw_create()) && i2 > i0 + 6 && keyword_at(s, i2, kw_table()) && i4 > i2
        + 5 && e > i4 && char_at(s, p, '(') {
        match column_defs_from(s, p + 1) {
            Some((cs, g)) => if char_at(s, skip_spaces(s, g), ')') {
                Some((s.subrange(i4, e), numbered(cs)))
            } else {
                None
            },
            None => None,
        }
    } else {
        None
    }
}

/// A table's schema: its name, its columns in order, and its root page.
#[derive(Debug, Clone, PartialEq)]
pub struct TableSchema {
    pub name: String,
    pub columns: Vec<ColumnDefinition>,
    pub rootpage: i64,
}

/// Index of the first column named `name`.
pub open spec fn column_index_of(cols: Seq<ColumnView>, name: Seq<char>) -> Option<int>
    decreases cols.len(),
{
    if cols.len() == 0 {
        None
    } else {
        match column_index_of(cols.drop_last(), name) {
            Some(k) => Some(k),
            None => if cols.last().name == name {
                Some(cols.len() - 1)
            } else {
                None
            },
        }
    }
}

/// The first of `names` that names no column.
pub open spec fn first_missing(cols: Seq<ColumnView>, names: Seq<Seq<char>>) -> Option<Seq<char>>
    decreases names.len(),
{
    if names.len() == 0 {
        None
    } else {
        match first_missing(cols, names.drop_last()) {
            Some(m) => Some(m),
            None => if column_index_of(cols, names.last()) is None {
                Some(names.last())
            } else {
                None
            },
        }
    }
}

/// The column that each of `names` resolves to, in order (where none is missing).
pub open spec fn resolved(cols: Seq<ColumnView>, names: Seq<Seq<char>>) -> Seq<ColumnView> {
    Seq::new(names.len(), |k: int| cols[column_index_of(cols, names[k])->0])
}

impl TableSchema {
    pub open spec fn columns_view(&self) -> Seq<ColumnView> {
        column_views(self.columns@)
    }

    /// Index in `self.columns` of the first column named `name`.
    fn find_column(&self, name: &String) -> (r: Option<usize>)
        ensures
            match r {
                Some(k) => column_index_of(self.columns_view(), name@) == Some(k as int),
                None => column_index_of(self.columns_view(), name@) is None,
            },
            r matches Some(k) ==> k < self.columns@.len(),
    {
        proof {
            lemma_column_index_bound(self.columns_view(), name@);
        }
        let ghost cols = self.columns_view();
        let mut i: usize = 0;
        while i < self.columns.len()
            invariant
                cols == self.columns_view(),
                i <= cols.len(),
                column_index_of(cols.subrange(0, i as int), name@) is None,
            decreases cols.len() - i,
        {
            proof {
                assert(cols.subrange(0, i + 1).drop_last() =~= cols.subrange(0, i as int));
            }
            if self.columns[i].name == *name {
                proof {
                    lemma_index_settled(cols, name@, i + 1);
                }
                return Some(i);
            }
            i = i + 1;
        }
        proof {
            assert(cols.subrange(0, cols.len() as int) =~= cols);
        }
        None
    }

    /// Resolves column names to their positions in the table; the first name
    /// that the table lacks fails with `ColumnNotFound`.
    pub fn resolve_column_indices(&self, column_names: &[String]) -> (r: Result<Vec<usize>, Error>)
        ensures
            match first_missing(self.columns_view(), string_views(column_names@)) {
                Some(m) => r matches Err(Error::ColumnNotFound { table, column }) && table@
                    == self.name@ && column@ == m,
                None => r matches Ok(v) && v@.len() == column_names@.len() && forall|k: int|
                    0 <= k < v@.len() ==> v@[k] as int == (#[trigger] resolved(
                        self.columns_view(),
                        string_views(column_names@),
                    )[k]).position,
            },
    {
        let columns = match self.resolve_columns(column_names) {
            Ok(c) => c,
            Err(e) => return Err(e),
        };
        let mut indices: Vec<usize> = Vec::new();
        let mut i: usize = 0;
        while i < columns.len()
            invariant
                i <= columns@.len(),
                indices@.len() == i,
                forall|k: int| 0 <= k < i ==> indices@[k] == #[trigger] columns@[k].position,
            decreases columns@.len() - i,
        {
            indices.push(columns[i].position);
            i = i + 1;
        }
        proof {
            let rs = resolved(self.columns_view(), string_views(column_names@));
            assert(column_views(columns@) == rs);
            assert forall|k: int| 0 <= k < indices@.len() implies indices@[k] as int == (
            #[trigger] rs[k]).position by {
                assert(column_views(columns@)[k] == columns@[k]@);
            }
        }
        Ok(indices)
    }

    /// Resolves column names to their definitions, in the order asked; the
    /// first name that the table lacks fails with `ColumnNotFound`.
    pub fn resolve_columns(&self, column_names: &[String]) -> (r: Result<
        Vec<ColumnDefinition>,
        Error,
    >)
        ensures
            match first_missing(self.columns_view(), string_views(column_names@)) {
                Some(m) => r matches Err(Error::ColumnNotFound { table, column }) && table@
                    == self.name@ && column@ == m,
                None => r matches Ok(v) && column_views(v@) == resolved(
                    self.columns_view(),
                    string_views(column_names@),
                ),
            },
    {
        let ghost names = string_views(column_names@);
        let ghost cols = self.columns_view();
        let mut out: Vec<ColumnDefinition> = Vec::new();
        let mut i: usize = 0;
        while i < column_names.len()
            invariant
                names == string_views(column_names@),
                cols == self.columns_view(),
                i <= names.len(),
                first_missing(cols, names.subrange(0, i as int)) is None,
                column_views(out@) == resolved(cols, names.subrange(0, i as int)),
            decreases names.len() - i,
        {
            proof {
                assert(names.subrange(0, i + 1).drop_last() =~= names.subrange(0, i as int));
            }
            match self.find_column(&column_names[i]) {
                Some(k) => {
                    let c = self.columns[k].copy();
                    let ghost before = out@;
                    out.push(c);
                    proof {
                        let prefix = names.subrange(0, i + 1);
                        assert(prefix[i as int] == names[i as int]);
                        assert(names[i as int] == column_names@[i as int]@);
                        assert(first_missing(cols, prefix) is None);
                        assert(cols[k as int] == c@);
                        let old_part = names.subrange(0, i as int);
                        assert(column_index_of(cols, prefix[i as int]) == Some(k as int));
                        assert(column_views(before).len() == i);
                        assert(out@ == before.push(c));
                        assert(out@[i as int] == c);
                        assert(column_views(out@)[i as int] == c@);
                        assert(resolved(cols, prefix)[i as int] == cols[k as int]);
                        assert forall|j: int| 0 <= j < i + 1 implies #[trigger] column_views(out@)[j] == resolved(cols, prefix)[j] by {
                            if j < i {
                                assert(prefix[j] == old_part[j]);
                                assert(out@[j] == before[j]);
                                assert(column_views(before)[j] == resolved(
                                    cols,
                                    old_part,
                                )[j]);
                            }
                        }
                        assert(column_views(out@) =~= resolved(cols, prefix));
                    }
                },
                None => {
                    proof {
                        lemma_missing_settled(cols, names, i + 1);
                    }
                    return Err(
                        Error::ColumnNotFound {
                            table: self.name.clone(),
                            column: column_names[i].clone(),
                        },
                    );
                },
            }
            i = i + 1;
        }
        proof {
            assert(names.subrange(0, names.len() as int) =~= names);
        }
        Ok(out)
    }
}

proof fn lemma_column_index_bound(cols: Seq<ColumnView>, name: Seq<char>)
    ensures
        column_index_of(cols, name) matches Some(k) ==> 0 <= k < cols.len() && cols[k].name
            == name,
    decreases cols.len(),
{
    if cols.len() > 0 {
        lemma_column_index_bound(cols.drop_last(), name);
    }
}

proof fn lemma_index_settled(cols: Seq<ColumnView>, name: Seq<char>, i: int)
    requires
        0 <= i <= cols.len(),
        column_index_of(cols.subrange(0, i), name) is Some,
    ensures
        column_index_of(cols, name) == column_index_of(cols.subrange(0, i), name),
    decreases cols.len() - i,
{
    if i < cols.len() {
        assert(cols.subrange(0, i + 1).drop_last() =~= cols.subrange(0, i));
        lemma_index_settled(cols, name, i + 1);
    } else {
        assert(cols.subrange(0, i) =~= cols);
    }
}

proof fn lemma_missing_settled(cols: Seq<ColumnView>, names: Seq<Seq<char>>, i: int)
    requires
        0 <= i <= names.len(),
        first_missing(cols, names.subrange(0, i)) is Some,
    ensures
        first_missing(cols, names) == first_missing(cols, names.subrange(0, i)),
    decreases names.len() - i,
{
    if i < names.len() {
        assert(names.subrange(0, i + 1).drop_last() =~= names.subrange(0, i));
        lemma_missing_settled(cols, names, i + 1);
    } else {
        assert(names.subrange(0, i) =~= names);
    }
}

fn column_definition(sql: &str, s: &Vec<char>, i: usize) -> (r: Option<(ColumnDefinition, usize)>)
    requires
        s@ == sql@,
        i <= s@.len(),
    ensures
        match column_def_at(s@, i as int) {
            Some((c, g)) => r matches Some((d, e)) && d@ == c && e == g,
            None => r is None,
        },
{
    // Reading the length as a `usize` bounds every position below.
    let _len = s.len();
    let a = skip_spaces_from(s, i);
    let b = word_end_from(s, a);
    let c = skip_spaces_from(s, b);
    if b == a || c == b {
        return None;
    }
    let (sql_type, d) = match sql_type(s, c) {
        Some(v) => v,
        None => return None,
    };
    proof {
        lemma_skip_spaces_bounds(s@, d as int);
    }
    let e = skip_spaces_from(s, d);
    let primary = ['P', 'R', 'I', 'M', 'A', 'R', 'Y'];
    let key = ['K', 'E', 'Y'];
    assert(primary@ =~= kw_primary());
    assert(key@ =~= kw_key());
    let mut f = e;
    let mut is_primary_key = false;
    if keyword_at_exec(s, e, &primary) {
        let k = skip_spaces_from(s, e + 7);
        if k > e + 7 && keyword_at_exec(s, k, &key) {
            f = k + 3;
            is_primary_key = true;
        }
    }
    proof {
        lemma_constraint_end_bounds(s@, f as int);
    }
    let mut g = f;
    while g < s.len() && s[g] != ',' && s[g] != ')'
        invariant
            f <= g <= s@.len(),
            constraint_end(s@, f as int) == constraint_end(s@, g as int),
        decreases s@.len() - g,
    {
        g = g + 1;
    }
    let name = sql.substring_char(a, b).to_owned();
    Some((ColumnDefinition { name, sql_type, position: 0, is_primary_key }, g))
}

fn column_definitions(sql: &str, s: &Vec<char>, i: usize) -> (r: Option<(Vec<ColumnDefinition>, usize)>)
    requires
        s@ == sql@,
        i <= s@.len(),
    ensures
        match column_defs_from(s@, i as int) {
            Some((cs, g)) => r matches Some((v, e)) && column_views(v@) == cs && e == g,
            None => r is None,
        },
    decreases s@.len() - i,
{
    proof {
        lemma_column_def_advances(s@, i as int);
    }
    let (c, g) = match column_definition(sql, s, i) {
        Some(v) => v,
        None => return None,
    };
    // Reading the length as a `usize` bounds every position below.
    let _len = s.len();
    if char_at_exec(s, g, ',') {
        match column_definitions(sql, s, g + 1) {
            None => None,
            Some((mut cs, k)) => {
                let ghost rest = cs@;
                cs.insert(0, c);
                proof {
                    assert(column_views(cs@) =~= seq![c@] + column_views(rest));
                }
                Some((cs, k))
            },
        }
    } else {
        let mut cs: Vec<ColumnDefinition> = Vec::new();
        cs.push(c);
        proof {
            assert(column_views(cs@) =~= seq![c@]);
        }
        Some((cs, g))
    }
}

/// Reads `CREATE TABLE` statements (see the grammar at the top of this module).
pub struct TableSchemaParser;

impl TableSchemaParser {
    /// The table name and the column definitions, numbered from 0, of a
    /// `CREATE TABLE` text; `InvalidCreateTable` when it does not follow the grammar.
    pub fn parse_create_table_sql(create_sql: &str) -> (r: Result<
        (String, Vec<ColumnDefinition>),
        Error,
    >)
        ensures
            match create_table_of(create_sql@) {
                Some((name, cols)) => r matches Ok((n, v)) && n@ == name && column_views(v@)
                    == cols,
                None => r == Err::<(String, Vec<ColumnDefinition>), Error>(
                    Error::InvalidCreateTable,
                ),
            },
    {
        let s = chars_of(create_sql);
        let create = ['C', 'R', 'E', 'A', 'T', 'E'];
        let table = ['T', 'A', 'B', 'L', 'E'];
        assert(create@ =~= kw_create());
        assert(table@ =~= kw_table());
        // Reading the length as a `usize` bounds every position below.
        let _len = s.len();
        let i0 = skip_white_space_from(&s, 0);
        if !keyword_at_exec(&s, i0, &create) {
            return Err(Error::InvalidCreateTable);
        }
        let i2 = skip_spaces_from(&s, i0 + 6);
        if !(i2 > i0 + 6 && keyword_at_exec(&s, i2, &table)) {
            return Err(Error::InvalidCreateTable);
        }
        let i4 = skip_spaces_from(&s, i2 + 5);
        if !(i4 > i2 + 5) {
            return Err(Error::InvalidCreateTable);
        }
        let e = word_end_from(&s, i4);
        if !(e > i4) {
            return Err(Error::InvalidCreateTable);
        }
        let p = skip_spaces_from(&s, e);
        if !char_at_exec(&s, p, '(') {
            return Err(Error::InvalidCreateTable);
        }
        let (cols, g) = match column_definitions(create_sql, &s, p + 1) {
            Some(v) => v,
            None => return Err(Error::InvalidCreateTable),
        };
        proof {
            lemma_column_defs_bounds(s@, p + 1);
        }
        let q = skip_spaces_from(&s, g);
        if !char_at_exec(&s, q, ')') {
            return Err(Error::InvalidCreateTable);
        }
        let ghost specs = column_views(cols@);
        let mut numbered_cols: Vec<ColumnDefinition> = Vec::new();
        let mut k: usize = 0;
        while k < cols.len()
            invariant
                specs == column_views(cols@),
                k <= cols@.len(),
                column_views(numbered_cols@) == numbered(specs).subrange(0, k as int),
            decreases cols@.len() - k,
        {
            let c = cols[k].copy();
            let ghost before = numbered_cols@;
            proof {
                assert(specs[k as int] == cols@[k as int]@);
            }
            numbered_cols.push(
                ColumnDefinition {
                    name: c.name,
                    sql_type: c.sql_type,
                    position: k,
                    is_primary_key: c.is_primary_key,
                },
            );
            k = k + 1;
            proof {
                assert(column_views(before).len() == before.len());
                assert(before.len() == k - 1);
                assert(numbered_cols@.len() == k);
                assert(column_views(numbered_cols@)[k - 1] == numbered(specs)[k - 1]);
                assert forall|j: int| 0 <= j < k implies #[trigger] column_views(numbered_cols@)[j]
                    == numbered(specs).subrange(0, k as int)[j] by {
                    if j < k - 1 {
                        assert(numbered_cols@[j] == before[j]);
                        assert(column_views(before)[j] == numbered(specs).subrange(0, k - 1)[j]);
                    }
                }
                assert(column_views(numbered_cols@) =~= numbered(specs).subrange(0, k as int));
            }
        }
        proof {
            assert(numbered(specs).subrange(0, cols@.len() as int) =~= numbered(specs));
        }
        let name = create_sql.substring_char(i4, e).to_owned();
        Ok((name, numbered_cols))
    }
}

proof fn lemma_column_defs_bounds(s: Seq<char>, i: int)
    ensures
        column_defs_from(s, i) matches Some((cs, g)) ==> i <= g <= s.len(),
    decreases s.len() - i,
{
    if 0 <= i <= s.len() {
        lemma_column_def_advances(s, i);
        if let Some((c, g)) = column_def_at(s, i) {
            if char_at(s, g, ',') {
                lemma_column_defs_bounds(s, g + 1);
            }
        }
    }
}

} // verus!
