//! The statements that the executor answers, and their grammar:
//! `SELECT ws+ COUNT ws* ( ws* * ws* ) ws+ FROM ws+ table` and
//! `SELECT ws+ column (ws* , ws* column)* ws+ FROM ws+ table`,
//! keywords in any case, `ws` being space, tab, CR or LF, and any Unicode
//! white space allowed before and after the statement; a name starts with an
//! ASCII letter or `_` and goes on with letters, digits and `_`.
use vstd::prelude::*;

use crate::error::Error;
use crate::scan::{
    char_at, char_at_exec, is_alpha, keyword_at, keyword_at_exec, lemma_skip_spaces_bounds,
    lemma_word_end_bounds, skip_spaces, skip_spaces_from, skip_white_space, skip_white_space_from, word_end,
    word_end_from,
};
use crate::text::{chars_of, string_views};

verus! {

/// A parsed statement.
#[derive(Debug, Clone, PartialEq)]
pub enum Statement {
    SelectStmt { count_only: bool, columns: Vec<String>, table_name: String },
}

/// A statement, as values.
pub struct StatementView {
    pub count_only: bool,
    pub columns: Seq<Seq<char>>,
    pub table_name: Seq<char>,
}

impl View for Statement {
    type V = StatementView;

    open spec fn view(&self) -> StatementView {
        match self {
            Statement::SelectStmt { count_only, columns, table_name } => StatementView {
                count_only: *count_only,
                columns: string_views(columns@),
                table_name: table_name@,
            },
        }
    }
}

pub open spec fn kw_select() -> Seq<char> {
    seq!['S', 'E', 'L', 'E', 'C', 'T']
}

pub open spec fn kw_count() -> Seq<char> {
    seq!['C', 'O', 'U', 'N', 'T']
}

pub open spec fn kw_from() -> Seq<char> {
    seq!['F', 'R', 'O', 'M']
}

/// End of the name that starts at `i` (`i` itself when none does).
pub open spec fn name_end(s: Seq<char>, i: int) -> int {
    if 0 <= i < s.len() && (is_alpha(s[i]) || s[i] == '_') {
        word_end(s, i + 1)
    } else {
        i
    }
}

pub proof fn lemma_name_end_bounds(s: Seq<char>, i: int)
    requires
        0 <= i <= s.len(),
    ensures
        i <= name_end(s, i) <= s.len(),
{
    if 0 <= i < s.len() && (is_alpha(s[i]) || s[i] == '_') {
        lemma_word_end_bounds(s, i + 1);
    }
}

fn identifier_end(s: &Vec<char>, i: usize) -> (r: usize)
    requires
        i <= s@.len(),
    ensures
        r == name_end(s@, i as int),
        i <= r <= s@.len(),
{
    if i < s.len() && (('a' <= s[i] && s[i] <= 'z') || ('A' <= s[i] && s[i] <= 'Z') || s[i]
        == '_') {
        word_end_from(s, i + 1)
    } else {
        i
    }
}

/// `COUNT ( * ) FROM table` at `i`: the table and where its name ends.
pub open spec fn count_stmt_at(s: Seq<char>, i: int) -> Option<(Seq<char>, int)> {
    let a = skip_spaces(s, i + 5);
    let b = skip_spaces(s, a + 1);
    let c = skip_spaces(s, b + 1);
    let d = skip_spaces(s, c + 1);
    let f = skip_spaces(s, d + 4);
    let e = name_end(s, f);
    if keyword_at(s, i, kw_count()) && char_at(s, a, '(') && char_at(s, b, '*') && char_at(
        s,
        c,
        ')',
    ) && d > c + 1 && keyword_at(s, d, kw_from()) && f > d + 4 && e > f {
        Some((s.subrange(f, e), e))
    } else {
        None
    }
}

/// Names separated by `,` from `i` on: the list and where the last one ends.
pub open spec fn name_list_from(s: Seq<char>, i: int) -> Option<(Seq<Seq<char>>, int)>
    decreases s.len() - i,
{
    let e = name_end(s, i);
    let j = skip_spaces(s, e);
    if i < 0 || i > s.len() || e == i {
        None
    } else if char_at(s, j, ',') {
        proof {
            lemma_name_end_bounds(s, i);
            lemma_skip_spaces_bounds(s, e);
            lemma_skip_spaces_bounds(s, j + 1);
        }
        match name_list_from(s, skip_spaces(s, j + 1)) {
            Some((names, end)) => Some((seq![s.subrange(i, e)] + names, end)),
            None => None,
        }
    } else {
        Some((seq![s.subrange(i, e)], e))
    }
}

/// `columns FROM table` at `i`: the columns, the table, where the table's name ends.
pub open spec fn columns_stmt_at(s: Seq<char>, i: int) -> Option<(Seq<Seq<char>>, Seq<char>, int)> {
    match name_list_from(s, i) {
        None => None,
        Some((names, e)) => {
            let m = skip_spaces(s, e);
            let n = skip_spaces(s, m + 4);
            let t = name_end(s, n);
            if m > e && keyword_at(s, m, kw_from()) && n > m + 4 && t > n {
                Some((names, s.subrange(n, t), t))
            } else {
                None
            }
        },
    }
}

/// The statement that the text `s` holds, if it follows the grammar.
pub open spec fn statement_of(s: Seq<char>) -> Option<StatementView> {
    let i0 = skip_white_space(s, 0);
    let i2 = skip_spaces(s, i0 + 6);
    if keyword_at(s, i0, kw_select()) && i2 > i0 + 6 {
        match count_stmt_at(s, i2) {
            Some((table, e)) => if skip_white_space(s, e) == s.len() {
                Some(StatementView { count_only: true, columns: seq![], table_name: table })
            } else {
                None
            },
            None => match columns_stmt_at(s, i2) {
                Some((names, table, e)) => if skip_white_space(s, e) == s.len() {
                    Some(StatementView { count_only: false, columns: names, table_name: table })
                } else {
                    None
                },
                None => None,
            },
        }
    } else {
        None
    }
}

fn select_count_statement(query: &str, s: &Vec<char>, i: usize) -> (r: Option<(String, usize)>)
    requires
        s@ == query@,
        i <= s@.len(),
    ensures
        match count_stmt_at(s@, i as int) {
            Some((t, e)) => r matches Some((name, end)) && name@ == t && end == e,
            None => r is None,
        },
        r matches Some((name, end)) ==> end <= s@.len(),
{
    // Reading the length as a `usize` bounds every position below.
    let _len = s.len();
    let count = ['C', 'O', 'U', 'N', 'T'];
    let from = ['F', 'R', 'O', 'M'];
    assert(count@ =~= kw_count());
    assert(from@ =~= kw_from());
    if !keyword_at_exec(s, i, &count) {
        return None;
    }
    let a = skip_spaces_from(s, i + 5);
    if !char_at_exec(s, a, '(') {
        return None;
    }
    let b = skip_spaces_from(s, a + 1);
    if !char_at_exec(s, b, '*') {
        return None;
    }
    let c = skip_spaces_from(s, b + 1);
    if !char_at_exec(s, c, ')') {
        return None;
    }
    let d = skip_spaces_from(s, c + 1);
    if !(d > c + 1 && keyword_at_exec(s, d, &from)) {
        return None;
    }
    let f = skip_spaces_from(s, d + 4);
    let e = identifier_end(s, f);
    if !(f > d + 4 && e > f) {
        return None;
    }
    Some((query.substring_char(f, e).to_owned(), e))
}

fn identifier_list(query: &str, s: &Vec<char>, i: usize) -> (r: Option<(Vec<String>, usize)>)
    requires
        s@ == query@,
        i <= s@.len(),
    ensures
        match name_list_from(s@, i as int) {
            Some((names, e)) => r matches Some((v, end)) && string_views(v@) == names && end == e,
            None => r is None,
        },
    decreases s@.len() - i,
{
    // Reading the length as a `usize` bounds every position below.
    let _len = s.len();
    let e = identifier_end(s, i);
    if e == i {
        return None;
    }
    let j = skip_spaces_from(s, e);
    let name = query.substring_char(i, e).to_owned();
    if char_at_exec(s, j, ',') {
        let k = skip_spaces_from(s, j + 1);
        match identifier_list(query, s, k) {
            Some((mut names, end)) => {
                let ghost rest = names@;
                names.insert(0, name);
                proof {
                    assert(string_views(names@) =~= seq![name@] + string_views(rest));
                }
                Some((names, end))
            },
            None => None,
        }
    } else {
        let mut names: Vec<String> = Vec::new();
        names.push(name);
        proof {
            assert(string_views(names@) =~= seq![name@]);
        }
        Some((names, e))
    }
}

proof fn lemma_name_list_bounds(s: Seq<char>, i: int)
    ensures
        name_list_from(s, i) matches Some((names, e)) ==> i <= e <= s.len(),
    decreases s.len() - i,
{
    if 0 <= i <= s.len() {
        lemma_name_end_bounds(s, i);
        let e = name_end(s, i);
        lemma_skip_spaces_bounds(s, e);
        let j = skip_spaces(s, e);
        if e != i && char_at(s, j, ',') {
            lemma_skip_spaces_bounds(s, j + 1);
            lemma_name_list_bounds(s, skip_spaces(s, j + 1));
        }
    }
}

fn select_columns_statement(query: &str, s: &Vec<char>, i: usize) -> (r: Option<
    (Vec<String>, String, usize),
>)
    requires
        s@ == query@,
        i <= s@.len(),
    ensures
        match columns_stmt_at(s@, i as int) {
            Some((names, t, e)) => r matches Some((v, table, end)) && string_views(v@) == names
                && table@ == t && end == e,
            None => r is None,
        },
        r matches Some((v, table, end)) ==> end <= s@.len(),
{
    // Reading the length as a `usize` bounds every position below.
    let _len = s.len();
    let from = ['F', 'R', 'O', 'M'];
    assert(from@ =~= kw_from());
    let (names, e) = match identifier_list(query, s, i) {
        Some(v) => v,
        None => return None,
    };
    proof {
        lemma_name_list_bounds(s@, i as int);
    }
    let m = skip_spaces_from(s, e);
    if !(m > e && keyword_at_exec(s, m, &from)) {
        return None;
    }
    let n = skip_spaces_from(s, m + 4);
    let t = identifier_end(s, n);
    if !(n > m + 4 && t > n) {
        return None;
    }
    Some((names, query.substring_char(n, t).to_owned(), t))
}

/// Reads one of the supported `SELECT` forms; anything else fails with
/// `InvalidStatement`.
pub fn parse_sql(query: &str) -> (r: Result<Statement, Error>)
    ensures
        match statement_of(query@) {
            Some(st) => r matches Ok(stmt) && stmt@ == st,
            None => r == Err::<Statement, Error>(Error::InvalidStatement),
        },
{
    let s = chars_of(query);
    // Reading the length as a `usize` bounds every position below.
    let _len = s.len();
    let select = ['S', 'E', 'L', 'E', 'C', 'T'];
    assert(select@ =~= kw_select());
    let i0 = skip_white_space_from(&s, 0);
    if !keyword_at_exec(&s, i0, &select) {
        return Err(Error::InvalidStatement);
    }
    let i2 = skip_spaces_from(&s, i0 + 6);
    if !(i2 > i0 + 6) {
        return Err(Error::InvalidStatement);
    }
    match select_count_statement(query, &s, i2) {
        Some((table_name, e)) => {
            if skip_white_space_from(&s, e) == s.len() {
                let columns: Vec<String> = Vec::new();
                proof {
                    assert(string_views(columns@) =~= seq![]);
                }
                Ok(Statement::SelectStmt { count_only: true, columns, table_name })
            } else {
                Err(Error::InvalidStatement)
            }
        },
        None => match select_columns_statement(query, &s, i2) {
            Some((columns, table_name, e)) => {
                if skip_white_space_from(&s, e) == s.len() {
                    Ok(Statement::SelectStmt { count_only: false, columns, table_name })
                } else {
                    Err(Error::InvalidStatement)
                }
            },
            None => Err(Error::InvalidStatement),
        },
    }
}

} // verus!
