//! Comparing a symbol's capsule with the files it stands for.
use crate::capsule;
use crate::capsule::{explore_symbol, measure_symbol};
use crate::files::SourceFile;
use crate::model::{CapsuleProvenance, CapsuleResult, PreciseTokenMeasurement};
use crate::pipeline;
use crate::scan;
use crate::scan::trim;
use crate::settings::Settings;
use crate::store;
use crate::store::{
    as_texts, bind_text_and_number, bind_three, bind_two, count, read_as, read_first_text,
    read_text_rows, select, MarrowError, Param,
};
use crate::symbols;
use crate::symbols::escape_like_pattern;
use crate::text;
use crate::text::{chars_of, count_text, join, pad_right, repeat, text_between};
use crate::tokens;
use crate::tokens::count_tokens;
use vstd::prelude::*;
use vstd::string::*;

verus! {

/// How many repositories, symbols and filter values are offered to choose from.
pub const BENCHMARK_REPOSITORY_LIMIT: usize = 50;

pub const BENCHMARK_SYMBOL_LIMIT: usize = 50;

pub const BENCHMARK_FILTER_LIMIT: usize = 50;

// ── Numbers ──────────────────────────────────────────────────────────────────

/// Digits in groups of three, counted from the end, with commas between.
pub open spec fn grouped(digits: Seq<char>) -> Seq<char>
    decreases digits.len(),
{
    if digits.len() <= 3 {
        digits
    } else {
        grouped(digits.take(digits.len() - 3)) + ","@ + digits.skip(digits.len() - 3)
    }
}

fn group_digits(digits: &Vec<char>, end: usize) -> (r: String)
    requires
        end <= digits.len(),
    ensures
        r@ == grouped(digits@.take(end as int)),
    decreases end,
{
    let ghost all = digits@.take(end as int);
    if end <= 3 {
        assert(digits@.subrange(0, end as int) =~= all);
        return text_between(digits, 0, end);
    }
    let head = group_digits(digits, end - 3);
    let tail = text_between(digits, end - 3, end);
    assert(all.take(end - 3) =~= digits@.take(end - 3));
    assert(all.skip(end - 3) =~= digits@.subrange(end - 3, end as int));
    head.concat(",").concat(&tail)
}

/// A number with commas between its thousands.
pub fn fmt_num(n: usize) -> (r: String)
    ensures
        r@ == grouped(text::decimal(n as nat)),
{
    let digits = chars_of(&count_text(n));
    assert(digits@.take(digits@.len() as int) =~= digits@);
    group_digits(&digits, digits.len())
}

/// A text without its commas.
pub open spec fn without_commas(s: Seq<char>) -> Seq<char>
    decreases s.len(),
{
    if s.len() == 0 {
        s
    } else if s.last() == ',' {
        without_commas(s.drop_last())
    } else {
        without_commas(s.drop_last()).push(s.last())
    }
}

proof fn lemma_without_commas_concat(a: Seq<char>, b: Seq<char>)
    ensures
        without_commas(a + b) == without_commas(a) + without_commas(b),
    decreases b.len(),
{
    if b.len() == 0 {
        assert(a + b =~= a);
        assert(without_commas(a) + without_commas(b) =~= without_commas(a));
    } else {
        assert((a + b).drop_last() =~= a + b.drop_last());
        assert((a + b).last() == b.last());
        lemma_without_commas_concat(a, b.drop_last());
        if b.last() != ',' {
            assert((without_commas(a) + without_commas(b.drop_last())).push(b.last())
                =~= without_commas(a) + without_commas(b.drop_last()).push(b.last()));
        }
    }
}

proof fn lemma_plain_digits(s: Seq<char>)
    requires
        forall|i: int| 0 <= i < s.len() ==> s[i] != ',',
    ensures
        without_commas(s) == s,
    decreases s.len(),
{
    if s.len() > 0 {
        lemma_plain_digits(s.drop_last());
        assert(s.drop_last().push(s.last()) =~= s);
    }
}

proof fn lemma_grouped(digits: Seq<char>)
    requires
        forall|i: int| 0 <= i < digits.len() ==> digits[i] != ',',
    ensures
        without_commas(grouped(digits)) == digits,
    decreases digits.len(),
{
    if digits.len() <= 3 {
        lemma_plain_digits(digits);
    } else {
        let head = digits.take(digits.len() - 3);
        let tail = digits.skip(digits.len() - 3);
        lemma_grouped(head);
        lemma_plain_digits(tail);
        lemma_without_commas_concat(grouped(head) + ","@, tail);
        lemma_without_commas_concat(grouped(head), ","@);
        reveal_strlit(",");
        assert(","@.drop_last() =~= Seq::empty());
        assert(without_commas(","@) =~= Seq::empty()) by {
            assert(","@.last() == ',');
            assert(without_commas(","@.drop_last()) =~= Seq::empty());
        }
        assert(head + Seq::<char>::empty() + tail =~= digits);
    }
}

/// The commas are all that is added: without them the number is as it was.
pub proof fn law_grouping_adds_commas_only(n: nat)
    ensures
        without_commas(grouped(text::decimal(n))) == text::decimal(n),
{
    let digits = text::decimal(n);
    assert forall|i: int| 0 <= i < digits.len() implies digits[i] != ',' by {
        text::lemma_decimal_digits(n, i);
    }
    lemma_grouped(digits);
}

/// Counted from the right, every fourth character of a grouped number is a comma, and no
/// other.
pub proof fn law_commas_set_thousands_apart(n: nat, i: int)
    requires
        0 <= i < grouped(text::decimal(n)).len(),
    ensures
        ({
            let shown = grouped(text::decimal(n));
            shown[shown.len() - 1 - i] == ',' <==> i % 4 == 3
        }),
{
    let digits = text::decimal(n);
    assert forall|k: int| 0 <= k < digits.len() implies digits[k] != ',' by {
        text::lemma_decimal_digits(n, k);
    }
    lemma_commas(digits, i);
}

proof fn lemma_commas(digits: Seq<char>, i: int)
    requires
        0 <= i < grouped(digits).len(),
        forall|k: int| 0 <= k < digits.len() ==> digits[k] != ',',
    ensures
        grouped(digits)[grouped(digits).len() - 1 - i] == ',' <==> i % 4 == 3,
    decreases digits.len(),
{
    reveal_strlit(",");
    if digits.len() > 3 {
        let head = digits.take(digits.len() - 3);
        let tail = digits.skip(digits.len() - 3);
        let shown = grouped(digits);
        assert(shown.len() == grouped(head).len() + 4);
        if i < 3 {
            assert(shown[shown.len() - 1 - i] == tail[2 - i]);
            assert(tail[2 - i] == digits[digits.len() - 1 - i]);
        } else if i == 3 {
            assert(shown[shown.len() - 4] == ","@[0]);
        } else {
            lemma_commas(head, i - 4);
            assert(shown[shown.len() - 1 - i] == grouped(head)[grouped(head).len() - 1 - (i - 4)]);
        }
    }
}

// ── Choices ──────────────────────────────────────────────────────────────────

/// A repository to choose.
#[derive(Debug, Clone, PartialEq, Eq)]
pub struct BenchmarkRepositoryChoice {
    pub repo_id: String,
    pub root_path: String,
}

/// A symbol to choose.
#[derive(Debug, Clone, PartialEq, Eq)]
pub struct BenchmarkSymbolChoice {
    pub repo_id: String,
    pub symbol_name: String,
    pub file_path: String,
    pub language: String,
    pub symbol_type: String,
}

pub const REPOSITORIES_SQL: &'static str =
    "SELECT id, root_path FROM repositories ORDER BY id ASC LIMIT ?1";

pub const SYMBOLS_SQL: &'static str =
    "SELECT repo_id, symbol_name, file_path, language, symbol_type FROM nodes WHERE repo_id = ?1 AND (?2 = '' OR symbol_name LIKE ?3 ESCAPE '\\' OR file_path LIKE ?3 ESCAPE '\\') AND (?4 IS NULL OR language = ?4) AND (?5 IS NULL OR symbol_type = ?5) ORDER BY symbol_name COLLATE NOCASE ASC, file_path ASC, id ASC LIMIT ?6";

pub const SYMBOL_COUNT_SQL: &'static str = "SELECT COUNT(*) FROM nodes WHERE repo_id = ?1";

pub const FILE_AT_SQL: &'static str =
    "SELECT file_path FROM nodes WHERE symbol_name = ?1 AND repo_id = ?2 AND file_path = ?3 ORDER BY file_path ASC, id ASC LIMIT 1";

pub const FIRST_FILE_SQL: &'static str =
    "SELECT file_path FROM nodes WHERE symbol_name = ?1 AND repo_id = ?2 ORDER BY file_path ASC, id ASC LIMIT 1";

/// How the command is called.
pub fn benchmark_usage(program: &str) -> (r: String)
    ensures
        r@ == "Usage: "@ + program@
            + " benchmark [--precise-file-tokens] <symbol> <repo_id>"@,
{
    "Usage: ".to_owned().concat(program).concat(
        " benchmark [--precise-file-tokens] <symbol> <repo_id>",
    )
}

/// Whether these are the repositories of some rows.
pub open spec fn are_repositories(
    v: Seq<BenchmarkRepositoryChoice>,
    rows: Seq<Seq<Seq<char>>>,
) -> bool {
    v.len() == rows.len() && forall|i: int|
        0 <= i < v.len() ==> (#[trigger] v[i]).repo_id@ == rows[i][0] && v[i].root_path@
            == rows[i][1]
}

/// The repositories of the graph, at most `limit`.
pub fn benchmark_repository_choices(conn: &rusqlite::Connection, limit: usize) -> (r: Result<
    Vec<BenchmarkRepositoryChoice>,
    MarrowError,
>)
    ensures
        r matches Ok(v) ==> exists|answer: Seq<Result<Vec<store::Cell>, rusqlite::Error>>|
            #[trigger] store::could_read(
                *conn,
                REPOSITORIES_SQL@,
                store::texts_only(2),
                seq![store::Bound::Int(limit as i64 as int)],
                answer,
            ) && store::all_texts(answer, 2) && are_repositories(v@, store::text_table(answer, 2)),
        r matches Err(e) ==> store::could_not_read(
            *conn,
            REPOSITORIES_SQL@,
            store::texts_only(2),
            seq![store::Bound::Int(limit as i64 as int)],
            e,
        ),
{
    let params = vec![Param::Int(limit as i64)];
    assert(store::bounds(params@) =~= seq![store::Bound::Int(limit as i64 as int)]);
    let answer = match read_as(conn, REPOSITORIES_SQL, as_texts(2), params) {
        Ok(answer) => answer,
        Err(e) => {
            return Err(MarrowError::Store(e));
        },
    };
    let ghost answered = answer@;
    assert(store::could_read(
        *conn,
        REPOSITORIES_SQL@,
        store::texts_only(2),
        seq![store::Bound::Int(limit as i64 as int)],
        answered,
    ));
    let rows = match read_text_rows(answer, 2) {
        Ok(rows) => rows,
        Err(e) => {
            return Err(e);
        },
    };
    let ghost table = store::table(rows@);
    let mut out: Vec<BenchmarkRepositoryChoice> = Vec::new();
    let mut i: usize = 0;
    while i < rows.len()
        invariant
            i <= rows.len(),
            out.len() == i,
            table == store::table(rows@),
            forall|k: int| 0 <= k < rows.len() ==> #[trigger] rows@[k].len() == 2,
            forall|k: int|
                0 <= k < i ==> (#[trigger] out@[k]).repo_id@ == table[k][0] && out@[k].root_path@
                    == table[k][1],
        decreases rows.len() - i,
    {
        assert(rows@[i as int].len() == 2);
        assert(table[i as int] == text::texts(rows@[i as int]@));
        out.push(
            BenchmarkRepositoryChoice { repo_id: rows[i][0].clone(), root_path: rows[i][1].clone() },
        );
        i += 1;
    }
    Ok(out)
}

/// Whether a symbol is the one of a row.
pub open spec fn is_symbol(s: BenchmarkSymbolChoice, row: Seq<Seq<char>>) -> bool {
    &&& s.repo_id@ == row[0]
    &&& s.symbol_name@ == row[1]
    &&& s.file_path@ == row[2]
    &&& s.language@ == row[3]
    &&& s.symbol_type@ == row[4]
}

/// A filter as it is bound: nothing where it is missing or empty.
pub open spec fn filter_bound(filter: Option<Seq<char>>) -> store::Bound {
    match filter {
        Some(s) => if s.len() > 0 {
            store::Bound::Text(s)
        } else {
            store::Bound::Null
        },
        None => store::Bound::Null,
    }
}

/// One more than a limit, so that more can be told from enough.
pub open spec fn probe_limit(limit: usize) -> i64 {
    if limit == usize::MAX {
        usize::MAX as i64
    } else {
        (limit + 1) as i64
    }
}

/// What a search for symbols is asked with.
pub open spec fn symbol_bounds(
    repo: Seq<char>,
    search: Seq<char>,
    language: Option<Seq<char>>,
    symbol_type: Option<Seq<char>>,
    limit: usize,
) -> Seq<store::Bound> {
    seq![
        store::Bound::Text(repo),
        store::Bound::Text(scan::trimmed(search)),
        store::Bound::Text("%"@ + symbols::escaped(scan::trimmed(search)) + "%"@),
        filter_bound(language),
        filter_bound(symbol_type),
        store::Bound::Int(probe_limit(limit) as int),
    ]
}

fn bind_filter(filter: Option<&str>) -> (r: Param)
    ensures
        r@ == filter_bound(text::opt_str(filter)),
{
    match filter {
        Some(s) => if !s.is_empty() {
            Param::Text(s.to_owned())
        } else {
            Param::Null
        },
        None => Param::Null,
    }
}

fn bind_symbols(
    repo_id: &str,
    search: &str,
    language: Option<&str>,
    symbol_type: Option<&str>,
    limit: usize,
) -> (r: Vec<Param>)
    ensures
        store::bounds(r@) == symbol_bounds(
            repo_id@,
            search@,
            text::opt_str(language),
            text::opt_str(symbol_type),
            limit,
        ),
{
    let search = trim(search);
    let pattern = "%".to_owned().concat(&escape_like_pattern(&search)).concat("%");
    let more: usize = if limit == usize::MAX {
        limit
    } else {
        limit + 1
    };
    let mut params: Vec<Param> = Vec::new();
    params.push(Param::Text(repo_id.to_owned()));
    params.push(Param::Text(search));
    params.push(Param::Text(pattern));
    params.push(bind_filter(language));
    params.push(bind_filter(symbol_type));
    params.push(Param::Int(more as i64));
    params
}

/// The first `limit` symbols of some rows, and whether there were more.
pub fn choose_symbols(rows: &Vec<Vec<String>>, limit: usize) -> (r: (
    Vec<BenchmarkSymbolChoice>,
    bool,
))
    requires
        forall|i: int| 0 <= i < rows.len() ==> (#[trigger] rows@[i]).len() == 5,
    ensures
        r.1 == (rows.len() > limit),
        r.0.len() == if rows.len() > limit {
            limit
        } else {
            rows.len()
        },
        forall|i: int|
            0 <= i < r.0.len() ==> is_symbol(#[trigger] r.0@[i], text::texts(rows@[i]@)),
{
    let limited = rows.len() > limit;
    let kept: usize = if limited {
        limit
    } else {
        rows.len()
    };
    let mut out: Vec<BenchmarkSymbolChoice> = Vec::new();
    let mut i: usize = 0;
    while i < kept
        invariant
            i <= kept <= rows.len(),
            out.len() == i,
            forall|k: int| 0 <= k < rows.len() ==> (#[trigger] rows@[k]).len() == 5,
            forall|k: int|
                0 <= k < i ==> is_symbol(#[trigger] out@[k], text::texts(rows@[k]@)),
        decreases kept - i,
    {
        assert(rows@[i as int].len() == 5);
        let row = &rows[i];
        out.push(
            BenchmarkSymbolChoice {
                repo_id: row[0].clone(),
                symbol_name: row[1].clone(),
                file_path: row[2].clone(),
                language: row[3].clone(),
                symbol_type: row[4].clone(),
            },
        );
        i += 1;
    }
    (out, limited)
}

/// Whether these are the first `limit` symbols of some rows.
pub open spec fn are_symbols(
    v: Seq<BenchmarkSymbolChoice>,
    limited: bool,
    rows: Seq<Seq<Seq<char>>>,
    limit: usize,
) -> bool {
    &&& limited == (rows.len() > limit)
    &&& v.len() == if rows.len() > limit {
        limit as nat
    } else {
        rows.len()
    }
    &&& forall|i: int| 0 <= i < v.len() ==> is_symbol(#[trigger] v[i], rows[i])
}

/// The symbols to choose from are the first rows, up to the limit, each with what its row
/// tells; that there are more is said exactly when there are.
pub proof fn law_choices_are_the_first_rows(
    v: Seq<BenchmarkSymbolChoice>,
    limited: bool,
    rows: Seq<Seq<Seq<char>>>,
    limit: usize,
)
    requires
        are_symbols(v, limited, rows, limit),
    ensures
        limited <==> rows.len() > limit,
        v.len() <= limit,
        v.len() == rows.len() || v.len() == limit,
        v.len() <= rows.len(),
        forall|i: int|
            0 <= i < v.len() ==> {
                let s = #[trigger] v[i];
                &&& s.repo_id@ == rows[i][0]
                &&& s.symbol_name@ == rows[i][1]
                &&& s.file_path@ == rows[i][2]
                &&& s.language@ == rows[i][3]
                &&& s.symbol_type@ == rows[i][4]
            },
{
}

/// The symbols of a repository whose name or file holds a text, at most `limit`, and
/// whether there are more.
pub fn benchmark_symbol_choices(
    conn: &rusqlite::Connection,
    repo_id: &str,
    search: &str,
    language: Option<&str>,
    symbol_type: Option<&str>,
    limit: usize,
) -> (r: Result<(Vec<BenchmarkSymbolChoice>, bool), MarrowError>)
    ensures
        r matches Ok((v, limited)) ==> exists|
            answer: Seq<Result<Vec<store::Cell>, rusqlite::Error>>,
        |
            #[trigger] store::could_read(
                *conn,
                SYMBOLS_SQL@,
                store::texts_only(5),
                symbol_bounds(
                    repo_id@,
                    search@,
                    text::opt_str(language),
                    text::opt_str(symbol_type),
                    limit,
                ),
                answer,
            ) && store::all_texts(answer, 5) && are_symbols(
                v@,
                limited,
                store::text_table(answer, 5),
                limit,
            ),
        r matches Err(e) ==> store::could_not_read(
            *conn,
            SYMBOLS_SQL@,
            store::texts_only(5),
            symbol_bounds(
                repo_id@,
                search@,
                text::opt_str(language),
                text::opt_str(symbol_type),
                limit,
            ),
            e,
        ),
{
    let params = bind_symbols(repo_id, search, language, symbol_type, limit);
    let ghost bound = store::bounds(params@);
    let answer = match read_as(conn, SYMBOLS_SQL, as_texts(5), params) {
        Ok(answer) => answer,
        Err(e) => {
            return Err(MarrowError::Store(e));
        },
    };
    let ghost answered = answer@;
    assert(store::could_read(*conn, SYMBOLS_SQL@, store::texts_only(5), bound, answered));
    match read_text_rows(answer, 5) {
        Ok(rows) => {
            let chosen = choose_symbols(&rows, limit);
            assert(are_symbols(
                chosen.0@,
                chosen.1,
                store::text_table(answered, 5),
                limit,
            )) by {
                assert(store::table(rows@).len() == rows.len());
                assert forall|i: int| 0 <= i < chosen.0@.len() implies is_symbol(
                    #[trigger] chosen.0@[i],
                    store::text_table(answered, 5)[i],
                ) by {
                    assert(store::table(rows@)[i] == text::texts(rows@[i]@));
                }
            }
            Ok(chosen)
        },
        Err(e) => Err(e),
    }
}

/// The statement that lists the values of a column.
pub open spec fn distinct_sql(column: Seq<char>) -> Seq<char> {
    "SELECT DISTINCT "@ + column + " FROM nodes WHERE repo_id = ?1 ORDER BY "@ + column
        + " COLLATE NOCASE ASC LIMIT ?2"@
}

/// The first cells of some rows.
pub open spec fn first_cells(rows: Seq<Seq<Seq<char>>>) -> Seq<Seq<char>> {
    Seq::new(rows.len(), |i: int| rows[i][0])
}

/// The values that a column has in a repository, at most `limit`.
pub fn benchmark_distinct_node_values(
    conn: &rusqlite::Connection,
    repo_id: &str,
    column: &str,
    limit: usize,
) -> (r: Result<Vec<String>, MarrowError>)
    ensures
        r matches Ok(v) ==> exists|answer: Seq<Result<Vec<store::Cell>, rusqlite::Error>>|
            #[trigger] store::could_read(
                *conn,
                distinct_sql(column@),
                store::texts_only(1),
                store::text_and_number(repo_id@, limit as i64 as int),
                answer,
            ) && store::all_texts(answer, 1) && text::texts(v@) == first_cells(
                store::text_table(answer, 1),
            ),
        r matches Err(e) ==> store::could_not_read(
            *conn,
            distinct_sql(column@),
            store::texts_only(1),
            store::text_and_number(repo_id@, limit as i64 as int),
            e,
        ),
{
    let sql = "SELECT DISTINCT ".to_owned().concat(column).concat(
        " FROM nodes WHERE repo_id = ?1 ORDER BY ",
    ).concat(column).concat(" COLLATE NOCASE ASC LIMIT ?2");
    let answer = match read_as(
        conn,
        &sql,
        as_texts(1),
        bind_text_and_number(repo_id, limit as i64),
    ) {
        Ok(answer) => answer,
        Err(e) => {
            return Err(MarrowError::Store(e));
        },
    };
    let ghost answered = answer@;
    assert(store::could_read(
        *conn,
        distinct_sql(column@),
        store::texts_only(1),
        store::text_and_number(repo_id@, limit as i64 as int),
        answered,
    ));
    let rows = match read_text_rows(answer, 1) {
        Ok(rows) => rows,
        Err(e) => {
            return Err(e);
        },
    };
    let ghost table = store::table(rows@);
    let mut out: Vec<String> = Vec::new();
    let mut i: usize = 0;
    while i < rows.len()
        invariant
            i <= rows.len(),
            out.len() == i,
            table == store::table(rows@),
            forall|k: int| 0 <= k < rows.len() ==> #[trigger] rows@[k].len() == 1,
            forall|k: int| 0 <= k < i ==> (#[trigger] out@[k])@ == table[k][0],
        decreases rows.len() - i,
    {
        assert(rows@[i as int].len() == 1);
        assert(table[i as int] == text::texts(rows@[i as int]@));
        out.push(rows[i][0].clone());
        i += 1;
    }
    assert(text::texts(out@) =~= first_cells(table));
    Ok(out)
}

/// The number of symbols that a repository has.
pub fn benchmark_repo_symbol_count(conn: &rusqlite::Connection, repo_id: &str) -> (r: Result<
    i64,
    MarrowError,
>)
    ensures
        match r {
            Ok(n) => store::could_count(*conn, SYMBOL_COUNT_SQL@, store::one_text(repo_id@), n),
            Err(e) => store::could_not_count(
                *conn,
                SYMBOL_COUNT_SQL@,
                store::one_text(repo_id@),
                e,
            ),
        },
{
    count(conn, SYMBOL_COUNT_SQL, store::bind_one(repo_id))
}

// ── Menus ────────────────────────────────────────────────────────────────────

pub const ANY_VALUE: &'static str = "Any";

pub const REVISE: &'static str = "Revise search/filter";

pub const CANCEL: &'static str = "Cancel";

/// How a repository stands in a menu.
pub fn repository_label(repo: &BenchmarkRepositoryChoice) -> (r: String)
    ensures
        r@ == repo.repo_id@ + "  ("@ + repo.root_path@ + ")"@,
{
    repo.repo_id.clone().concat("  (").concat(&repo.root_path).concat(")")
}

/// How a symbol stands in a menu.
pub open spec fn symbol_entry(s: BenchmarkSymbolChoice) -> Seq<char> {
    s.symbol_name@ + "  ["@ + s.language@ + " "@ + s.symbol_type@ + "]  "@ + s.file_path@
}

/// The menu of symbols: each of them, then to revise the search, then to cancel.
pub open spec fn symbol_entries(v: Seq<BenchmarkSymbolChoice>) -> Seq<Seq<char>> {
    Seq::new(v.len(), |i: int| symbol_entry(v[i])).push(REVISE@).push(CANCEL@)
}

/// The menu of symbols.
pub fn symbol_menu(symbols: &Vec<BenchmarkSymbolChoice>) -> (r: Vec<String>)
    ensures
        text::texts(r@) == symbol_entries(symbols@),
{
    let mut out: Vec<String> = Vec::new();
    let mut i: usize = 0;
    while i < symbols.len()
        invariant
            i <= symbols.len(),
            out.len() == i,
            forall|k: int| 0 <= k < i ==> (#[trigger] out@[k])@ == symbol_entry(symbols@[k]),
        decreases symbols.len() - i,
    {
        let s = &symbols[i];
        let entry = s.symbol_name.clone().concat("  [").concat(&s.language).concat(" ").concat(
            &s.symbol_type,
        ).concat("]  ").concat(&s.file_path);
        out.push(entry);
        i += 1;
    }
    out.push(REVISE.to_owned());
    out.push(CANCEL.to_owned());
    assert(text::texts(out@) =~= symbol_entries(symbols@));
    out
}

/// What a choice from the menu of symbols means.
#[derive(Clone, Copy, Debug, PartialEq, Eq, Structural)]
pub enum SymbolPick {
    Symbol(usize),
    Revise,
    Cancel,
}

/// What a choice from the menu of symbols means, where `symbols` of them were offered.
pub fn pick_symbol(choice: Option<usize>, symbols: usize) -> (r: SymbolPick)
    ensures
        r == match choice {
            Some(i) => if i < symbols {
                SymbolPick::Symbol(i)
            } else if i == symbols {
                SymbolPick::Revise
            } else {
                SymbolPick::Cancel
            },
            None => SymbolPick::Cancel,
        },
{
    match choice {
        Some(i) => if i < symbols {
            SymbolPick::Symbol(i)
        } else if i == symbols {
            SymbolPick::Revise
        } else {
            SymbolPick::Cancel
        },
        None => SymbolPick::Cancel,
    }
}

/// The menu of a filter: any value, then each of them.
pub fn filter_menu(values: &Vec<String>) -> (r: Vec<String>)
    ensures
        text::texts(r@) == seq![ANY_VALUE@] + text::texts(values@),
{
    let mut out: Vec<String> = Vec::new();
    out.push(ANY_VALUE.to_owned());
    let mut i: usize = 0;
    while i < values.len()
        invariant
            i <= values.len(),
            out.len() == i + 1,
            out@[0]@ == ANY_VALUE@,
            forall|k: int| 0 <= k < i ==> out@[k + 1]@ == #[trigger] values@[k]@,
        decreases values.len() - i,
    {
        out.push(values[i].clone());
        assert forall|k: int| 0 <= k < i + 1 implies out@[k + 1]@ == #[trigger] values@[k]@ by {}
        i += 1;
    }
    assert(text::texts(out@) =~= seq![ANY_VALUE@] + text::texts(values@));
    out
}

/// The filter that a choice from its menu sets.
pub fn filter_choice(values: &Vec<String>, choice: usize) -> (r: Option<String>)
    requires
        choice <= values.len(),
    ensures
        text::opt_text(r) == if choice == 0 {
            None
        } else {
            Some(text::texts(values@)[choice - 1])
        },
{
    if choice == 0 {
        None
    } else {
        Some(values[choice - 1].clone())
    }
}

/// What is said of a repository without symbols.
pub fn empty_repository(repo_id: &str) -> (r: String)
    ensures
        r@ == "Repository '"@ + repo_id@
            + "' has no symbols in the graph. Run `marrow index` for that workspace."@,
{
    "Repository '".to_owned().concat(repo_id).concat(
        "' has no symbols in the graph. Run `marrow index` for that workspace.",
    )
}

// ── Measuring ────────────────────────────────────────────────────────────────

/// What is said of a chosen symbol that is gone.
pub open spec fn choice_gone(symbol: Seq<char>, repo: Seq<char>, path: Seq<char>) -> Seq<char> {
    "Selected symbol '"@ + symbol + "' in repo '"@ + repo + "' at '"@ + path
        + "' is no longer available."@
}

/// The statement that finds the file of a symbol.
pub open spec fn locate_sql(filepath: Option<Seq<char>>) -> Seq<char> {
    match filepath {
        Some(_) => FILE_AT_SQL@,
        None => FIRST_FILE_SQL@,
    }
}

/// What that statement is asked with.
pub open spec fn locate_bounds(
    symbol: Seq<char>,
    repo: Seq<char>,
    filepath: Option<Seq<char>>,
) -> Seq<store::Bound> {
    match filepath {
        Some(path) => store::three_texts(symbol, repo, path),
        None => store::two_texts(symbol, repo),
    }
}

/// Whether a database could place a symbol in this file.
pub open spec fn could_locate(
    db: rusqlite::Connection,
    symbol: Seq<char>,
    repo: Seq<char>,
    filepath: Option<Seq<char>>,
    file: Seq<char>,
) -> bool {
    exists|answer: Seq<Result<Vec<store::Cell>, rusqlite::Error>>|
        #[trigger] store::could_answer(
            db,
            locate_sql(filepath),
            locate_bounds(symbol, repo, filepath),
            answer,
        ) && store::first_text(answer) == Some(file)
}

/// Whether a database could leave open where a symbol stands, which is told so.
pub open spec fn could_not_locate(
    db: rusqlite::Connection,
    symbol: Seq<char>,
    repo: Seq<char>,
    filepath: Option<Seq<char>>,
    e: MarrowError,
) -> bool {
    &&& store::could_lack_text(db, locate_sql(filepath), locate_bounds(symbol, repo, filepath))
    &&& e matches MarrowError::Message(m) && m@ == match filepath {
        Some(path) => choice_gone(symbol, repo, path),
        None => symbols::not_found(symbol, repo) + "."@,
    }
}

/// The file that a symbol stands in.
pub fn resolve_benchmark_file_path(
    conn: &rusqlite::Connection,
    symbol: &str,
    repo_id: &str,
    filepath: Option<&str>,
) -> (r: Result<String, MarrowError>)
    ensures
        match r {
            Ok(file) => could_locate(*conn, symbol@, repo_id@, text::opt_str(filepath), file@),
            Err(e) => could_not_locate(*conn, symbol@, repo_id@, text::opt_str(filepath), e),
        },
{
    let answer = match filepath {
        Some(path) => select(conn, FILE_AT_SQL, bind_three(symbol, repo_id, path)),
        None => select(conn, FIRST_FILE_SQL, bind_two(symbol, repo_id)),
    };
    let ghost sql = locate_sql(text::opt_str(filepath));
    let ghost asked = locate_bounds(symbol@, repo_id@, text::opt_str(filepath));
    match answer {
        Ok(rows) => {
            assert(store::could_answer(*conn, sql, asked, rows@));
            match read_first_text(&rows) {
                Some(file) => {
                    return Ok(file);
                },
                None => {},
            }
        },
        Err(why) => {
            assert(store::could_refuse(*conn, sql, asked, why));
        },
    }
    let message = match filepath {
        Some(path) => "Selected symbol '".to_owned().concat(symbol).concat("' in repo '").concat(
            repo_id,
        ).concat("' at '").concat(path).concat("' is no longer available."),
        None => "Symbol '".to_owned().concat(symbol).concat("' not found in repo '").concat(
            repo_id,
        ).concat("'").concat("."),
    };
    Err(MarrowError::Message(message))
}

/// A capsule measured against its files.
#[derive(Debug)]
pub struct BenchmarkMeasurement {
    pub file_path: String,
    pub file_tokens: usize,
    pub capsule_tokens: usize,
    pub provenance: CapsuleProvenance,
    pub optimized_text: String,
    /// How many lookups of the name found several nodes.
    pub ambiguous: usize,
}

/// What is said where files could not be measured exactly.
pub open spec fn inexact(failed: Seq<Seq<char>>) -> Seq<char> {
    "exact baseline unavailable: failed to tokenize touched file(s): "@ + text::joined(
        failed,
        ", "@,
    )
}

/// Whether a provenance is another one with an exact baseline.
pub open spec fn is_exact(
    p: CapsuleProvenance,
    of: CapsuleProvenance,
    m: PreciseTokenMeasurement,
) -> bool {
    &&& p.baseline_token_source@ == "exact"@
    &&& p.tokenizer_mode@ == m.tokenizer_mode@
    &&& p.original_mode@ == of.original_mode@
    &&& p.proof_label@ == of.proof_label@
    &&& p.precise_file_tokens
    &&& p.original_max_bytes == of.original_max_bytes
    &&& p.proof_max_bytes == of.proof_max_bytes
    &&& p.proof_max_files == of.proof_max_files
    &&& p.touched_file_count == m.touched_file_count
}

/// Whether a measurement takes its baseline from a capsule, or from an exact count of
/// the touched files where there is one.
pub open spec fn is_baseline(
    b: BenchmarkMeasurement,
    result: CapsuleResult,
    exact: Option<PreciseTokenMeasurement>,
) -> bool {
    match exact {
        Some(m) => b.file_tokens == m.tokens && is_exact(b.provenance, result.provenance, m),
        None => b.file_tokens == result.file_tokens && b.provenance == result.provenance,
    }
}

/// Sets a capsule against its files. `exact` is the exact count of the touched files,
/// where one was asked for; it is refused where a file could not be counted.
pub fn measure_against(
    file_path: String,
    result: CapsuleResult,
    exact: Option<PreciseTokenMeasurement>,
    ambiguous: usize,
) -> (r: Result<BenchmarkMeasurement, MarrowError>)
    ensures
        (exact matches Some(m) && m.failed_paths.len() > 0) ==> (r matches Err(
            MarrowError::Message(why),
        ) && why@ == inexact(text::texts(exact->Some_0.failed_paths@))),
        !(exact matches Some(m) && m.failed_paths.len() > 0) ==> match tokens::cl100k_count(
            result.optimized_text@,
        ) {
            Some(n) => r matches Ok(b) && b.file_path@ == file_path@ && b.capsule_tokens == n
                && b.optimized_text@ == result.optimized_text@ && b.ambiguous == ambiguous
                && is_baseline(b, result, exact),
            None => r matches Err(MarrowError::Message(why)) && why@ == tokens::NOT_TOKENIZED@,
        },
{
    let mut provenance = result.provenance;
    let mut file_tokens: usize = result.file_tokens;
    match exact {
        Some(m) => {
            if m.failed_paths.len() > 0 {
                return Err(
                    MarrowError::Message(
                        "exact baseline unavailable: failed to tokenize touched file(s): ".to_owned().concat(
                            &join(&m.failed_paths, ", "),
                        ),
                    ),
                );
            }
            provenance.baseline_token_source = "exact".to_owned();
            provenance.tokenizer_mode = m.tokenizer_mode;
            provenance.precise_file_tokens = true;
            provenance.touched_file_count = m.touched_file_count;
            file_tokens = m.tokens;
        },
        None => {},
    }
    match count_tokens(&result.optimized_text) {
        Ok(capsule_tokens) => Ok(
            BenchmarkMeasurement {
                file_path,
                file_tokens,
                capsule_tokens,
                provenance,
                optimized_text: result.optimized_text,
                ambiguous,
            },
        ),
        Err(e) => Err(e),
    }
}

/// Whether a database could lead to this exact count, where one was asked for, and the
/// name turns out to be ambiguous for it or not.
pub open spec fn could_count(
    db: rusqlite::Connection,
    symbol: Seq<char>,
    repo: Seq<char>,
    filepath: Option<Seq<char>>,
    precise: bool,
    files: Seq<SourceFile>,
    limits: Settings,
    ambiguous: bool,
    exact: Option<PreciseTokenMeasurement>,
) -> bool {
    match exact {
        Some(m) => precise && capsule::could_measure_as(
            db,
            symbol,
            repo,
            filepath,
            files,
            limits,
            ambiguous,
            m,
        ),
        None => !precise && !ambiguous,
    }
}

/// Whether a database could lead to this measurement of a symbol.
pub open spec fn could_benchmark(
    db: rusqlite::Connection,
    symbol: Seq<char>,
    repo: Seq<char>,
    filepath: Option<Seq<char>>,
    precise: bool,
    files: Seq<SourceFile>,
    limits: Settings,
    b: BenchmarkMeasurement,
) -> bool {
    exists|
        in_capsule: bool,
        result: CapsuleResult,
        in_count: bool,
        exact: Option<PreciseTokenMeasurement>,
    |
        {
            &&& could_locate(db, symbol, repo, filepath, b.file_path@)
            &&& #[trigger] capsule::could_explore_as(
                db,
                symbol,
                repo,
                filepath,
                files,
                limits,
                in_capsule,
                result,
            )
            &&& #[trigger] could_count(
                db,
                symbol,
                repo,
                filepath,
                precise,
                files,
                limits,
                in_count,
                exact,
            )
            &&& exact matches Some(m) ==> m.failed_paths.len() == 0
            &&& b.ambiguous == symbols::counted(in_capsule) + symbols::counted(in_count)
            &&& tokens::cl100k_count(result.optimized_text@) == Some(b.capsule_tokens)
            &&& b.optimized_text@ == result.optimized_text@
            &&& #[trigger] is_baseline(b, result, exact)
        }
}

/// A measurement compares what a capsule costs, counted in its own text, with what its
/// files cost: as the capsule estimates it, or counted exactly where that is asked for.
pub proof fn law_capsules_are_compared_with_their_files(
    db: rusqlite::Connection,
    symbol: Seq<char>,
    repo: Seq<char>,
    filepath: Option<Seq<char>>,
    precise: bool,
    files: Seq<SourceFile>,
    limits: Settings,
    b: BenchmarkMeasurement,
)
    requires
        could_benchmark(db, symbol, repo, filepath, precise, files, limits, b),
    ensures
        tokens::cl100k_count(b.optimized_text@) == Some(b.capsule_tokens),
        !precise ==> exists|result: CapsuleResult, ambiguous: bool| #[trigger]
            capsule::could_explore_as(
                db,
                symbol,
                repo,
                filepath,
                files,
                limits,
                ambiguous,
                result,
            ) && b.optimized_text@ == result.optimized_text@ && b.file_tokens == result.file_tokens,
        precise ==> b.provenance.baseline_token_source@ == "exact"@
            && b.provenance.precise_file_tokens && exists|
            exact: PreciseTokenMeasurement,
            ambiguous: bool,
        | #[trigger]
            capsule::could_measure_as(
                db,
                symbol,
                repo,
                filepath,
                files,
                limits,
                ambiguous,
                exact,
            ) && exact.failed_paths.len() == 0 && b.file_tokens == exact.tokens,
{
}

/// Whether measuring a symbol could fail so: its file is not found, its capsule cannot be
/// had, a touched file that was to be counted exactly could not be, or the capsule cannot
/// be split into tokens.
pub open spec fn could_not_benchmark(
    db: rusqlite::Connection,
    symbol: Seq<char>,
    repo: Seq<char>,
    filepath: Option<Seq<char>>,
    precise: bool,
    files: Seq<SourceFile>,
    limits: Settings,
    e: MarrowError,
) -> bool {
    ||| could_not_locate(db, symbol, repo, filepath, e)
    ||| capsule::could_not_explore(db, symbol, repo, filepath, limits, e)
    ||| precise && exists|exact: PreciseTokenMeasurement|
        {
            &&& #[trigger] capsule::could_measure(db, symbol, repo, filepath, files, limits, exact)
            &&& exact.failed_paths.len() > 0
            &&& e matches MarrowError::Message(m) && m@ == inexact(
                text::texts(exact.failed_paths@),
            )
        }
    ||| exists|result: CapsuleResult|
        {
            &&& #[trigger] capsule::could_explore(db, symbol, repo, filepath, files, limits, result)
            &&& tokens::cl100k_count(result.optimized_text@) is None
            &&& e matches MarrowError::Message(m) && m@ == tokens::NOT_TOKENIZED@
        }
}

/// Measures a symbol's capsule against the files that it touches, by estimate or
/// exactly.
pub fn benchmark_measurement(
    conn: &rusqlite::Connection,
    symbol: &str,
    repo_id: &str,
    filepath: Option<&str>,
    precise_file_tokens: bool,
    limits: &Settings,
    files: &Vec<SourceFile>,
) -> (r: Result<BenchmarkMeasurement, MarrowError>)
    ensures
        match r {
            Ok(b) => could_benchmark(
                *conn,
                symbol@,
                repo_id@,
                text::opt_str(filepath),
                precise_file_tokens,
                files@,
                *limits,
                b,
            ),
            Err(e) => could_not_benchmark(
                *conn,
                symbol@,
                repo_id@,
                text::opt_str(filepath),
                precise_file_tokens,
                files@,
                *limits,
                e,
            ),
        },
{
    let file_path = match resolve_benchmark_file_path(conn, symbol, repo_id, filepath) {
        Ok(file_path) => file_path,
        Err(e) => {
            return Err(e);
        },
    };
    let (result, in_capsule) = match explore_symbol(
        conn,
        symbol,
        repo_id,
        filepath,
        limits,
        files,
    ) {
        Ok(found) => found,
        Err(e) => {
            return Err(e);
        },
    };
    let mut in_count = false;
    let exact: Option<PreciseTokenMeasurement> = if precise_file_tokens {
        match measure_symbol(conn, symbol, repo_id, filepath, limits, files) {
            Ok((m, ambiguous)) => {
                in_count = ambiguous;
                Some(m)
            },
            Err(e) => {
                return Err(e);
            },
        }
    } else {
        None
    };
    let ghost whole = result;
    let ghost counted = exact;
    assert(capsule::could_explore_as(
        *conn,
        symbol@,
        repo_id@,
        text::opt_str(filepath),
        files@,
        *limits,
        in_capsule,
        whole,
    ));
    assert(capsule::could_explore(
        *conn,
        symbol@,
        repo_id@,
        text::opt_str(filepath),
        files@,
        *limits,
        whole,
    ));
    assert(could_count(
        *conn,
        symbol@,
        repo_id@,
        text::opt_str(filepath),
        precise_file_tokens,
        files@,
        *limits,
        in_count,
        counted,
    ));
    assert(counted matches Some(m) ==> capsule::could_measure(
        *conn,
        symbol@,
        repo_id@,
        text::opt_str(filepath),
        files@,
        *limits,
        m,
    ));
    let mut ambiguous: usize = 0;
    if in_capsule {
        ambiguous += 1;
    }
    if in_count {
        ambiguous += 1;
    }
    match measure_against(file_path, result, exact, ambiguous) {
        Ok(b) => {
            assert(is_baseline(b, whole, counted));
            Ok(b)
        },
        Err(e) => Err(e),
    }
}

// ── The table ────────────────────────────────────────────────────────────────

/// A line of the table's head.
pub open spec fn head_line(s: Seq<char>) -> Seq<char> {
    "│"@ + text::padded_right(s, 67) + "│\n"@
}

/// A line of the table's body.
pub open spec fn body_line(label: Seq<char>, value: Seq<char>) -> Seq<char> {
    "│  "@ + text::padded_right(label, 25) + "│  "@ + text::padded_right(value, 37) + "│\n"@
}

/// A rule of the table.
pub open spec fn rule(left: Seq<char>, middle: Seq<char>, right: Seq<char>) -> Seq<char> {
    left + text::repeated("─"@, 27) + middle + text::repeated("─"@, 39) + right
}

fn push_head(t: &mut String, s: &str)
    ensures
        final(t)@ == old(t)@ + head_line(s@),
{
    let line = "│".to_owned().concat(&pad_right(s, 67)).concat("│\n");
    t.append(&line);
}

fn push_body(t: &mut String, label: &str, value: &str)
    ensures
        final(t)@ == old(t)@ + body_line(label@, value@),
{
    let line = "│  ".to_owned().concat(&pad_right(label, 25)).concat("│  ").concat(
        &pad_right(value, 37),
    ).concat("│\n");
    t.append(&line);
}

fn push_rule(t: &mut String, left: &str, middle: &str, right: &str)
    ensures
        final(t)@ == old(t)@ + rule(left@, middle@, right@),
{
    let line = left.to_owned().concat(&repeat("─", 27)).concat(middle).concat(
        &repeat("─", 39),
    ).concat(right);
    t.append(&line);
}

/// What a flag is called.
pub open spec fn flag_text(b: bool) -> Seq<char> {
    if b {
        "true"@
    } else {
        "false"@
    }
}

/// What an optional limit is called.
pub open spec fn limit_text(n: Option<usize>) -> Seq<char> {
    match n {
        Some(n) => text::decimal(n as nat),
        None => "none"@,
    }
}

/// The head of the table.
pub open spec fn table_head(symbol: Seq<char>, repo: Seq<char>, file: Seq<char>) -> Seq<char> {
    "┌"@ + text::repeated("─"@, 67) + "┐\n"@ + head_line("  Marrow Token Benchmark"@)
        + head_line("  Symbol: "@ + symbol + "  ·  Repo: "@ + repo) + head_line("  File:   "@ + file)
        + rule("├"@, "┬"@, "┤\n"@) + body_line("Metric"@, "Value"@) + rule("├"@, "┼"@, "┤\n"@)
}

/// The share of the baseline that is saved, as it is shown: none where nothing is saved,
/// else what is given.
pub open spec fn shown_reduction(
    file_tokens: usize,
    capsule_tokens: usize,
    reduction: Seq<char>,
) -> Seq<char> {
    if pipeline::saved(file_tokens, capsule_tokens) == 0 {
        "0.0%"@
    } else {
        reduction
    }
}

/// Where there is no baseline, or a capsule is no smaller than it, the reduction is
/// shown as none, whatever is given.
pub proof fn law_nothing_saved_is_no_reduction(
    file_tokens: usize,
    capsule_tokens: usize,
    reduction: Seq<char>,
)
    requires
        file_tokens == 0 || capsule_tokens >= file_tokens,
    ensures
        shown_reduction(file_tokens, capsule_tokens, reduction) == "0.0%"@,
{
}

/// The whole table. `reduction` is the share of the baseline that is saved, as it is
/// shown where something is.
pub open spec fn table_text(
    symbol: Seq<char>,
    repo: Seq<char>,
    file: Seq<char>,
    file_tokens: usize,
    capsule_tokens: usize,
    p: CapsuleProvenance,
    reduction: Seq<char>,
) -> Seq<char> {
    table_head(symbol, repo, file) + body_line(
        "Baseline Tokens"@,
        grouped(text::decimal(file_tokens as nat)),
    ) + body_line("Baseline Source"@, p.baseline_token_source@) + body_line(
        "Tokenizer"@,
        p.tokenizer_mode@,
    ) + body_line("Original Mode"@, p.original_mode@) + body_line("Proof Mode"@, p.proof_label@)
        + body_line("Precise File Tokens"@, flag_text(p.precise_file_tokens)) + body_line(
        "Original Max Bytes"@,
        limit_text(p.original_max_bytes),
    ) + body_line(
        "Proof Caps"@,
        text::decimal(p.proof_max_bytes as nat) + " bytes / "@ + text::decimal(
            p.proof_max_files as nat,
        ) + " files"@,
    ) + body_line("Capsule Tokens"@, grouped(text::decimal(capsule_tokens as nat))) + body_line(
        "Tokens Saved"@,
        grouped(text::decimal(pipeline::saved(file_tokens, capsule_tokens) as nat)),
    ) + body_line(
        "Reduction"@,
        shown_reduction(file_tokens, capsule_tokens, reduction),
    ) + rule("└"@, "┴"@, "┘"@)
}

/// Under its head the table has a line for every figure, in a column of names and one of
/// values: what the files cost and how that was counted, what the capsule costs, and how
/// much of the former the latter saves.
pub proof fn law_tables_have_a_line_for_every_figure(
    symbol: Seq<char>,
    repo: Seq<char>,
    file: Seq<char>,
    file_tokens: usize,
    capsule_tokens: usize,
    p: CapsuleProvenance,
    reduction: Seq<char>,
    rows: Seq<(Seq<char>, Seq<char>)>,
)
    requires
        rows == seq![
            ("Baseline Tokens"@, grouped(text::decimal(file_tokens as nat))),
            ("Baseline Source"@, p.baseline_token_source@),
            ("Tokenizer"@, p.tokenizer_mode@),
            ("Original Mode"@, p.original_mode@),
            ("Proof Mode"@, p.proof_label@),
            ("Precise File Tokens"@, flag_text(p.precise_file_tokens)),
            ("Original Max Bytes"@, limit_text(p.original_max_bytes)),
            (
                "Proof Caps"@,
                text::decimal(p.proof_max_bytes as nat) + " bytes / "@ + text::decimal(
                    p.proof_max_files as nat,
                ) + " files"@,
            ),
            ("Capsule Tokens"@, grouped(text::decimal(capsule_tokens as nat))),
            ("Tokens Saved"@, grouped(
                    text::decimal(
                        if capsule_tokens < file_tokens {
                            (file_tokens - capsule_tokens) as nat
                        } else {
                            0
                        },
                    ),
                )),
            ("Reduction"@, shown_reduction(file_tokens, capsule_tokens, reduction)),
        ],
    ensures
        table_text(symbol, repo, file, file_tokens, capsule_tokens, p, reduction) == table_head(
            symbol,
            repo,
            file,
        ) + rows.flat_map(
            |row: (Seq<char>, Seq<char>)|
                "│  "@ + text::padded_right(row.0, 25) + "│  "@ + text::padded_right(row.1, 37)
                    + "│\n"@,
        ) + rule("└"@, "┴"@, "┘"@),
{
    let line = |row: (Seq<char>, Seq<char>)|
        "│  "@ + text::padded_right(row.0, 25) + "│  "@ + text::padded_right(row.1, 37) + "│\n"@;
    let head = table_head(symbol, repo, file);
    assert(rows.take(0).flat_map(line) =~= Seq::empty());
    text::lemma_put_together(head, Seq::empty(), Seq::empty());
    rows.lemma_flat_map_take_append(line, 0);
    text::lemma_put_together(head, rows.take(0).flat_map(line), line(rows[0]));
    rows.lemma_flat_map_take_append(line, 1);
    text::lemma_put_together(head, rows.take(1).flat_map(line), line(rows[1]));
    rows.lemma_flat_map_take_append(line, 2);
    text::lemma_put_together(head, rows.take(2).flat_map(line), line(rows[2]));
    rows.lemma_flat_map_take_append(line, 3);
    text::lemma_put_together(head, rows.take(3).flat_map(line), line(rows[3]));
    rows.lemma_flat_map_take_append(line, 4);
    text::lemma_put_together(head, rows.take(4).flat_map(line), line(rows[4]));
    rows.lemma_flat_map_take_append(line, 5);
    text::lemma_put_together(head, rows.take(5).flat_map(line), line(rows[5]));
    rows.lemma_flat_map_take_append(line, 6);
    text::lemma_put_together(head, rows.take(6).flat_map(line), line(rows[6]));
    rows.lemma_flat_map_take_append(line, 7);
    text::lemma_put_together(head, rows.take(7).flat_map(line), line(rows[7]));
    rows.lemma_flat_map_take_append(line, 8);
    text::lemma_put_together(head, rows.take(8).flat_map(line), line(rows[8]));
    rows.lemma_flat_map_take_append(line, 9);
    text::lemma_put_together(head, rows.take(9).flat_map(line), line(rows[9]));
    rows.lemma_flat_map_take_append(line, 10);
    text::lemma_put_together(head, rows.take(10).flat_map(line), line(rows[10]));
    assert(rows.take(11) =~= rows);
}

fn write_table_head(symbol: &str, repo_id: &str, file_path: &str) -> (r: String)
    ensures
        r@ == table_head(symbol@, repo_id@, file_path@),
{
    let title = "  Symbol: ".to_owned().concat(symbol).concat("  ·  Repo: ").concat(repo_id);
    let place = "  File:   ".to_owned().concat(file_path);
    let mut t = "┌".to_owned().concat(&repeat("─", 67)).concat("┐\n");
    push_head(&mut t, "  Marrow Token Benchmark");
    push_head(&mut t, &title);
    push_head(&mut t, &place);
    push_rule(&mut t, "├", "┬", "┤\n");
    push_body(&mut t, "Metric", "Value");
    push_rule(&mut t, "├", "┼", "┤\n");
    t
}

/// The number of tokens that a capsule saves.
pub fn tokens_saved(file_tokens: usize, capsule_tokens: usize) -> (r: usize)
    ensures
        r == pipeline::saved(file_tokens, capsule_tokens),
{
    if capsule_tokens <= file_tokens {
        file_tokens - capsule_tokens
    } else {
        0
    }
}

/// The table of a measurement. `reduction` is the share of the baseline that is saved,
/// as it is shown where something is.
pub fn format_benchmark_table(
    symbol: &str,
    repo_id: &str,
    file_path: &str,
    file_tokens: usize,
    capsule_tokens: usize,
    provenance: &CapsuleProvenance,
    reduction: &str,
) -> (r: String)
    ensures
        r@ == table_text(
            symbol@,
            repo_id@,
            file_path@,
            file_tokens,
            capsule_tokens,
            *provenance,
            reduction@,
        ),
{
    let flag: &str = if provenance.precise_file_tokens {
        "true"
    } else {
        "false"
    };
    let limit = match provenance.original_max_bytes {
        Some(n) => count_text(n),
        None => "none".to_owned(),
    };
    let caps = count_text(provenance.proof_max_bytes).concat(" bytes / ").concat(
        &count_text(provenance.proof_max_files),
    ).concat(" files");
    let saved = tokens_saved(file_tokens, capsule_tokens);
    let mut t = write_table_head(symbol, repo_id, file_path);
    push_body(&mut t, "Baseline Tokens", &fmt_num(file_tokens));
    push_body(&mut t, "Baseline Source", &provenance.baseline_token_source);
    push_body(&mut t, "Tokenizer", &provenance.tokenizer_mode);
    push_body(&mut t, "Original Mode", &provenance.original_mode);
    push_body(&mut t, "Proof Mode", &provenance.proof_label);
    push_body(&mut t, "Precise File Tokens", flag);
    push_body(&mut t, "Original Max Bytes", &limit);
    push_body(&mut t, "Proof Caps", &caps);
    push_body(&mut t, "Capsule Tokens", &fmt_num(capsule_tokens));
    push_body(&mut t, "Tokens Saved", &fmt_num(saved));
    let share: &str = if saved == 0 {
        "0.0%"
    } else {
        reduction
    };
    push_body(&mut t, "Reduction", share);
    push_rule(&mut t, "└", "┴", "┘");
    t
}

} // verus!
