//! A map of a repository's files and their symbols.
use crate::order;
use crate::order::insert_ascending;
use crate::store;
use crate::store::{count, keep_text_rows, select, MarrowError, Param};
use crate::symbols;
use crate::symbols::{escape_like_pattern, normalize_path_separators};
use crate::text;
use crate::text::{chars_of, same, text_between};
use vstd::prelude::*;
use vstd::string::*;

verus! {

/// How many symbols a map lists at most.
pub const SKELETON_ROW_LIMIT: usize = 2000;

pub const COUNT_SQL: &'static str = "SELECT COUNT(*) FROM nodes WHERE repo_id = ?1";

/// A map lists functions, classes, structs, traits and interfaces.
pub const ALL_SQL: &'static str =
    "SELECT file_path, symbol_type, symbol_name FROM nodes WHERE repo_id = ?1 AND (symbol_type LIKE '%function%' OR symbol_type LIKE '%class%' OR symbol_type LIKE '%struct%' OR symbol_type LIKE '%trait%' OR symbol_type LIKE '%interface%') ORDER BY file_path ASC, rowid ASC LIMIT ?2";

/// The same below a directory, and the file of that name.
pub const DIRECTORY_SQL: &'static str =
    "SELECT file_path, symbol_type, symbol_name FROM nodes WHERE repo_id = ?1 AND (symbol_type LIKE '%function%' OR symbol_type LIKE '%class%' OR symbol_type LIKE '%struct%' OR symbol_type LIKE '%trait%' OR symbol_type LIKE '%interface%') AND (REPLACE(file_path, '\\', '/') = ?3 OR REPLACE(file_path, '\\', '/') LIKE ?4 ESCAPE '\\') ORDER BY file_path ASC, rowid ASC LIMIT ?2";

pub const NO_MATCH: &'static str =
    "No matching symbols found for the given filter.\nTry a different `target_dir` or check that the repo is indexed.";

pub const MAP_TRUNCATED: &'static str =
    "\n[WARNING: Repository map truncated for token safety. Use get_context_capsule on specific files for deeper exploration.]\n";

// ── The map ──────────────────────────────────────────────────────────────────

/// Whether a list names the files of the rows: in ascending order, each once.
pub open spec fn is_path_list(v: Seq<Seq<char>>, rows: Seq<Seq<Seq<char>>>) -> bool {
    &&& order::ascending(v)
    &&& forall|t: Seq<char>| #[trigger]
        v.contains(t) <==> exists|i: int| 0 <= i < rows.len() && (#[trigger] rows[i])[0] == t
}

/// The files of the rows in ascending order.
pub open spec fn path_list(rows: Seq<Seq<Seq<char>>>) -> Seq<Seq<char>> {
    choose|v: Seq<Seq<char>>| is_path_list(v, rows)
}

/// There is exactly one list of the files of the rows.
pub proof fn lemma_path_list(v: Seq<Seq<char>>, rows: Seq<Seq<Seq<char>>>)
    requires
        is_path_list(v, rows),
    ensures
        path_list(rows) == v,
{
    let w = path_list(rows);
    assert(is_path_list(w, rows));
    assert forall|t: Seq<char>| v.contains(t) <==> w.contains(t) by {}
    order::lemma_ascending_unique(v, w);
}

/// `start` followed by the symbols of one file, among the first `n` rows.
pub open spec fn with_file_symbols(
    start: Seq<char>,
    rows: Seq<Seq<Seq<char>>>,
    path: Seq<char>,
    n: int,
) -> Seq<char>
    decreases n,
{
    if n <= 0 {
        start
    } else {
        let head = with_file_symbols(start, rows, path, n - 1);
        if rows[n - 1][0] == path {
            head + ("   - ["@ + rows[n - 1][1] + "] "@ + rows[n - 1][2] + "\n"@)
        } else {
            head
        }
    }
}

/// The first `n` files, each with its symbols.
pub open spec fn with_files(rows: Seq<Seq<Seq<char>>>, paths: Seq<Seq<char>>, n: int) -> Seq<char>
    decreases n,
{
    if n <= 0 {
        Seq::empty()
    } else {
        with_file_symbols(
            with_files(rows, paths, n - 1) + ("📁 "@ + paths[n - 1] + "\n"@),
            rows,
            paths[n - 1],
            rows.len() as int,
        )
    }
}

/// The map that rows of file, kind and name give.
pub open spec fn map_text(rows: Seq<Seq<Seq<char>>>) -> Seq<char> {
    if rows.len() == 0 {
        NO_MATCH@
    } else {
        let all = with_files(rows, path_list(rows), path_list(rows).len() as int);
        if rows.len() >= SKELETON_ROW_LIMIT {
            all + MAP_TRUNCATED@
        } else {
            all
        }
    }
}

proof fn lemma_file_symbols(
    start: Seq<char>,
    rows: Seq<Seq<Seq<char>>>,
    path: Seq<char>,
    n: int,
    here: spec_fn(Seq<Seq<char>>) -> bool,
    line: spec_fn(Seq<Seq<char>>) -> Seq<char>,
)
    requires
        0 <= n <= rows.len(),
        forall|r: Seq<Seq<char>>| #[trigger] here(r) == (r[0] == path),
        forall|r: Seq<Seq<char>>| #[trigger] line(r) == "   - ["@ + r[1] + "] "@ + r[2] + "\n"@,
    ensures
        with_file_symbols(start, rows, path, n) == start + rows.take(n).filter(here).flat_map(line),
    decreases n,
{
    reveal(Seq::filter);
    if n > 0 {
        lemma_file_symbols(start, rows, path, n - 1, here, line);
        let before = rows.take(n - 1);
        assert(rows.take(n).drop_last() =~= before);
        if here(rows[n - 1]) {
            before.filter(here).lemma_flat_map_push(line, rows[n - 1]);
            text::lemma_put_together(
                start,
                before.filter(here).flat_map(line),
                line(rows[n - 1]),
            );
        }
    } else {
        assert(rows.take(0) =~= Seq::empty());
        assert(rows.take(0).filter(here).flat_map(line) =~= Seq::empty());
        text::lemma_put_together(start, start, start);
    }
}

/// Whether a row is of a file.
pub open spec fn in_file(path: Seq<char>) -> spec_fn(Seq<Seq<char>>) -> bool {
    |r: Seq<Seq<char>>| r[0] == path
}

/// The heading of a file and the line of every row of it, in order.
pub open spec fn file_told(rows: Seq<Seq<Seq<char>>>, path: Seq<char>) -> Seq<char> {
    "📁 "@ + path + "\n"@ + rows.filter(in_file(path)).flat_map(
        |r: Seq<Seq<char>>| "   - ["@ + r[1] + "] "@ + r[2] + "\n"@,
    )
}

proof fn lemma_one_file(start: Seq<char>, rows: Seq<Seq<Seq<char>>>, path: Seq<char>)
    ensures
        with_file_symbols(start + ("📁 "@ + path + "\n"@), rows, path, rows.len() as int) == start
            + file_told(rows, path),
{
    let here = in_file(path);
    let line = |r: Seq<Seq<char>>| "   - ["@ + r[1] + "] "@ + r[2] + "\n"@;
    let head = "📁 "@ + path + "\n"@;
    lemma_file_symbols(start + head, rows, path, rows.len() as int, here, line);
    assert(rows.take(rows.len() as int) =~= rows);
    text::lemma_put_together(start, head, rows.filter(here).flat_map(line));
}

proof fn lemma_files_told(
    rows: Seq<Seq<Seq<char>>>,
    paths: Seq<Seq<char>>,
    n: int,
    told: spec_fn(Seq<char>) -> Seq<char>,
)
    requires
        0 <= n <= paths.len(),
        forall|p: Seq<char>| #[trigger] told(p) == file_told(rows, p),
    ensures
        with_files(rows, paths, n) == paths.take(n).flat_map(told),
    decreases n,
{
    if n > 0 {
        lemma_files_told(rows, paths, n - 1, told);
        lemma_one_file(with_files(rows, paths, n - 1), rows, paths[n - 1]);
        paths.lemma_flat_map_take_append(told, n - 1);
    } else {
        assert(paths.take(0).flat_map(told) =~= Seq::empty());
    }
}

/// A map tells every file that has a row, once and in ascending order, and under it every
/// row of that file, in the order of the rows, by kind and name. That it may be cut short
/// is said of one with two thousand rows or more, and that there is nothing of one without
/// rows.
pub proof fn law_maps_tell_every_row_under_its_file(
    rows: Seq<Seq<Seq<char>>>,
    paths: Seq<Seq<char>>,
)
    requires
        order::ascending(paths),
        forall|t: Seq<char>| #[trigger]
            paths.contains(t) <==> exists|i: int|
                0 <= i < rows.len() && (#[trigger] rows[i])[0] == t,
    ensures
        rows.len() == 0 ==> map_text(rows)
            == "No matching symbols found for the given filter.\nTry a different `target_dir` or check that the repo is indexed."@,
        rows.len() > 0 ==> map_text(rows) == paths.flat_map(
            |path: Seq<char>|
                "📁 "@ + path + "\n"@ + rows.filter(in_file(path)).flat_map(
                    |r: Seq<Seq<char>>| "   - ["@ + r[1] + "] "@ + r[2] + "\n"@,
                ),
        ) + (if rows.len() >= 2000 {
            "\n[WARNING: Repository map truncated for token safety. Use get_context_capsule on specific files for deeper exploration.]\n"@
        } else {
            Seq::empty()
        }),
{
    lemma_path_list(paths, rows);
    let told = |path: Seq<char>|
        "📁 "@ + path + "\n"@ + rows.filter(in_file(path)).flat_map(
            |r: Seq<Seq<char>>| "   - ["@ + r[1] + "] "@ + r[2] + "\n"@,
        );
    lemma_files_told(rows, paths, paths.len() as int, told);
    assert(paths.take(paths.len() as int) =~= paths);
    let all = paths.flat_map(told);
    text::lemma_put_together(all, all, all);
}

fn files_of(rows: &Vec<Vec<String>>) -> (r: Vec<String>)
    requires
        forall|i: int| 0 <= i < rows.len() ==> #[trigger] rows@[i].len() == 3,
    ensures
        text::texts(r@) == path_list(store::table(rows@)),
{
    let ghost all = store::table(rows@);
    let mut out: Vec<String> = Vec::new();
    let mut i: usize = 0;
    while i < rows.len()
        invariant
            i <= rows.len(),
            all == store::table(rows@),
            forall|k: int| 0 <= k < rows.len() ==> #[trigger] rows@[k].len() == 3,
            order::ascending(text::texts(out@)),
            forall|t: Seq<char>| #[trigger]
                text::texts(out@).contains(t) <==> exists|k: int|
                    0 <= k < i && (#[trigger] all[k])[0] == t,
        decreases rows.len() - i,
    {
        let row = &rows[i];
        assert(rows@[i as int].len() == 3);
        assert(all[i as int] == text::texts(row@));
        let ghost before = text::texts(out@);
        insert_ascending(&mut out, &row[0]);
        proof {
            let after = text::texts(out@);
            let path = row@[0]@;
            assert(all[i as int][0] == path);
            assert forall|t: Seq<char>| #[trigger] after.contains(t) <==> exists|k: int|
                0 <= k < i + 1 && (#[trigger] all[k])[0] == t by {
                assert(after.contains(t) <==> before.contains(t) || t == path);
                if before.contains(t) {
                    let k = choose|k: int| 0 <= k < i && (#[trigger] all[k])[0] == t;
                    assert(all[k][0] == t);
                }
            }
        }
        i += 1;
    }
    proof {
        assert(is_path_list(text::texts(out@), all));
        lemma_path_list(text::texts(out@), all);
    }
    out
}

/// The map that rows of file, kind and name give.
pub fn format_skeleton(rows: &Vec<Vec<String>>) -> (r: String)
    requires
        forall|i: int| 0 <= i < rows.len() ==> #[trigger] rows@[i].len() == 3,
    ensures
        r@ == map_text(store::table(rows@)),
{
    if rows.len() == 0 {
        return NO_MATCH.to_owned();
    }
    let ghost all = store::table(rows@);
    let files = files_of(rows);
    let ghost paths = text::texts(files@);
    let mut out = String::new();
    let mut i: usize = 0;
    while i < files.len()
        invariant
            i <= files.len(),
            all == store::table(rows@),
            paths == text::texts(files@),
            forall|k: int| 0 <= k < rows.len() ==> #[trigger] rows@[k].len() == 3,
            out@ == with_files(all, paths, i as int),
        decreases files.len() - i,
    {
        let path = &files[i];
        assert(paths[i as int] == path@);
        out.append(&"📁 ".to_owned().concat(path).concat("\n"));
        let ghost start = out@;
        let mut j: usize = 0;
        while j < rows.len()
            invariant
                j <= rows.len(),
                all == store::table(rows@),
                forall|k: int| 0 <= k < rows.len() ==> #[trigger] rows@[k].len() == 3,
                out@ == with_file_symbols(start, all, path@, j as int),
            decreases rows.len() - j,
        {
            let row = &rows[j];
            assert(rows@[j as int].len() == 3);
            assert(all[j as int] == text::texts(row@));
            if same(&row[0], path) {
                let line = "   - [".to_owned().concat(&row[1]).concat("] ").concat(
                    &row[2],
                ).concat("\n");
                out.append(&line);
            }
            j += 1;
        }
        i += 1;
    }
    assert(paths.len() == files.len());
    if rows.len() >= SKELETON_ROW_LIMIT {
        out.append(MAP_TRUNCATED);
    }
    out
}

// ── The request ──────────────────────────────────────────────────────────────

/// A path without the slashes at its end.
pub open spec fn unslashed(s: Seq<char>) -> Seq<char>
    decreases s.len(),
{
    if s.len() > 0 && s.last() == '/' {
        unslashed(s.drop_last())
    } else {
        s
    }
}

/// `path` without the slashes at its end.
pub fn trim_slashes(path: &str) -> (r: String)
    ensures
        r@ == unslashed(path@),
{
    let chars = chars_of(path);
    let mut end: usize = chars.len();
    assert(path@.subrange(0, path@.len() as int) =~= path@);
    while end > 0 && chars[end - 1] == '/'
        invariant
            end <= chars.len(),
            chars@ == path@,
            unslashed(path@) == unslashed(path@.subrange(0, end as int)),
        decreases end,
    {
        assert(path@.subrange(0, end as int).drop_last() =~= path@.subrange(0, end - 1));
        end -= 1;
    }
    text_between(&chars, 0, end)
}

/// What is said of a repository without symbols.
pub open spec fn not_indexed(repo: Seq<char>) -> Seq<char> {
    "No symbols found for repo '"@ + repo
        + "'. The repository has not been indexed yet.\nRun the `ingest_repo` tool to build the AST graph before using `get_skeleton`."@
}

/// The statement that reads the symbols for a map.
pub open spec fn map_sql(dir: Option<Seq<char>>) -> Seq<char> {
    match dir {
        Some(_) => DIRECTORY_SQL@,
        None => ALL_SQL@,
    }
}

/// The values bound to it: for a directory its path, and a pattern for what lies below.
pub open spec fn map_bounds(repo: Seq<char>, dir: Option<Seq<char>>) -> Seq<store::Bound> {
    let all = store::text_and_number(repo, SKELETON_ROW_LIMIT as int);
    match dir {
        Some(d) => {
            let exact = symbols::slashed(unslashed(d));
            all.push(store::Bound::Text(exact)).push(
                store::Bound::Text(symbols::escaped(exact) + "/%"@),
            )
        },
        None => all,
    }
}

/// Whether a database could lead to this map of a repository.
pub open spec fn could_map(
    db: rusqlite::Connection,
    repo: Seq<char>,
    dir: Option<Seq<char>>,
    shown: Seq<char>,
) -> bool {
    ||| store::could_count(db, COUNT_SQL@, store::one_text(repo), 0) && shown == not_indexed(repo)
    ||| could_be_indexed(db, repo) && exists|
            answer: Seq<Result<Vec<store::Cell>, rusqlite::Error>>,
        |
        {
            &&& #[trigger] store::could_answer(db, map_sql(dir), map_bounds(repo, dir), answer)
            &&& shown == map_text(store::text_rows(answer, 3))
        }
}

/// A map is of a repository that has symbols, and tells what the database could yield of
/// them; of one without symbols it is said that it is not indexed.
pub proof fn law_maps_are_of_indexed_repositories(
    db: rusqlite::Connection,
    repo: Seq<char>,
    dir: Option<Seq<char>>,
    shown: Seq<char>,
)
    requires
        could_map(db, repo, dir, shown),
    ensures
        ({
            ||| shown == "No symbols found for repo '"@ + repo
                + "'. The repository has not been indexed yet.\nRun the `ingest_repo` tool to build the AST graph before using `get_skeleton`."@
                && store::could_count(
                db,
                "SELECT COUNT(*) FROM nodes WHERE repo_id = ?1"@,
                seq![store::Bound::Text(repo)],
                0,
            )
            ||| exists|answer: Seq<Result<Vec<store::Cell>, rusqlite::Error>>| #[trigger]
                store::could_yield(db, map_sql(dir), map_bounds(repo, dir), Ok(answer)) && shown
                    == map_text(store::text_rows(answer, 3))
        }),
{
    if !(store::could_count(db, COUNT_SQL@, store::one_text(repo), 0) && shown == not_indexed(
        repo,
    )) {
        let answer = choose|answer: Seq<Result<Vec<store::Cell>, rusqlite::Error>>|
            {
                &&& #[trigger] store::could_answer(
                    db,
                    map_sql(dir),
                    map_bounds(repo, dir),
                    answer,
                )
                &&& shown == map_text(store::text_rows(answer, 3))
            };
        assert(store::could_yield(db, map_sql(dir), map_bounds(repo, dir), Ok(answer)));
    }
}

/// Whether a database could count symbols of a repository.
pub open spec fn could_be_indexed(db: rusqlite::Connection, repo: Seq<char>) -> bool {
    exists|n: i64| n != 0 && #[trigger] store::could_count(db, COUNT_SQL@, store::one_text(repo), n)
}

/// A map of a directory asks for what lies in the file of that name or below the directory
/// of that name, slashes at its end left off and backslashes read as slashes; a map without
/// one for the whole repository. Both ask for at most two thousand rows.
pub proof fn law_maps_ask_for_their_directory(repo: Seq<char>, dir: Option<Seq<char>>)
    ensures
        dir is None ==> map_bounds(repo, dir) == seq![
            store::Bound::Text(repo),
            store::Bound::Int(2000),
        ] && map_sql(dir)
            == "SELECT file_path, symbol_type, symbol_name FROM nodes WHERE repo_id = ?1 AND (symbol_type LIKE '%function%' OR symbol_type LIKE '%class%' OR symbol_type LIKE '%struct%' OR symbol_type LIKE '%trait%' OR symbol_type LIKE '%interface%') ORDER BY file_path ASC, rowid ASC LIMIT ?2"@,
        dir matches Some(d) ==> map_sql(dir)
            == "SELECT file_path, symbol_type, symbol_name FROM nodes WHERE repo_id = ?1 AND (symbol_type LIKE '%function%' OR symbol_type LIKE '%class%' OR symbol_type LIKE '%struct%' OR symbol_type LIKE '%trait%' OR symbol_type LIKE '%interface%') AND (REPLACE(file_path, '\\', '/') = ?3 OR REPLACE(file_path, '\\', '/') LIKE ?4 ESCAPE '\\') ORDER BY file_path ASC, rowid ASC LIMIT ?2"@
            && exists|k: int|
            {
                let exact = (#[trigger] d.take(k)).map_values(
                    |c: char| if c == '\\' { '/' } else { c },
                );
                &&& 0 <= k <= d.len()
                &&& k > 0 ==> d[k - 1] != '/'
                &&& forall|i: int| k <= i < d.len() ==> d[i] == '/'
                &&& map_bounds(repo, dir) == seq![
                    store::Bound::Text(repo),
                    store::Bound::Int(2000),
                    store::Bound::Text(exact),
                    store::Bound::Text(symbols::escaped(exact) + "/%"@),
                ]
            },
{
    match dir {
        None => {
            assert(map_bounds(repo, dir) =~= seq![
                store::Bound::Text(repo),
                store::Bound::Int(2000),
            ]);
        },
        Some(d) => {
            let k = lemma_unslashed(d);
            let exact = symbols::slashed(d.take(k));
            assert(exact =~= d.take(k).map_values(|c: char| if c == '\\' { '/' } else { c }));
            assert(map_bounds(repo, dir) =~= seq![
                store::Bound::Text(repo),
                store::Bound::Int(2000),
                store::Bound::Text(exact),
                store::Bound::Text(symbols::escaped(exact) + "/%"@),
            ]);
        },
    }
}

proof fn lemma_unslashed(s: Seq<char>) -> (k: int)
    ensures
        0 <= k <= s.len(),
        unslashed(s) == s.take(k),
        k > 0 ==> s[k - 1] != '/',
        forall|i: int| k <= i < s.len() ==> s[i] == '/',
    decreases s.len(),
{
    if s.len() > 0 && s.last() == '/' {
        let k = lemma_unslashed(s.drop_last());
        assert(s.drop_last().take(k) =~= s.take(k));
        assert forall|i: int| k <= i < s.len() implies s[i] == '/' by {
            if i < s.len() - 1 {
                assert(s.drop_last()[i] == s[i]);
            }
        }
        k
    } else {
        assert(s.take(s.len() as int) =~= s);
        s.len() as int
    }
}

/// Whether mapping a repository could fail so: its symbols cannot be counted, or the
/// database refuses to count or to read them.
pub open spec fn could_not_map(
    db: rusqlite::Connection,
    repo: Seq<char>,
    dir: Option<Seq<char>>,
    e: MarrowError,
) -> bool {
    ||| store::could_not_count(db, COUNT_SQL@, store::one_text(repo), e)
    ||| could_be_indexed(db, repo) && (e matches MarrowError::Store(why) && store::could_refuse(
        db,
        map_sql(dir),
        map_bounds(repo, dir),
        why,
    ))
}

/// Maps the symbols of a repository by file, below `target_dir` where it is given.
pub fn get_project_skeleton(
    conn: &rusqlite::Connection,
    repo_id: &str,
    target_dir: Option<&str>,
) -> (r: Result<String, MarrowError>)
    ensures
        match r {
            Ok(shown) => could_map(*conn, repo_id@, text::opt_str(target_dir), shown@),
            Err(e) => could_not_map(*conn, repo_id@, text::opt_str(target_dir), e),
        },
{
    let ghost dir = text::opt_str(target_dir);
    match count(conn, COUNT_SQL, store::bind_one(repo_id)) {
        Ok(n) => {
            assert(store::could_count(*conn, COUNT_SQL@, store::one_text(repo_id@), n));
            if n == 0 {
                let shown = "No symbols found for repo '".to_owned().concat(repo_id).concat(
                    "'. The repository has not been indexed yet.\nRun the `ingest_repo` tool to build the AST graph before using `get_skeleton`.",
                );
                return Ok(shown);
            }
        },
        Err(e) => {
            return Err(e);
        },
    }
    let mut params: Vec<Param> = Vec::new();
    params.push(Param::Text(repo_id.to_owned()));
    params.push(Param::Int(SKELETON_ROW_LIMIT as i64));
    let sql: &str = match target_dir {
        Some(d) => {
            let exact = normalize_path_separators(&trim_slashes(d));
            params.push(Param::Text(exact.clone()));
            params.push(Param::Text(escape_like_pattern(&exact).concat("/%")));
            DIRECTORY_SQL
        },
        None => ALL_SQL,
    };
    assert(store::bounds(params@) =~= map_bounds(repo_id@, dir));
    match select(conn, sql, params) {
        Ok(answer) => {
            let rows = keep_text_rows(&answer, 3);
            let shown = format_skeleton(&rows);
            assert(store::could_answer(*conn, map_sql(dir), map_bounds(repo_id@, dir), answer@));
            Ok(shown)
        },
        Err(e) => Err(MarrowError::Store(e)),
    }
}

} // verus!
