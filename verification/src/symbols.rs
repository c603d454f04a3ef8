//! Looking symbols up: by exact name, by fragment, and what to say of several.
use crate::model::NodeBrief;
use crate::scan;
use crate::scan::trim;
use crate::store;
use crate::store::{bind_three, bind_two, keep_text_rows, select, MarrowError, Param};
use crate::text;
use crate::text::{chars_of, count_text, join, text_between};
use vstd::prelude::*;
use vstd::string::*;

verus! {

/// How many candidates of an ambiguous name are listed at most.
pub const MAX_DISAMBIGUATION_ITEMS: usize = 20;

/// How many matches of a fragment are listed when no limit is given.
pub const FIND_SYMBOL_DEFAULT_LIMIT: usize = 50;

pub const EXACT_SQL: &'static str =
    "SELECT id, symbol_name, symbol_type, file_path, language, raw_text FROM nodes WHERE symbol_name = ?1 AND repo_id = ?2 ORDER BY file_path ASC, id ASC";

pub const EXACT_IN_FILE_SQL: &'static str =
    "SELECT id, symbol_name, symbol_type, file_path, language, raw_text FROM nodes WHERE symbol_name = ?1 AND repo_id = ?2 AND REPLACE(file_path, '\\', '/') = ?3 ORDER BY file_path ASC, id ASC";

pub const WORD_SQL: &'static str =
    "SELECT n.file_path, n.symbol_type, n.symbol_name FROM nodes_fts JOIN nodes n ON n.rowid = nodes_fts.rowid WHERE nodes_fts MATCH ?1 AND n.repo_id = ?2 ORDER BY bm25(nodes_fts) ASC, n.symbol_name ASC, n.file_path ASC, n.rowid ASC LIMIT ?3";

pub const WORD_AND_KIND_SQL: &'static str =
    "SELECT n.file_path, n.symbol_type, n.symbol_name FROM nodes_fts JOIN nodes n ON n.rowid = nodes_fts.rowid WHERE nodes_fts MATCH ?1 AND n.repo_id = ?2 AND n.symbol_type LIKE ?3 ESCAPE '\\' ORDER BY bm25(nodes_fts) ASC, n.symbol_name ASC, n.file_path ASC, n.rowid ASC LIMIT ?4";

pub const FRAGMENT_SQL: &'static str =
    "SELECT file_path, symbol_type, symbol_name FROM nodes WHERE repo_id = ?1 AND symbol_name LIKE ?2 ESCAPE '\\' ORDER BY length(symbol_name) ASC, symbol_name ASC, file_path ASC, rowid ASC LIMIT ?3";

pub const FRAGMENT_AND_KIND_SQL: &'static str =
    "SELECT file_path, symbol_type, symbol_name FROM nodes WHERE repo_id = ?1 AND symbol_name LIKE ?2 ESCAPE '\\' AND symbol_type LIKE ?3 ESCAPE '\\' ORDER BY length(symbol_name) ASC, symbol_name ASC, file_path ASC, rowid ASC LIMIT ?4";

// ── Nodes ────────────────────────────────────────────────────────────────────

/// A node row without its representation.
pub struct NodeText {
    pub id: Seq<char>,
    pub symbol_name: Seq<char>,
    pub symbol_type: Seq<char>,
    pub file_path: Seq<char>,
    pub language: Seq<char>,
    pub raw_text: Seq<char>,
}

impl View for NodeBrief {
    type V = NodeText;

    open spec fn view(&self) -> NodeText {
        NodeText {
            id: self.id@,
            symbol_name: self.symbol_name@,
            symbol_type: self.symbol_type@,
            file_path: self.file_path@,
            language: self.language@,
            raw_text: self.raw_text@,
        }
    }
}

/// The node that six texts from `at` on describe.
pub open spec fn node_from(row: Seq<Seq<char>>, at: int) -> NodeText {
    NodeText {
        id: row[at],
        symbol_name: row[at + 1],
        symbol_type: row[at + 2],
        file_path: row[at + 3],
        language: row[at + 4],
        raw_text: row[at + 5],
    }
}

/// The nodes of a list.
pub open spec fn node_texts(v: Seq<NodeBrief>) -> Seq<NodeText> {
    Seq::new(v.len(), |i: int| v[i]@)
}

/// The nodes that rows of six texts describe.
pub open spec fn nodes_from(rows: Seq<Seq<Seq<char>>>) -> Seq<NodeText> {
    Seq::new(rows.len(), |i: int| node_from(rows[i], 0))
}

/// The node that six texts from `at` on describe.
pub fn read_node(row: &Vec<String>, at: usize) -> (r: NodeBrief)
    requires
        at + 6 <= row.len(),
    ensures
        r@ == node_from(text::texts(row@), at as int),
{
    NodeBrief {
        id: row[at].clone(),
        symbol_name: row[at + 1].clone(),
        symbol_type: row[at + 2].clone(),
        file_path: row[at + 3].clone(),
        language: row[at + 4].clone(),
        raw_text: row[at + 5].clone(),
    }
}

fn read_nodes(rows: &Vec<Vec<String>>) -> (r: Vec<NodeBrief>)
    requires
        forall|i: int| 0 <= i < rows.len() ==> #[trigger] rows@[i].len() == 6,
    ensures
        node_texts(r@) == nodes_from(store::table(rows@)),
{
    let mut out: Vec<NodeBrief> = Vec::new();
    let mut i: usize = 0;
    while i < rows.len()
        invariant
            i <= rows.len(),
            out.len() == i,
            forall|k: int| 0 <= k < rows.len() ==> #[trigger] rows@[k].len() == 6,
            forall|k: int| 0 <= k < i ==> #[trigger] out@[k]@ == node_from(store::table(rows@)[k], 0),
        decreases rows.len() - i,
    {
        assert(store::table(rows@)[i as int] == text::texts(rows@[i as int]@));
        let node = read_node(&rows[i], 0);
        out.push(node);
        i += 1;
    }
    assert(node_texts(out@) =~= nodes_from(store::table(rows@)));
    out
}

/// A path with backslashes turned into slashes.
pub open spec fn slashed(path: Seq<char>) -> Seq<char> {
    path.map_values(|c: char| if c == '\\' { '/' } else { c })
}

/// `path` with backslashes turned into slashes.
pub fn normalize_path_separators(path: &str) -> (r: String)
    ensures
        r@ == slashed(path@),
{
    let chars = chars_of(path);
    let mut out = String::new();
    let mut i: usize = 0;
    while i < chars.len()
        invariant
            i <= chars.len(),
            chars@ == path@,
            out@ == slashed(path@).take(i as int),
        decreases chars.len() - i,
    {
        let c = chars[i];
        if c == '\\' {
            out.push('/');
        } else {
            out.push(c);
        }
        assert(out@ =~= slashed(path@).take(i + 1));
        i += 1;
    }
    assert(slashed(path@).take(path@.len() as int) =~= slashed(path@));
    out
}

// ── Exact names ──────────────────────────────────────────────────────────────

/// The outcome of looking a name up.
#[derive(Debug)]
pub enum SymbolResolution {
    /// The one node of that name.
    Unique(NodeBrief),
    /// A list of the files among which the caller has to choose.
    Ambiguous(String),
}

/// One line of a list of symbols.
pub open spec fn match_line(
    file_path: Seq<char>,
    symbol_type: Seq<char>,
    symbol_name: Seq<char>,
) -> Seq<char> {
    "- "@ + file_path + " ("@ + symbol_type + ": "@ + symbol_name + ")\n"@
}

/// One line of a list of symbols.
pub fn format_match_line(file_path: &str, symbol_type: &str, symbol_name: &str) -> (r: String)
    ensures
        r@ == match_line(file_path@, symbol_type@, symbol_name@),
{
    "- ".to_owned().concat(file_path).concat(" (").concat(symbol_type).concat(": ").concat(
        symbol_name,
    ).concat(")\n")
}

/// What is said of a name that no node has.
pub open spec fn not_found(symbol: Seq<char>, repo: Seq<char>) -> Seq<char> {
    "Symbol '"@ + symbol + "' not found in repo '"@ + repo + "'"@
}

/// The first line of a list of candidates.
pub open spec fn candidates_heading(symbol: Seq<char>, total: nat) -> Seq<char> {
    "Found "@ + text::decimal(total) + " matches for '"@ + symbol
        + "'. Please call run_pipeline again with the same intent and target, but add the specific `filepath` from the list below:\n"@
}

/// The heading followed by the lines of the first `n` candidates.
pub open spec fn candidates_listed(symbol: Seq<char>, all: Seq<NodeText>, n: int) -> Seq<char>
    decreases n,
{
    if n <= 0 {
        candidates_heading(symbol, all.len())
    } else {
        candidates_listed(symbol, all, n - 1) + match_line(
            all[n - 1].file_path,
            all[n - 1].symbol_type,
            all[n - 1].symbol_name,
        )
    }
}

/// What is said of a name that several nodes have: where they are, at most twenty.
pub open spec fn disambiguation(symbol: Seq<char>, all: Seq<NodeText>) -> Seq<char> {
    if all.len() > MAX_DISAMBIGUATION_ITEMS {
        candidates_listed(symbol, all, MAX_DISAMBIGUATION_ITEMS as int) + "[... and "@
            + text::decimal((all.len() - MAX_DISAMBIGUATION_ITEMS) as nat)
            + " more matches omitted. Narrow the search with a filepath.]"@
    } else {
        candidates_listed(symbol, all, all.len() as int)
    }
}

/// Whether an outcome is the one that the candidates for a name give: the error for
/// none, the node for one, the list for more.
pub open spec fn resolves(
    symbol: Seq<char>,
    repo: Seq<char>,
    all: Seq<NodeText>,
    r: Result<SymbolResolution, MarrowError>,
) -> bool {
    match r {
        Ok(SymbolResolution::Unique(node)) => all.len() == 1 && node@ == all[0],
        Ok(SymbolResolution::Ambiguous(payload)) => all.len() >= 2 && payload@ == disambiguation(
            symbol,
            all,
        ),
        Err(MarrowError::Message(m)) => all.len() == 0 && m@ == not_found(symbol, repo),
        Err(MarrowError::Store(_)) => false,
    }
}

/// The statement that looks a name up.
pub open spec fn exact_sql(filepath: Option<Seq<char>>) -> Seq<char> {
    match filepath {
        Some(_) => EXACT_IN_FILE_SQL@,
        None => EXACT_SQL@,
    }
}

/// The values bound to it.
pub open spec fn exact_bounds(
    symbol: Seq<char>,
    repo: Seq<char>,
    filepath: Option<Seq<char>>,
) -> Seq<store::Bound> {
    match filepath {
        Some(path) => store::three_texts(symbol, repo, slashed(path)),
        None => store::two_texts(symbol, repo),
    }
}

/// Whether a database could give a name exactly these candidates.
pub open spec fn could_match(
    db: rusqlite::Connection,
    symbol: Seq<char>,
    repo: Seq<char>,
    filepath: Option<Seq<char>>,
    all: Seq<NodeText>,
) -> bool {
    exists|answer: Seq<Result<Vec<store::Cell>, rusqlite::Error>>|
        {
            &&& #[trigger] store::could_answer(
                db,
                exact_sql(filepath),
                exact_bounds(symbol, repo, filepath),
                answer,
            )
            &&& all == nodes_from(store::text_rows(answer, 6))
        }
}

/// Whether a database could know a name as that of this node alone.
pub open spec fn could_be_unique(
    db: rusqlite::Connection,
    symbol: Seq<char>,
    repo: Seq<char>,
    filepath: Option<Seq<char>>,
    node: NodeText,
) -> bool {
    could_match(db, symbol, repo, filepath, seq![node])
}

/// Whether a database could know several nodes of a name, so that this is said.
pub open spec fn could_be_ambiguous(
    db: rusqlite::Connection,
    symbol: Seq<char>,
    repo: Seq<char>,
    filepath: Option<Seq<char>>,
    payload: Seq<char>,
) -> bool {
    exists|all: Seq<NodeText>|
        {
            &&& #[trigger] could_match(db, symbol, repo, filepath, all)
            &&& all.len() >= 2
            &&& payload == disambiguation(symbol, all)
        }
}

/// Whether a lookup that gave a message could come out so: no node has the name.
pub open spec fn could_be_missing(
    db: rusqlite::Connection,
    symbol: Seq<char>,
    repo: Seq<char>,
    filepath: Option<Seq<char>>,
    message: Seq<char>,
) -> bool {
    could_match(db, symbol, repo, filepath, Seq::empty()) && message == not_found(symbol, repo)
}

/// Whether a database could refuse the lookup of a name for this reason.
pub open spec fn could_not_look_up(
    db: rusqlite::Connection,
    symbol: Seq<char>,
    repo: Seq<char>,
    filepath: Option<Seq<char>>,
    why: rusqlite::Error,
) -> bool {
    store::could_refuse(db, exact_sql(filepath), exact_bounds(symbol, repo, filepath), why)
}

/// How many ambiguous lookups a lookup counts as.
pub open spec fn counted(ambiguous: bool) -> int {
    if ambiguous {
        1
    } else {
        0
    }
}

/// What the candidates for a name come to.
pub fn resolve_candidates(symbol_name: &str, repo_id: &str, candidates: Vec<NodeBrief>) -> (r: Result<
    SymbolResolution,
    MarrowError,
>)
    ensures
        resolves(symbol_name@, repo_id@, node_texts(candidates@), r),
{
    let ghost all = node_texts(candidates@);
    let total = candidates.len();
    if total == 0 {
        return Err(
            MarrowError::Message(
                "Symbol '".to_owned().concat(symbol_name).concat("' not found in repo '").concat(
                    repo_id,
                ).concat("'"),
            ),
        );
    }
    if total == 1 {
        let mut candidates = candidates;
        let only = candidates.remove(0);
        assert(all[0] == only@);
        return Ok(SymbolResolution::Unique(only));
    }
    let shown: usize = if total < MAX_DISAMBIGUATION_ITEMS {
        total
    } else {
        MAX_DISAMBIGUATION_ITEMS
    };
    let mut payload = "Found ".to_owned().concat(&count_text(total)).concat(
        " matches for '",
    ).concat(symbol_name).concat(
        "'. Please call run_pipeline again with the same intent and target, but add the specific `filepath` from the list below:\n",
    );
    let mut i: usize = 0;
    while i < shown
        invariant
            i <= shown <= candidates.len(),
            all == node_texts(candidates@),
            payload@ == candidates_listed(symbol_name@, all, i as int),
        decreases shown - i,
    {
        let c = &candidates[i];
        assert(all[i as int] == c@);
        payload.append(&format_match_line(&c.file_path, &c.symbol_type, &c.symbol_name));
        i += 1;
    }
    if total > MAX_DISAMBIGUATION_ITEMS {
        payload.append("[... and ");
        payload.append(&count_text(total - MAX_DISAMBIGUATION_ITEMS));
        payload.append(" more matches omitted. Narrow the search with a filepath.]");
    }
    Ok(SymbolResolution::Ambiguous(payload))
}

/// Looks a name up in a repository, in one file of it where `filepath` is given.
pub fn resolve_symbol_or_disambiguate(
    conn: &rusqlite::Connection,
    symbol_name: &str,
    repo_id: &str,
    filepath: Option<&str>,
) -> (r: Result<SymbolResolution, MarrowError>)
    ensures
        match r {
            Ok(SymbolResolution::Unique(node)) => could_be_unique(
                *conn,
                symbol_name@,
                repo_id@,
                text::opt_str(filepath),
                node@,
            ),
            Ok(SymbolResolution::Ambiguous(payload)) => could_be_ambiguous(
                *conn,
                symbol_name@,
                repo_id@,
                text::opt_str(filepath),
                payload@,
            ),
            Err(MarrowError::Message(m)) => could_be_missing(
                *conn,
                symbol_name@,
                repo_id@,
                text::opt_str(filepath),
                m@,
            ),
            Err(MarrowError::Store(why)) => could_not_look_up(
                *conn,
                symbol_name@,
                repo_id@,
                text::opt_str(filepath),
                why,
            ),
        },
{
    let answer = match filepath {
        Some(path) => select(
            conn,
            EXACT_IN_FILE_SQL,
            bind_three(symbol_name, repo_id, &normalize_path_separators(path)),
        ),
        None => select(conn, EXACT_SQL, bind_two(symbol_name, repo_id)),
    };
    match answer {
        Ok(rows) => {
            let kept = keep_text_rows(&rows, 6);
            let nodes = read_nodes(&kept);
            let r = resolve_candidates(symbol_name, repo_id, nodes);
            proof {
                let path = text::opt_str(filepath);
                let all = nodes_from(store::text_rows(rows@, 6));
                assert(store::could_answer(
                    *conn,
                    exact_sql(path),
                    exact_bounds(symbol_name@, repo_id@, path),
                    rows@,
                ));
                assert(could_match(*conn, symbol_name@, repo_id@, path, all));
                if all.len() == 1 {
                    assert(all =~= seq![all[0]]);
                } else if all.len() == 0 {
                    assert(all =~= Seq::<NodeText>::empty());
                }
            }
            r
        },
        Err(e) => Err(MarrowError::Store(e)),
    }
}

proof fn lemma_candidates_listed(
    symbol: Seq<char>,
    all: Seq<NodeText>,
    n: int,
    line: spec_fn(NodeText) -> Seq<char>,
)
    requires
        0 <= n <= all.len(),
        forall|c: NodeText| #[trigger]
            line(c) == match_line(c.file_path, c.symbol_type, c.symbol_name),
    ensures
        candidates_listed(symbol, all, n) == candidates_heading(symbol, all.len()) + all.take(
            n,
        ).flat_map(line),
    decreases n,
{
    let head = candidates_heading(symbol, all.len());
    if n > 0 {
        lemma_candidates_listed(symbol, all, n - 1, line);
        all.lemma_flat_map_take_append(line, n - 1);
        text::lemma_put_together(head, all.take(n - 1).flat_map(line), line(all[n - 1]));
    } else {
        assert(all.take(0).flat_map(line) =~= Seq::empty());
        text::lemma_put_together(head, head, head);
    }
}

/// What is said of a name that several nodes have: how many there are, and of every one
/// up to the twentieth, in order, its file, kind and name; how many more there are is said
/// where there are more.
pub proof fn law_candidates_are_listed(symbol: Seq<char>, all: Seq<NodeText>)
    ensures
        ({
            let shown: int = if all.len() < 20 {
                all.len() as int
            } else {
                20
            };
            disambiguation(symbol, all) == "Found "@ + text::decimal(all.len())
                + " matches for '"@ + symbol
                + "'. Please call run_pipeline again with the same intent and target, but add the specific `filepath` from the list below:\n"@
                + all.take(shown).flat_map(
                |c: NodeText|
                    "- "@ + c.file_path + " ("@ + c.symbol_type + ": "@ + c.symbol_name + ")\n"@,
            ) + (if all.len() > shown {
                "[... and "@ + text::decimal((all.len() - shown) as nat)
                    + " more matches omitted. Narrow the search with a filepath.]"@
            } else {
                Seq::empty()
            })
        }),
{
    let line = |c: NodeText|
        "- "@ + c.file_path + " ("@ + c.symbol_type + ": "@ + c.symbol_name + ")\n"@;
    let shown: int = if all.len() < 20 {
        all.len() as int
    } else {
        20
    };
    lemma_candidates_listed(symbol, all, shown, line);
    let listed = candidates_listed(symbol, all, shown);
    text::lemma_put_together(listed, "[... and "@, text::decimal((all.len() - shown) as nat));
    text::lemma_put_together(
        listed,
        "[... and "@ + text::decimal((all.len() - shown) as nat),
        " more matches omitted. Narrow the search with a filepath.]"@,
    );
}

/// The candidates for a name are what the database could yield for exactly that name in
/// that repository, and in that file where one is named, its path written with slashes:
/// one for every row of texts, in order.
pub proof fn law_candidates_have_the_name(
    db: rusqlite::Connection,
    symbol: Seq<char>,
    repo: Seq<char>,
    filepath: Option<Seq<char>>,
    all: Seq<NodeText>,
)
    requires
        could_match(db, symbol, repo, filepath, all),
    ensures
        exists|answer: Seq<Result<Vec<store::Cell>, rusqlite::Error>>|
            {
                let rows = #[trigger] store::text_rows(answer, 6);
                &&& match filepath {
                    None => store::could_yield(
                        db,
                        "SELECT id, symbol_name, symbol_type, file_path, language, raw_text FROM nodes WHERE symbol_name = ?1 AND repo_id = ?2 ORDER BY file_path ASC, id ASC"@,
                        seq![store::Bound::Text(symbol), store::Bound::Text(repo)],
                        Ok(answer),
                    ),
                    Some(path) => store::could_yield(
                        db,
                        "SELECT id, symbol_name, symbol_type, file_path, language, raw_text FROM nodes WHERE symbol_name = ?1 AND repo_id = ?2 AND REPLACE(file_path, '\\', '/') = ?3 ORDER BY file_path ASC, id ASC"@,
                        seq![
                            store::Bound::Text(symbol),
                            store::Bound::Text(repo),
                            store::Bound::Text(
                                path.map_values(|c: char| if c == '\\' { '/' } else { c }),
                            ),
                        ],
                        Ok(answer),
                    ),
                }
                &&& all.len() == rows.len()
                &&& forall|i: int|
                    0 <= i < rows.len() ==> {
                        &&& (#[trigger] all[i]).id == rows[i][0]
                        &&& all[i].symbol_name == rows[i][1]
                        &&& all[i].symbol_type == rows[i][2]
                        &&& all[i].file_path == rows[i][3]
                        &&& all[i].language == rows[i][4]
                        &&& all[i].raw_text == rows[i][5]
                    }
            },
{
    let answer = choose|answer: Seq<Result<Vec<store::Cell>, rusqlite::Error>>|
        {
            &&& #[trigger] store::could_answer(
                db,
                exact_sql(filepath),
                exact_bounds(symbol, repo, filepath),
                answer,
            )
            &&& all == nodes_from(store::text_rows(answer, 6))
        };
    let rows = store::text_rows(answer, 6);
    assert(all.len() == rows.len());
}

/// A name comes to one of three things, by how many nodes have it: none, and it is said to
/// be missing; one, which is taken; more, and they are listed.
pub proof fn law_names_come_to_none_one_or_many(
    db: rusqlite::Connection,
    symbol: Seq<char>,
    repo: Seq<char>,
    filepath: Option<Seq<char>>,
    payload: Seq<char>,
    message: Seq<char>,
    node: NodeText,
)
    ensures
        could_be_ambiguous(db, symbol, repo, filepath, payload) ==> exists|all: Seq<NodeText>|
            #[trigger] could_match(db, symbol, repo, filepath, all) && all.len() > 1 && payload
                == disambiguation(symbol, all),
        could_be_unique(db, symbol, repo, filepath, node) ==> exists|all: Seq<NodeText>| #[trigger]
            could_match(db, symbol, repo, filepath, all) && all.len() == 1 && all[0] == node,
        could_be_missing(db, symbol, repo, filepath, message) ==> could_match(
            db,
            symbol,
            repo,
            filepath,
            Seq::empty(),
        ) && message == "Symbol '"@ + symbol + "' not found in repo '"@ + repo + "'"@,
{
    if could_be_unique(db, symbol, repo, filepath, node) {
        assert(could_match(db, symbol, repo, filepath, seq![node]));
    }
}

// ── Fragments ────────────────────────────────────────────────────────────────

/// Whether `char::is_alphanumeric` holds of a character: a letter or a number in
/// the sense of Unicode.
pub uninterp spec fn is_alphanumeric(c: char) -> bool;

/// `char::is_alphanumeric`, under the name [`is_alphanumeric`].
#[verifier::external_body]
fn alphanumeric(c: char) -> (r: bool)
    ensures
        r == is_alphanumeric(c),
{
    c.is_alphanumeric()
}

/// The first position from `from` on that holds a letter or number, or the length.
pub open spec fn term_start(s: Seq<char>, from: int) -> int
    decreases s.len() - from,
{
    if from >= s.len() {
        s.len() as int
    } else if is_alphanumeric(s[from]) {
        from
    } else {
        term_start(s, from + 1)
    }
}

/// The first position from `from` on that holds neither, or the length.
pub open spec fn term_end(s: Seq<char>, from: int) -> int
    decreases s.len() - from,
{
    if from >= s.len() {
        s.len() as int
    } else if is_alphanumeric(s[from]) {
        term_end(s, from + 1)
    } else {
        from
    }
}

/// The runs of letters and numbers from `from` on, each with a star behind it.
pub open spec fn prefix_terms(s: Seq<char>, from: int) -> Seq<Seq<char>>
    decreases s.len() - from,
{
    let a = term_start(s, from);
    let b = term_end(s, a);
    if from < 0 || a < from || a >= s.len() || b <= a || b > s.len() {
        Seq::empty()
    } else {
        seq![s.subrange(a, b) + "*"@] + prefix_terms(s, b)
    }
}

/// The full-text query for a fragment: its runs of letters and numbers, each as a
/// prefix to match. There is none for a fragment without letters and numbers.
pub open spec fn prefix_query(s: Seq<char>) -> Option<Seq<char>> {
    if prefix_terms(s, 0).len() == 0 {
        None
    } else {
        Some(text::joined(prefix_terms(s, 0), " "@))
    }
}

/// The words that a search matches are the runs of letters and numbers of the fragment, in
/// order, each with a star behind it: there are as many as places at which such a run
/// begins, and together they are all letters and numbers of the fragment.
pub proof fn law_search_words_are_the_runs(s: Seq<char>)
    ensures
        ({
            let terms = prefix_terms(s, 0);
            &&& terms.len() == Seq::new(s.len(), |i: int| i).filter(
                |i: int| is_alphanumeric(s[i]) && !(i > 0 && is_alphanumeric(s[i - 1])),
            ).len()
            &&& terms.flat_map(|t: Seq<char>| t.drop_last()) == s.filter(
                |c: char| is_alphanumeric(c),
            )
            &&& forall|k: int|
                0 <= k < terms.len() ==> (#[trigger] terms[k]).len() >= 2 && terms[k].last() == '*'
                    && forall|j: int|
                    0 <= j < terms[k].len() - 1 ==> is_alphanumeric(#[trigger] terms[k][j])
            &&& prefix_query(s) is None <==> terms.len() == 0
            &&& prefix_query(s) matches Some(q) ==> q == text::joined(terms, " "@)
        }),
{
    let begins = |i: int| is_alphanumeric(s[i]) && !(i > 0 && is_alphanumeric(s[i - 1]));
    let solid = |c: char| is_alphanumeric(c);
    let bare = |t: Seq<char>| t.drop_last();
    lemma_terms(s, 0, begins, solid, bare);
    assert(s.skip(0) =~= s);
    assert(Seq::new(s.len(), |i: int| 0 + i) =~= Seq::new(s.len(), |i: int| i));
}

proof fn lemma_term_start(s: Seq<char>, from: int)
    requires
        0 <= from <= s.len(),
    ensures
        from <= term_start(s, from) <= s.len(),
        forall|i: int| from <= i < term_start(s, from) ==> !is_alphanumeric(#[trigger] s[i]),
        term_start(s, from) < s.len() ==> is_alphanumeric(s[term_start(s, from)]),
    decreases s.len() - from,
{
    if from < s.len() && !is_alphanumeric(s[from]) {
        lemma_term_start(s, from + 1);
    }
}

proof fn lemma_term_end(s: Seq<char>, from: int)
    requires
        0 <= from <= s.len(),
    ensures
        from <= term_end(s, from) <= s.len(),
        forall|i: int| from <= i < term_end(s, from) ==> is_alphanumeric(#[trigger] s[i]),
        term_end(s, from) < s.len() ==> !is_alphanumeric(s[term_end(s, from)]),
        from < s.len() && is_alphanumeric(s[from]) ==> from < term_end(s, from),
    decreases s.len() - from,
{
    if from < s.len() && is_alphanumeric(s[from]) {
        lemma_term_end(s, from + 1);
    }
}

proof fn lemma_filter_all<T>(v: Seq<T>, keep: spec_fn(T) -> bool)
    ensures
        (forall|i: int| 0 <= i < v.len() ==> keep(#[trigger] v[i])) ==> v.filter(keep) == v,
        (forall|i: int| 0 <= i < v.len() ==> !keep(#[trigger] v[i])) ==> v.filter(keep)
            == Seq::<T>::empty(),
    decreases v.len(),
{
    reveal(Seq::filter);
    if v.len() > 0 {
        lemma_filter_all(v.drop_last(), keep);
        assert forall|i: int| 0 <= i < v.drop_last().len() implies v.drop_last()[i] == v[i] by {}
        if forall|i: int| 0 <= i < v.len() ==> keep(#[trigger] v[i]) {
            assert(forall|i: int| 0 <= i < v.drop_last().len() ==> keep(#[trigger] v.drop_last()[i]));
            assert(v.drop_last().push(v.last()) =~= v);
            assert(keep(v[v.len() - 1]));
        }
        if forall|i: int| 0 <= i < v.len() ==> !keep(#[trigger] v[i]) {
            assert(forall|i: int| 0 <= i < v.drop_last().len() ==> !keep(#[trigger] v.drop_last()[i]));
            assert(!keep(v[v.len() - 1]));
        }
    }
}

#[verifier::rlimit(60)]
#[verifier::spinoff_prover]
proof fn lemma_terms(
    s: Seq<char>,
    from: int,
    begins: spec_fn(int) -> bool,
    solid: spec_fn(char) -> bool,
    bare: spec_fn(Seq<char>) -> Seq<char>,
)
    requires
        0 <= from <= s.len(),
        from > 0 ==> from == s.len() || !is_alphanumeric(s[from]) || !is_alphanumeric(s[from - 1]),
        forall|i: int| #[trigger]
            begins(i) == (is_alphanumeric(s[i]) && !(i > 0 && is_alphanumeric(s[i - 1]))),
        forall|c: char| #[trigger] solid(c) == is_alphanumeric(c),
        forall|t: Seq<char>| #[trigger] bare(t) == t.drop_last(),
    ensures
        ({
            let terms = prefix_terms(s, from);
            &&& terms.len() == Seq::new((s.len() - from) as nat, |i: int| from + i).filter(
                begins,
            ).len()
            &&& terms.flat_map(bare) == s.skip(from).filter(solid)
            &&& forall|k: int|
                0 <= k < terms.len() ==> (#[trigger] terms[k]).len() >= 2 && terms[k].last() == '*'
                    && forall|j: int|
                    0 <= j < terms[k].len() - 1 ==> is_alphanumeric(#[trigger] terms[k][j])
        }),
    decreases s.len() - from,
{
    reveal_strlit("*");
    lemma_term_start(s, from);
    let a = term_start(s, from);
    lemma_term_end(s, a);
    let b = term_end(s, a);
    let terms = prefix_terms(s, from);
    let gap = s.subrange(from, a);
    let gap_at = Seq::new((a - from) as nat, |i: int| from + i);
    let all_at = Seq::new((s.len() - from) as nat, |i: int| from + i);
    assert forall|i: int| 0 <= i < gap.len() implies !solid(#[trigger] gap[i]) by {
        assert(gap[i] == s[from + i]);
    }
    lemma_filter_all(gap, solid);
    assert forall|i: int| 0 <= i < gap_at.len() implies !begins(#[trigger] gap_at[i]) by {
        assert(!is_alphanumeric(s[from + i]));
    }
    lemma_filter_all(gap_at, begins);
    if a >= s.len() {
        assert(s.skip(from) =~= gap);
        assert(all_at =~= gap_at);
        assert(terms.flat_map(bare) =~= Seq::empty());
    } else {
        let run = s.subrange(a, b);
        let first_at = seq![a];
        let more_at = Seq::new((b - a - 1) as nat, |i: int| a + 1 + i);
        let rest_at = Seq::new((s.len() - b) as nat, |i: int| b + i);
        assert forall|i: int| 0 <= i < run.len() implies solid(#[trigger] run[i]) by {
            assert(run[i] == s[a + i]);
        }
        lemma_filter_all(run, solid);
        assert(begins(a)) by {
            if a > from {
                assert(!is_alphanumeric(s[a - 1]));
            }
        }
        assert(first_at[0] == a);
        lemma_filter_all(first_at, begins);
        assert forall|i: int| 0 <= i < more_at.len() implies !begins(#[trigger] more_at[i]) by {
            assert(is_alphanumeric(s[a + i]));
        }
        lemma_filter_all(more_at, begins);
        lemma_terms(s, b, begins, solid, bare);
        let rest = prefix_terms(s, b);
        assert(all_at =~= gap_at + (first_at + (more_at + rest_at)));
        Seq::filter_distributes_over_add(gap_at, first_at + (more_at + rest_at), begins);
        Seq::filter_distributes_over_add(first_at, more_at + rest_at, begins);
        Seq::filter_distributes_over_add(more_at, rest_at, begins);
        assert(s.skip(from) =~= gap + (run + s.skip(b)));
        Seq::filter_distributes_over_add(gap, run + s.skip(b), solid);
        Seq::filter_distributes_over_add(run, s.skip(b), solid);
        let head = run + "*"@;
        assert(terms =~= seq![head] + rest);
        assert(head.drop_last() =~= run);
        assert(terms.map_values(bare).first() == run);
        assert(terms.map_values(bare).drop_first() =~= rest.map_values(bare));
        assert(terms.flat_map(bare) =~= s.skip(from).filter(solid));
        assert forall|k: int| 0 <= k < terms.len() implies (#[trigger] terms[k]).len() >= 2
            && terms[k].last() == '*' && forall|j: int|
            0 <= j < terms[k].len() - 1 ==> is_alphanumeric(#[trigger] terms[k][j]) by {
            if k == 0 {
                assert forall|j: int| 0 <= j < terms[0].len() - 1 implies is_alphanumeric(
                    #[trigger] terms[0][j],
                ) by {
                    assert(terms[0][j] == s[a + j]);
                }
            } else {
                assert(terms[k] == rest[k - 1]);
            }
        }
    }
}

fn find_term(s: &Vec<char>, from: usize) -> (r: usize)
    requires
        from <= s.len(),
    ensures
        r == term_start(s@, from as int),
        from <= r <= s.len(),
        r < s.len() ==> is_alphanumeric(s@[r as int]),
{
    let mut i: usize = from;
    while i < s.len() && !alphanumeric(s[i])
        invariant
            from <= i <= s.len(),
            term_start(s@, from as int) == term_start(s@, i as int),
        decreases s.len() - i,
    {
        i += 1;
    }
    i
}

fn end_term(s: &Vec<char>, from: usize) -> (r: usize)
    requires
        from <= s.len(),
    ensures
        r == term_end(s@, from as int),
        from <= r <= s.len(),
        from < s.len() && is_alphanumeric(s@[from as int]) ==> from < r,
{
    let mut i: usize = from;
    while i < s.len() && alphanumeric(s[i])
        invariant
            from <= i <= s.len(),
            term_end(s@, from as int) == term_end(s@, i as int),
        decreases s.len() - i,
    {
        i += 1;
    }
    i
}

/// The full-text query for a fragment.
pub fn fts_prefix_query(query: &str) -> (r: Option<String>)
    ensures
        text::opt_text(r) == prefix_query(query@),
{
    let chars = chars_of(query);
    let mut terms: Vec<String> = Vec::new();
    let mut pos: usize = 0;
    assert(text::texts(terms@) + prefix_terms(query@, 0) =~= prefix_terms(query@, 0));
    loop
        invariant
            chars@ == query@,
            pos <= chars.len(),
            text::texts(terms@) + prefix_terms(query@, pos as int) == prefix_terms(query@, 0),
        decreases chars.len() - pos,
    {
        let a = find_term(&chars, pos);
        if a >= chars.len() {
            assert(text::texts(terms@) + prefix_terms(query@, pos as int) =~= text::texts(
                terms@,
            ));
            if terms.len() == 0 {
                return None;
            }
            return Some(join(&terms, " "));
        }
        let b = end_term(&chars, a);
        let term = text_between(&chars, a, b).concat("*");
        let ghost before = terms@;
        terms.push(term);
        proof {
            text::lemma_texts_push(before, term);
            assert(text::texts(before) + prefix_terms(query@, pos as int) =~= text::texts(terms@)
                + prefix_terms(query@, b as int));
        }
        pos = b;
    }
}

/// A character as a pattern matches it literally.
pub open spec fn escaped_char(c: char) -> Seq<char> {
    if c == '\\' || c == '%' || c == '_' {
        seq!['\\', c]
    } else {
        seq![c]
    }
}

/// A text as a pattern matches it literally.
pub open spec fn escaped(s: Seq<char>) -> Seq<char>
    decreases s.len(),
{
    if s.len() == 0 {
        Seq::empty()
    } else {
        escaped(s.drop_last()) + escaped_char(s.last())
    }
}

/// A pattern that matches what holds a text.
pub open spec fn contains_pattern(s: Seq<char>) -> Seq<char> {
    "%"@ + escaped(s) + "%"@
}

/// The text that a pattern without wildcards matches: a backslash stands for what
/// follows it.
pub open spec fn unescaped(p: Seq<char>) -> Seq<char>
    decreases p.len(),
{
    if p.len() == 0 {
        Seq::empty()
    } else if p[0] == '\\' && p.len() >= 2 {
        seq![p[1]] + unescaped(p.skip(2))
    } else {
        seq![p[0]] + unescaped(p.skip(1))
    }
}

proof fn lemma_unescaped_prefix(c: char, rest: Seq<char>)
    ensures
        unescaped(escaped_char(c) + rest) == seq![c] + unescaped(rest),
{
    let p = escaped_char(c) + rest;
    if c == '\\' || c == '%' || c == '_' {
        assert(p[0] == '\\' && p[1] == c);
        assert(p.skip(2) =~= rest);
    } else {
        assert(p[0] == c);
        assert(p.skip(1) =~= rest);
    }
}

proof fn lemma_escaped_first(s: Seq<char>)
    requires
        s.len() > 0,
    ensures
        escaped(s) == escaped_char(s[0]) + escaped(s.skip(1)),
    decreases s.len(),
{
    if s.len() == 1 {
        assert(s.drop_last() =~= Seq::<char>::empty());
        assert(s.skip(1) =~= Seq::<char>::empty());
        assert(escaped(s) =~= escaped_char(s[0]) + escaped(s.skip(1)));
    } else {
        lemma_escaped_first(s.drop_last());
        assert(s.drop_last().skip(1) =~= s.skip(1).drop_last());
        assert(s.skip(1).last() == s.last());
        assert(escaped(s) =~= escaped_char(s[0]) + escaped(s.skip(1)));
    }
}

/// An escaped text matches exactly the text that was escaped.
pub proof fn law_escaping_is_undone(s: Seq<char>)
    ensures
        unescaped(escaped(s)) == s,
    decreases s.len(),
{
    if s.len() == 0 {
        assert(unescaped(escaped(s)) =~= s);
    } else {
        lemma_escaped_first(s);
        lemma_unescaped_prefix(s[0], escaped(s.skip(1)));
        law_escaping_is_undone(s.skip(1));
        assert(seq![s[0]] + s.skip(1) =~= s);
    }
}

/// `input` as a pattern matches it literally.
pub fn escape_like_pattern(input: &str) -> (r: String)
    ensures
        r@ == escaped(input@),
{
    let chars = chars_of(input);
    let mut out = String::new();
    let mut i: usize = 0;
    assert(escaped(input@.take(0)) =~= Seq::<char>::empty());
    while i < chars.len()
        invariant
            i <= chars.len(),
            chars@ == input@,
            out@ == escaped(input@.take(i as int)),
        decreases chars.len() - i,
    {
        let c = chars[i];
        let ghost before = out@;
        assert(input@.take(i + 1).drop_last() =~= input@.take(i as int));
        if c == '\\' || c == '%' || c == '_' {
            out.push('\\');
            out.push(c);
        } else {
            out.push(c);
        }
        assert(out@ =~= before + escaped_char(c));
        i += 1;
    }
    assert(input@.take(input@.len() as int) =~= input@);
    out
}

/// A pattern that matches what holds `value`.
pub fn like_contains_pattern(value: &str) -> (r: String)
    ensures
        r@ == contains_pattern(value@),
{
    "%".to_owned().concat(&escape_like_pattern(value)).concat("%")
}

/// The heading followed by the lines of the first `n` matches.
pub open spec fn matches_listed(query: Seq<char>, rows: Seq<Seq<Seq<char>>>, shown: nat, n: int) -> Seq<
    char,
>
    decreases n,
{
    if n <= 0 {
        "Found "@ + text::decimal(shown) + " matches for '"@ + query + "':\n"@
    } else {
        matches_listed(query, rows, shown, n - 1) + match_line(
            rows[n - 1][0],
            rows[n - 1][1],
            rows[n - 1][2],
        )
    }
}

/// What is said of the matches of a fragment, at most `limit` of them.
pub open spec fn matches_text(
    repo: Seq<char>,
    query: Seq<char>,
    rows: Seq<Seq<Seq<char>>>,
    limit: nat,
) -> Seq<char> {
    if rows.len() == 0 {
        "No symbol matches for '"@ + query + "' in repo '"@ + repo
            + "'. Try a different fragment or run analyze_repo for a broader map."@
    } else if rows.len() > limit {
        matches_listed(query, rows, limit, limit as int) + "[... capped at "@ + text::decimal(
            limit,
        ) + " matches. Narrow the query or add `kind` before exploring a symbol.]"@
    } else {
        matches_listed(query, rows, rows.len(), rows.len() as int)
    }
}

/// What is said of the matches of a fragment, at most `limit` of them.
pub fn format_symbol_matches(
    repo_id: &str,
    query: &str,
    rows: &Vec<Vec<String>>,
    limit: usize,
) -> (r: String)
    requires
        forall|i: int| 0 <= i < rows.len() ==> #[trigger] rows@[i].len() == 3,
    ensures
        r@ == matches_text(repo_id@, query@, store::table(rows@), limit as nat),
{
    if rows.len() == 0 {
        return "No symbol matches for '".to_owned().concat(query).concat("' in repo '").concat(
            repo_id,
        ).concat("'. Try a different fragment or run analyze_repo for a broader map.");
    }
    let ghost all = store::table(rows@);
    let shown: usize = if rows.len() > limit {
        limit
    } else {
        rows.len()
    };
    let mut out = "Found ".to_owned().concat(&count_text(shown)).concat(" matches for '").concat(
        query,
    ).concat("':\n");
    let mut i: usize = 0;
    while i < shown
        invariant
            i <= shown <= rows.len(),
            forall|k: int| 0 <= k < rows.len() ==> #[trigger] rows@[k].len() == 3,
            all == store::table(rows@),
            out@ == matches_listed(query@, all, shown as nat, i as int),
        decreases shown - i,
    {
        let row = &rows[i];
        assert(rows@[i as int].len() == 3);
        assert(all[i as int] == text::texts(row@));
        out.append(&format_match_line(&row[0], &row[1], &row[2]));
        i += 1;
    }
    if rows.len() > limit {
        out.append("[... capped at ");
        out.append(&count_text(limit));
        out.append(" matches. Narrow the query or add `kind` before exploring a symbol.]");
    }
    out
}

proof fn lemma_matches_listed(
    query: Seq<char>,
    rows: Seq<Seq<Seq<char>>>,
    shown: nat,
    n: int,
    line: spec_fn(Seq<Seq<char>>) -> Seq<char>,
)
    requires
        0 <= n <= rows.len(),
        forall|r: Seq<Seq<char>>| #[trigger] line(r) == match_line(r[0], r[1], r[2]),
    ensures
        matches_listed(query, rows, shown, n) == "Found "@ + text::decimal(shown)
            + " matches for '"@ + query + "':\n"@ + rows.take(n).flat_map(line),
    decreases n,
{
    let head = "Found "@ + text::decimal(shown) + " matches for '"@ + query + "':\n"@;
    if n > 0 {
        lemma_matches_listed(query, rows, shown, n - 1, line);
        rows.lemma_flat_map_take_append(line, n - 1);
        text::lemma_put_together(head, rows.take(n - 1).flat_map(line), line(rows[n - 1]));
    } else {
        assert(rows.take(0).flat_map(line) =~= Seq::empty());
        text::lemma_put_together(head, head, head);
    }
}

/// What is said of the matches of a fragment: of every one up to the limit, in order, its
/// file, kind and name, behind how many these are; that there are more is said where
/// there are, and where there are none, that.
pub proof fn law_matches_are_listed_up_to_the_limit(
    repo: Seq<char>,
    query: Seq<char>,
    rows: Seq<Seq<Seq<char>>>,
    limit: nat,
)
    ensures
        rows.len() == 0 ==> matches_text(repo, query, rows, limit) == "No symbol matches for '"@
            + query + "' in repo '"@ + repo
            + "'. Try a different fragment or run analyze_repo for a broader map."@,
        rows.len() > 0 ==> {
            let shown: int = if rows.len() > limit {
                limit as int
            } else {
                rows.len() as int
            };
            matches_text(repo, query, rows, limit) == "Found "@ + text::decimal(shown as nat)
                + " matches for '"@ + query + "':\n"@ + rows.take(shown).flat_map(
                |r: Seq<Seq<char>>| "- "@ + r[0] + " ("@ + r[1] + ": "@ + r[2] + ")\n"@,
            ) + (if rows.len() > shown {
                "[... capped at "@ + text::decimal(limit)
                    + " matches. Narrow the query or add `kind` before exploring a symbol.]"@
            } else {
                Seq::empty()
            })
        },
{
    let line = |r: Seq<Seq<char>>| "- "@ + r[0] + " ("@ + r[1] + ": "@ + r[2] + ")\n"@;
    let shown: int = if rows.len() > limit {
        limit as int
    } else {
        rows.len() as int
    };
    lemma_matches_listed(query, rows, shown as nat, shown, line);
    let listed = matches_listed(query, rows, shown as nat, shown);
    text::lemma_put_together(listed, "[... capped at "@, text::decimal(limit));
    text::lemma_put_together(
        listed,
        "[... capped at "@ + text::decimal(limit),
        " matches. Narrow the query or add `kind` before exploring a symbol.]"@,
    );
}

/// In a pattern every character stands for itself: a percent sign, an underscore and a
/// backslash behind a backslash, any other alone.
pub proof fn law_patterns_have_no_open_wildcards(s: Seq<char>)
    ensures
        escaped(s) == s.flat_map(
            |c: char|
                if c == '%' || c == '_' || c == '\\' {
                    seq!['\\', c]
                } else {
                    seq![c]
                },
        ),
        contains_pattern(s) == "%"@ + escaped(s) + "%"@,
{
    let f = |c: char|
        if c == '%' || c == '_' || c == '\\' {
            seq!['\\', c]
        } else {
            seq![c]
        };
    lemma_escaped_flat(s, f);
}

proof fn lemma_escaped_flat(s: Seq<char>, f: spec_fn(char) -> Seq<char>)
    requires
        forall|c: char| #[trigger] f(c) == escaped_char(c),
    ensures
        escaped(s) == s.flat_map(f),
    decreases s.len(),
{
    if s.len() > 0 {
        lemma_escaped_flat(s.drop_last(), f);
        s.drop_last().lemma_flat_map_push(f, s.last());
        assert(s.drop_last().push(s.last()) =~= s);
    } else {
        assert(s.flat_map(f) =~= Seq::empty());
    }
}

/// The statement that looks for a fragment.
pub open spec fn find_sql(query: Seq<char>, kind: Option<Seq<char>>) -> Seq<char> {
    match (prefix_query(query), kind) {
        (Some(_), Some(_)) => WORD_AND_KIND_SQL@,
        (Some(_), None) => WORD_SQL@,
        (None, Some(_)) => FRAGMENT_AND_KIND_SQL@,
        (None, None) => FRAGMENT_SQL@,
    }
}

/// The number of rows that are asked for: one more than are shown.
pub open spec fn fetch_limit(limit: usize) -> int {
    if limit < usize::MAX {
        ((limit + 1) as usize) as i64 as int
    } else {
        usize::MAX as i64 as int
    }
}

/// The values bound to the statement that looks for a fragment.
pub open spec fn find_bounds(
    repo: Seq<char>,
    query: Seq<char>,
    kind: Option<Seq<char>>,
    limit: usize,
) -> Seq<store::Bound> {
    let head = match prefix_query(query) {
        Some(fts) => seq![store::Bound::Text(fts), store::Bound::Text(repo)],
        None => seq![store::Bound::Text(repo), store::Bound::Text(contains_pattern(query))],
    };
    let with_kind = match kind {
        Some(k) => head.push(store::Bound::Text(contains_pattern(k))),
        None => head,
    };
    with_kind.push(store::Bound::Int(fetch_limit(limit)))
}

/// How many matches are shown: at least one.
pub open spec fn shown_limit(limit: usize) -> usize {
    if limit == 0 {
        1
    } else {
        limit
    }
}

/// Whether a database could make the search for a fragment come out so.
pub open spec fn could_find(
    db: rusqlite::Connection,
    repo: Seq<char>,
    query: Seq<char>,
    kind: Option<Seq<char>>,
    limit: usize,
    found: Seq<char>,
) -> bool {
    exists|answer: Seq<Result<Vec<store::Cell>, rusqlite::Error>>|
        {
            &&& #[trigger] store::could_answer(
                db,
                find_sql(query, kind),
                find_bounds(repo, query, kind, limit),
                answer,
            )
            &&& found == matches_text(repo, query, store::text_rows(answer, 3), limit as nat)
        }
}

/// A search asks for the repository's symbols that match the fragment, by its words where
/// it has any and as a part of the name where it has none, among those whose kind holds
/// the one that is given; for one more than are shown, so that it is seen whether there
/// are more.
pub proof fn law_searches_ask_for_the_fragment(
    db: rusqlite::Connection,
    repo: Seq<char>,
    query: Seq<char>,
    kind: Option<Seq<char>>,
    limit: usize,
    found: Seq<char>,
)
    requires
        could_find(db, repo, query, kind, limit, found),
        limit < usize::MAX,
        limit < i64::MAX,
    ensures
        exists|answer: Seq<Result<Vec<store::Cell>, rusqlite::Error>>|
            {
                &&& found == matches_text(
                    repo,
                    query,
                    #[trigger] store::text_rows(answer, 3),
                    limit as nat,
                )
                &&& match (prefix_query(query), kind) {
                    (Some(words), None) => store::could_yield(
                        db,
                        "SELECT n.file_path, n.symbol_type, n.symbol_name FROM nodes_fts JOIN nodes n ON n.rowid = nodes_fts.rowid WHERE nodes_fts MATCH ?1 AND n.repo_id = ?2 ORDER BY bm25(nodes_fts) ASC, n.symbol_name ASC, n.file_path ASC, n.rowid ASC LIMIT ?3"@,
                        seq![
                            store::Bound::Text(words),
                            store::Bound::Text(repo),
                            store::Bound::Int(limit + 1),
                        ],
                        Ok(answer),
                    ),
                    (Some(words), Some(k)) => store::could_yield(
                        db,
                        "SELECT n.file_path, n.symbol_type, n.symbol_name FROM nodes_fts JOIN nodes n ON n.rowid = nodes_fts.rowid WHERE nodes_fts MATCH ?1 AND n.repo_id = ?2 AND n.symbol_type LIKE ?3 ESCAPE '\\' ORDER BY bm25(nodes_fts) ASC, n.symbol_name ASC, n.file_path ASC, n.rowid ASC LIMIT ?4"@,
                        seq![
                            store::Bound::Text(words),
                            store::Bound::Text(repo),
                            store::Bound::Text("%"@ + escaped(k) + "%"@),
                            store::Bound::Int(limit + 1),
                        ],
                        Ok(answer),
                    ),
                    (None, None) => store::could_yield(
                        db,
                        "SELECT file_path, symbol_type, symbol_name FROM nodes WHERE repo_id = ?1 AND symbol_name LIKE ?2 ESCAPE '\\' ORDER BY length(symbol_name) ASC, symbol_name ASC, file_path ASC, rowid ASC LIMIT ?3"@,
                        seq![
                            store::Bound::Text(repo),
                            store::Bound::Text("%"@ + escaped(query) + "%"@),
                            store::Bound::Int(limit + 1),
                        ],
                        Ok(answer),
                    ),
                    (None, Some(k)) => store::could_yield(
                        db,
                        "SELECT file_path, symbol_type, symbol_name FROM nodes WHERE repo_id = ?1 AND symbol_name LIKE ?2 ESCAPE '\\' AND symbol_type LIKE ?3 ESCAPE '\\' ORDER BY length(symbol_name) ASC, symbol_name ASC, file_path ASC, rowid ASC LIMIT ?4"@,
                        seq![
                            store::Bound::Text(repo),
                            store::Bound::Text("%"@ + escaped(query) + "%"@),
                            store::Bound::Text("%"@ + escaped(k) + "%"@),
                            store::Bound::Int(limit + 1),
                        ],
                        Ok(answer),
                    ),
                }
            },
{
    let answer = choose|answer: Seq<Result<Vec<store::Cell>, rusqlite::Error>>|
        {
            &&& #[trigger] store::could_answer(
                db,
                find_sql(query, kind),
                find_bounds(repo, query, kind, limit),
                answer,
            )
            &&& found == matches_text(repo, query, store::text_rows(answer, 3), limit as nat)
        };
    let asked = find_bounds(repo, query, kind, limit);
    let most = store::Bound::Int(limit + 1);
    match (prefix_query(query), kind) {
        (Some(words), None) => {
            assert(asked =~= seq![store::Bound::Text(words), store::Bound::Text(repo), most]);
        },
        (Some(words), Some(k)) => {
            assert(asked =~= seq![
                store::Bound::Text(words),
                store::Bound::Text(repo),
                store::Bound::Text("%"@ + escaped(k) + "%"@),
                most,
            ]);
        },
        (None, None) => {
            assert(asked =~= seq![
                store::Bound::Text(repo),
                store::Bound::Text("%"@ + escaped(query) + "%"@),
                most,
            ]);
        },
        (None, Some(k)) => {
            assert(asked =~= seq![
                store::Bound::Text(repo),
                store::Bound::Text("%"@ + escaped(query) + "%"@),
                store::Bound::Text("%"@ + escaped(k) + "%"@),
                most,
            ]);
        },
    }
    let rows = store::text_rows(answer, 3);
}

/// Whether a database could refuse the search for a fragment for this reason.
pub open spec fn could_not_find(
    db: rusqlite::Connection,
    repo: Seq<char>,
    query: Seq<char>,
    kind: Option<Seq<char>>,
    limit: usize,
    why: rusqlite::Error,
) -> bool {
    store::could_refuse(db, find_sql(query, kind), find_bounds(repo, query, kind, limit), why)
}

/// What is said of a fragment that is blank.
pub const EMPTY_QUERY: &'static str = "No symbol matches for ''. Provide a symbol fragment.";

/// Searches a repository's symbols for a fragment of a name, among those whose kind
/// holds `kind` where it is given.
pub fn find_symbols(
    conn: &rusqlite::Connection,
    repo_id: &str,
    query: &str,
    kind: Option<&str>,
    limit: usize,
) -> (r: Result<String, MarrowError>)
    ensures
        scan::trimmed(query@).len() == 0 ==> (r matches Ok(t) && t@ == EMPTY_QUERY@),
        scan::trimmed(query@).len() > 0 ==> match r {
            Ok(t) => could_find(
                *conn,
                repo_id@,
                scan::trimmed(query@),
                text::opt_str(kind),
                shown_limit(limit),
                t@,
            ),
            Err(e) => e matches MarrowError::Store(why) && could_not_find(
                *conn,
                repo_id@,
                scan::trimmed(query@),
                text::opt_str(kind),
                shown_limit(limit),
                why,
            ),
        },
{
    let query = trim(query);
    if query.as_str().is_empty() {
        return Ok(EMPTY_QUERY.to_owned());
    }
    let limit: usize = if limit == 0 {
        1
    } else {
        limit
    };
    let fetch: i64 = if limit < usize::MAX {
        (limit + 1) as i64
    } else {
        usize::MAX as i64
    };
    let mut params: Vec<Param> = Vec::new();
    let words = fts_prefix_query(&query);
    let by_word = words.is_some();
    match words {
        Some(fts) => {
            params.push(Param::Text(fts));
            params.push(Param::Text(repo_id.to_owned()));
        },
        None => {
            params.push(Param::Text(repo_id.to_owned()));
            params.push(Param::Text(like_contains_pattern(&query)));
        },
    }
    let sql: &str = match kind {
        Some(k) => {
            params.push(Param::Text(like_contains_pattern(k)));
            if by_word {
                WORD_AND_KIND_SQL
            } else {
                FRAGMENT_AND_KIND_SQL
            }
        },
        None => {
            if by_word {
                WORD_SQL
            } else {
                FRAGMENT_SQL
            }
        },
    };
    params.push(Param::Int(fetch));
    assert(store::bounds(params@) =~= find_bounds(repo_id@, query@, text::opt_str(kind), limit));
    match select(conn, sql, params) {
        Ok(rows) => {
            let kept = keep_text_rows(&rows, 3);
            let found = format_symbol_matches(repo_id, &query, &kept, limit);
            proof {
                assert(store::could_answer(
                    *conn,
                    find_sql(query@, text::opt_str(kind)),
                    find_bounds(repo_id@, query@, text::opt_str(kind), limit),
                    rows@,
                ));
            }
            Ok(found)
        },
        Err(e) => Err(MarrowError::Store(e)),
    }
}

} // verus!
