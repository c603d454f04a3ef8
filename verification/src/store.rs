//! The graph database: one way to ask it, and the decoding of what it answers.
use crate::text;
use rusqlite::params_from_iter;
use rusqlite::types::Value;
use vstd::prelude::*;
use vstd::string::*;

verus! {

/// An open database of the `rusqlite` crate.
#[verifier::external_type_specification]
#[verifier::external_body]
pub struct ExConnection(rusqlite::Connection);

/// What the `rusqlite` crate reports when a statement fails.
#[verifier::external_type_specification]
#[verifier::external_body]
pub struct ExSqlError(rusqlite::Error);

/// Why a request to the library failed.
#[derive(Debug)]
pub enum MarrowError {
    /// The database refused a statement.
    Store(rusqlite::Error),
    /// The request itself cannot be met.
    Message(String),
}

impl MarrowError {
    /// Whether this is the text of the failure; that of a refused statement is up to the
    /// database.
    pub open spec fn says(&self, s: Seq<char>) -> bool {
        match self {
            MarrowError::Store(e) => exists|shown: String| #[trigger]
                to_string_from_display_ensures(e, shown) && shown@ == s,
            MarrowError::Message(m) => s == m@,
        }
    }

    /// The text of the failure.
    pub fn text(&self) -> (r: String)
        ensures
            self matches MarrowError::Message(m) ==> r@ == m@,
            self matches MarrowError::Store(e) ==> to_string_from_display_ensures(e, r),
            self.says(r@),
    {
        match self {
            MarrowError::Store(e) => e.to_string(),
            MarrowError::Message(m) => m.clone(),
        }
    }
}

/// A value bound to a placeholder of a statement.
pub enum Param {
    Null,
    Int(i64),
    Text(String),
}

/// A bound value without its representation.
pub enum Bound {
    Null,
    Int(int),
    Text(Seq<char>),
}

impl View for Param {
    type V = Bound;

    open spec fn view(&self) -> Bound {
        match self {
            Param::Null => Bound::Null,
            Param::Int(n) => Bound::Int(*n as int),
            Param::Text(s) => Bound::Text(s@),
        }
    }
}

/// The values bound to a statement's placeholders.
pub open spec fn bounds(params: Seq<Param>) -> Seq<Bound> {
    Seq::new(params.len(), |i: int| params[i]@)
}

/// One text to bind.
pub open spec fn one_text(a: Seq<char>) -> Seq<Bound> {
    seq![Bound::Text(a)]
}

/// Two texts to bind.
pub open spec fn two_texts(a: Seq<char>, b: Seq<char>) -> Seq<Bound> {
    seq![Bound::Text(a), Bound::Text(b)]
}

/// Three texts to bind.
pub open spec fn three_texts(a: Seq<char>, b: Seq<char>, c: Seq<char>) -> Seq<Bound> {
    seq![Bound::Text(a), Bound::Text(b), Bound::Text(c)]
}

/// A text and a number to bind.
pub open spec fn text_and_number(a: Seq<char>, n: int) -> Seq<Bound> {
    seq![Bound::Text(a), Bound::Int(n)]
}

/// Binds one text.
pub fn bind_one(a: &str) -> (r: Vec<Param>)
    ensures
        bounds(r@) == one_text(a@),
{
    let params = vec![Param::Text(a.to_owned())];
    assert(bounds(params@) =~= one_text(a@));
    params
}

/// Binds two texts.
pub fn bind_two(a: &str, b: &str) -> (r: Vec<Param>)
    ensures
        bounds(r@) == two_texts(a@, b@),
{
    let params = vec![Param::Text(a.to_owned()), Param::Text(b.to_owned())];
    assert(bounds(params@) =~= two_texts(a@, b@));
    params
}

/// Binds three texts.
pub fn bind_three(a: &str, b: &str, c: &str) -> (r: Vec<Param>)
    ensures
        bounds(r@) == three_texts(a@, b@, c@),
{
    let params = vec![
        Param::Text(a.to_owned()),
        Param::Text(b.to_owned()),
        Param::Text(c.to_owned()),
    ];
    assert(bounds(params@) =~= three_texts(a@, b@, c@));
    params
}

/// Binds a text and a number.
pub fn bind_text_and_number(a: &str, n: i64) -> (r: Vec<Param>)
    ensures
        bounds(r@) == text_and_number(a@, n as int),
{
    let params = vec![Param::Text(a.to_owned()), Param::Int(n)];
    assert(bounds(params@) =~= text_and_number(a@, n as int));
    params
}

/// A value of a result row, as far as the library reads it.
pub enum Cell {
    Null,
    Int(i64),
    Text(String),
    /// A real number or a blob.
    Other,
}

/// What a statement yielded: every row, or the error in its place.
pub type Answer = Vec<Result<Vec<Cell>, rusqlite::Error>>;

/// Whether asking an open database a statement with these values bound could come out
/// so, at one time or another: with these rows, or with this error in place of all of
/// them. Which it is is up to what the database holds then.
pub uninterp spec fn could_yield(
    db: rusqlite::Connection,
    sql: Seq<char>,
    params: Seq<Bound>,
    outcome: Result<Seq<Result<Vec<Cell>, rusqlite::Error>>, rusqlite::Error>,
) -> bool;

/// Whether a database could yield these rows for a statement with these values bound.
pub open spec fn could_answer(
    db: rusqlite::Connection,
    sql: Seq<char>,
    params: Seq<Bound>,
    answer: Seq<Result<Vec<Cell>, rusqlite::Error>>,
) -> bool {
    could_yield(db, sql, params, Ok(answer))
}

/// Whether a database could refuse a statement with these values bound for this reason.
pub open spec fn could_refuse(
    db: rusqlite::Connection,
    sql: Seq<char>,
    params: Seq<Bound>,
    why: rusqlite::Error,
) -> bool {
    could_yield(db, sql, params, Err(why))
}

/// `Connection::prepare` and `Statement::query_map`: every row that the statement
/// yields, or the error in its place; one error where the statement is refused. All
/// that is claimed of either is that it is what this database makes of this statement
/// with these values bound; what it holds decides the rest.
#[verifier::external_body]
pub(crate) fn select(conn: &rusqlite::Connection, sql: &str, params: Vec<Param>) -> (r: Result<
    Answer,
    rusqlite::Error,
>)
    ensures
        match r {
            Ok(answer) => could_yield(*conn, sql@, bounds(params@), Ok(answer@)),
            Err(why) => could_yield(*conn, sql@, bounds(params@), Err(why)),
        },
{
    let mut stmt = conn.prepare(sql)?;
    let n = stmt.column_count();
    let rows = stmt.query_map(params_from_iter(params.into_iter().map(|p| match p {
        Param::Null => Value::Null,
        Param::Int(v) => Value::Integer(v),
        Param::Text(v) => Value::Text(v),
    })), |row| (0..n).map(|i| Ok(match row.get(i)? {
        Value::Null => Cell::Null,
        Value::Integer(v) => Cell::Int(v),
        Value::Text(v) => Cell::Text(v),
        _ => Cell::Other,
    })).collect())?;
    Ok(rows.collect())
}

/// What a column is read as.
#[derive(Clone, Copy, Debug, PartialEq, Eq, Structural)]
pub enum Kind {
    Text,
    /// A text, or nothing.
    MaybeText,
    Int,
}

/// Whether a value is of a kind.
pub open spec fn suits(cell: Cell, kind: Kind) -> bool {
    match kind {
        Kind::Text => cell is Text,
        Kind::MaybeText => cell is Text || cell is Null,
        Kind::Int => cell is Int,
    }
}

/// Whether the columns of a row are values of these kinds.
pub open spec fn fits(row: Seq<Cell>, kinds: Seq<Kind>) -> bool {
    row.len() == kinds.len() && forall|j: int|
        0 <= j < kinds.len() ==> suits(#[trigger] row[j], kinds[j])
}

/// Whether every row that could be read has columns of these kinds.
pub open spec fn all_fit(answer: Seq<Result<Vec<Cell>, rusqlite::Error>>, kinds: Seq<Kind>) -> bool {
    forall|i: int|
        0 <= i < answer.len() ==> (#[trigger] answer[i] matches Ok(row) ==> fits(row@, kinds))
}

/// One number.
pub open spec fn one_int() -> Seq<Kind> {
    seq![Kind::Int]
}

/// As many texts.
pub open spec fn texts_only(n: nat) -> Seq<Kind> {
    Seq::new(n, |i: int| Kind::Text)
}

/// To read one number.
pub(crate) fn as_int() -> (r: Vec<Kind>)
    ensures
        r@ == one_int(),
{
    let kinds = vec![Kind::Int];
    assert(kinds@ =~= one_int());
    kinds
}

/// To read as many texts.
pub(crate) fn as_texts(n: usize) -> (r: Vec<Kind>)
    ensures
        r@ == texts_only(n as nat),
{
    let mut kinds: Vec<Kind> = Vec::new();
    let mut i: usize = 0;
    assert(kinds@ =~= texts_only(0));
    while i < n
        invariant
            i <= n,
            kinds@ == texts_only(i as nat),
        decreases n - i,
    {
        kinds.push(Kind::Text);
        i += 1;
        assert(kinds@ =~= texts_only(i as nat));
    }
    kinds
}

/// Whether asking an open database a statement with these values bound, and reading the
/// columns of its rows as these kinds, could come out so, at one time or another: with
/// these rows, or with this error in place of all of them. Which it is is up to what the
/// database holds then.
pub uninterp spec fn could_give(
    db: rusqlite::Connection,
    sql: Seq<char>,
    kinds: Seq<Kind>,
    params: Seq<Bound>,
    outcome: Result<Seq<Result<Vec<Cell>, rusqlite::Error>>, rusqlite::Error>,
) -> bool;

/// Whether a database could yield these rows for a statement with these values bound,
/// its columns read as these kinds.
pub open spec fn could_read(
    db: rusqlite::Connection,
    sql: Seq<char>,
    kinds: Seq<Kind>,
    params: Seq<Bound>,
    answer: Seq<Result<Vec<Cell>, rusqlite::Error>>,
) -> bool {
    could_give(db, sql, kinds, params, Ok(answer))
}

/// Whether a database could refuse a statement with these values bound for this reason,
/// its columns to be read as these kinds.
pub open spec fn could_decline(
    db: rusqlite::Connection,
    sql: Seq<char>,
    kinds: Seq<Kind>,
    params: Seq<Bound>,
    why: rusqlite::Error,
) -> bool {
    could_give(db, sql, kinds, params, Err(why))
}

/// `Row::get` with the type of each column given, on the rows of `Statement::query_map`:
/// every row that the statement yields, or the error in its place; one error where the
/// statement is refused. A row with a column that cannot be read as its kind is such an
/// error, so the others hold values of these kinds, one for each. Beyond that all that
/// is claimed is that it is what this database makes of this statement with these values
/// bound; what it holds decides the rest.
#[verifier::external_body]
pub(crate) fn read_as(
    conn: &rusqlite::Connection,
    sql: &str,
    kinds: Vec<Kind>,
    params: Vec<Param>,
) -> (r: Result<Answer, rusqlite::Error>)
    ensures
        match r {
            Ok(answer) => could_give(*conn, sql@, kinds@, bounds(params@), Ok(answer@))
                && all_fit(answer@, kinds@),
            Err(why) => could_give(*conn, sql@, kinds@, bounds(params@), Err(why)),
        },
{
    let mut stmt = conn.prepare(sql)?;
    let rows = stmt.query_map(params_from_iter(params.into_iter().map(|p| match p {
        Param::Null => Value::Null,
        Param::Int(v) => Value::Integer(v),
        Param::Text(v) => Value::Text(v),
    })), |row| kinds.iter().enumerate().map(|(i, kind)| match kind {
        Kind::Text => row.get(i).map(Cell::Text),
        Kind::MaybeText => row.get(i).map(|v: Option<String>| v.map_or(Cell::Null, Cell::Text)),
        Kind::Int => row.get(i).map(Cell::Int),
    }).collect())?;
    Ok(rows.collect())
}

/// Whether running a statement with these values bound on an open database could come
/// out so, at one time or another: with this many rows changed, or with this error.
pub uninterp spec fn could_perform(
    db: rusqlite::Connection,
    sql: Seq<char>,
    params: Seq<Bound>,
    outcome: Result<int, rusqlite::Error>,
) -> bool;

/// Whether this many rows of a database could change when a statement with these values
/// bound is run on it.
pub open spec fn could_change(
    db: rusqlite::Connection,
    sql: Seq<char>,
    params: Seq<Bound>,
    changed: int,
) -> bool {
    could_perform(db, sql, params, Ok(changed))
}

/// Whether a database could refuse to run a statement with these values bound for this
/// reason.
pub open spec fn could_reject(
    db: rusqlite::Connection,
    sql: Seq<char>,
    params: Seq<Bound>,
    why: rusqlite::Error,
) -> bool {
    could_perform(db, sql, params, Err(why))
}

/// `Connection::execute`: the number of rows that the statement changed, or why it was
/// not run. Which of them it is is up to what the database holds.
#[verifier::external_body]
pub(crate) fn change(conn: &rusqlite::Connection, sql: &str, params: Vec<Param>) -> (r: Result<
    usize,
    rusqlite::Error,
>)
    ensures
        match r {
            Ok(changed) => could_perform(*conn, sql@, bounds(params@), Ok(changed as int)),
            Err(why) => could_perform(*conn, sql@, bounds(params@), Err(why)),
        },
{
    conn.execute(sql, params_from_iter(params.into_iter().map(|p| match p {
        Param::Null => Value::Null,
        Param::Int(v) => Value::Integer(v),
        Param::Text(v) => Value::Text(v),
    })))
}

/// Whether a database could run a list of statements, or refuse it for this reason.
pub uninterp spec fn could_script(
    db: rusqlite::Connection,
    sql: Seq<char>,
    refused: Option<rusqlite::Error>,
) -> bool;

/// `Connection::execute_batch`: runs statements one after the other, or tells why one
/// of them is refused. The outcome is one that the database could give to this text;
/// which it is, and what the statements leave behind, is up to what the database holds.
#[verifier::external_body]
pub(crate) fn run_script(conn: &rusqlite::Connection, sql: &str) -> (r: Result<
    (),
    rusqlite::Error,
>)
    ensures
        match r {
            Ok(_) => could_script(*conn, sql@, None),
            Err(why) => could_script(*conn, sql@, Some(why)),
        },
{
    conn.execute_batch(sql)
}

/// Whether running a statement could come out so: with this many rows changed, or with
/// nothing where the database refuses it.
pub open spec fn could_run(
    db: rusqlite::Connection,
    sql: Seq<char>,
    params: Seq<Bound>,
    changed: Option<usize>,
) -> bool {
    match changed {
        Some(n) => could_change(db, sql, params, n as int),
        None => exists|why: rusqlite::Error| #[trigger] could_reject(db, sql, params, why),
    }
}

/// A statement that was run, and what came of it.
pub struct Asked {
    pub sql: Seq<char>,
    pub params: Seq<Bound>,
    pub changed: Option<usize>,
}

/// A run of changes to a database. Statements are run through it one after the other;
/// in contracts it tells which these were, in order.
pub struct Changes<'a> {
    conn: &'a rusqlite::Connection,
    log: Ghost<Seq<Asked>>,
}

impl<'a> Changes<'a> {
    /// The database that is changed.
    pub closed spec fn database(&self) -> rusqlite::Connection {
        *self.conn
    }

    /// The statements that were run, in order.
    pub closed spec fn asked(&self) -> Seq<Asked> {
        self.log@
    }

    /// A run of changes with nothing changed yet.
    pub fn start(conn: &'a rusqlite::Connection) -> (r: Self)
        ensures
            r.database() == *conn,
            r.asked() == Seq::<Asked>::empty(),
    {
        Changes { conn, log: Ghost(Seq::empty()) }
    }

    /// Runs a statement. The result is how many rows it changed, or nothing where it was
    /// refused.
    pub fn run(&mut self, sql: &str, params: Vec<Param>) -> (r: Option<usize>)
        ensures
            final(self).database() == old(self).database(),
            final(self).asked() == old(self).asked().push(
                (Asked { sql: sql@, params: bounds(params@), changed: r }),
            ),
            could_run(old(self).database(), sql@, bounds(params@), r),
    {
        let ghost bound = bounds(params@);
        let changed: Option<usize> = match change(self.conn, sql, params) {
            Ok(n) => Some(n),
            Err(why) => {
                assert(could_reject(*self.conn, sql@, bound, why));
                None
            },
        };
        self.log = Ghost(self.log@.push(Asked { sql: sql@, params: bound, changed }));
        changed
    }
}

// ── Decoding ─────────────────────────────────────────────────────────────────

/// Whether the first `n` cells of a row are texts.
pub open spec fn is_text_row(row: Seq<Cell>, n: int) -> bool {
    n <= row.len() && forall|i: int| 0 <= i < n ==> #[trigger] row[i] is Text
}

/// The texts of a row's first `n` cells.
pub open spec fn row_texts(row: Seq<Cell>, n: nat) -> Seq<Seq<char>> {
    Seq::new(n, |i: int| row[i]->Text_0@)
}

/// The rows that could be read and whose first `n` cells are texts, in order.
pub open spec fn text_rows(answer: Seq<Result<Vec<Cell>, rusqlite::Error>>, n: nat) -> Seq<
    Seq<Seq<char>>,
>
    decreases answer.len(),
{
    if answer.len() == 0 {
        Seq::empty()
    } else {
        let head = text_rows(answer.drop_last(), n);
        match answer.last() {
            Ok(row) => if is_text_row(row@, n as int) {
                head.push(row_texts(row@, n))
            } else {
                head
            },
            Err(_) => head,
        }
    }
}

/// The texts of a list of rows.
pub open spec fn table(rows: Seq<Vec<String>>) -> Seq<Seq<Seq<char>>> {
    Seq::new(rows.len(), |i: int| text::texts(rows[i]@))
}

/// Every row that could be read and begins with that many texts is kept, in order, and no
/// other; of a row that is kept, just those texts.
pub proof fn law_rows_of_texts_are_kept(
    answer: Seq<Result<Vec<Cell>, rusqlite::Error>>,
    n: nat,
)
    ensures
        text_rows(answer, n) == answer.filter_map(
            |row: Result<Vec<Cell>, rusqlite::Error>|
                match row {
                    Ok(cells) => if cells@.len() >= n && forall|i: int|
                        0 <= i < n ==> (#[trigger] cells@[i]) is Text {
                        Some(Seq::new(n, |i: int| cells@[i]->Text_0@))
                    } else {
                        None
                    },
                    Err(_) => None,
                },
        ),
    decreases answer.len(),
{
    if answer.len() > 0 {
        law_rows_of_texts_are_kept(answer.drop_last(), n);
        let head = text_rows(answer.drop_last(), n);
        match answer.last() {
            Ok(row) => {
                let kept = Seq::new(n, |i: int| row@[i]->Text_0@);
                assert(row_texts(row@, n) =~= kept);
                assert(head.push(kept) =~= head + seq![kept]);
            },
            Err(_) => {},
        }
    }
}

fn read_text_row(row: &Vec<Cell>, n: usize) -> (r: Option<Vec<String>>)
    ensures
        r is Some <==> is_text_row(row@, n as int),
        r matches Some(v) ==> text::texts(v@) == row_texts(row@, n as nat),
{
    if row.len() < n {
        return None;
    }
    let mut out: Vec<String> = Vec::new();
    let mut i: usize = 0;
    while i < n
        invariant
            i <= n <= row.len(),
            out.len() == i,
            forall|k: int| 0 <= k < i ==> #[trigger] row@[k] is Text && out@[k]@ == row@[k]->Text_0@,
        decreases n - i,
    {
        match &row[i] {
            Cell::Text(s) => {
                out.push(s.clone());
            },
            _ => {
                return None;
            },
        }
        i += 1;
    }
    assert(text::texts(out@) =~= row_texts(row@, n as nat));
    Some(out)
}

/// Keeps the rows that could be read and whose first `n` cells are texts.
pub fn keep_text_rows(answer: &Answer, n: usize) -> (r: Vec<Vec<String>>)
    ensures
        table(r@) == text_rows(answer@, n as nat),
        forall|i: int| 0 <= i < r.len() ==> #[trigger] r@[i].len() == n,
{
    let mut out: Vec<Vec<String>> = Vec::new();
    let mut i: usize = 0;
    assert(table(out@) =~= text_rows(answer@.take(0), n as nat));
    while i < answer.len()
        invariant
            i <= answer.len(),
            table(out@) == text_rows(answer@.take(i as int), n as nat),
            forall|k: int| 0 <= k < out.len() ==> #[trigger] out@[k].len() == n,
        decreases answer.len() - i,
    {
        assert(answer@.take(i + 1).drop_last() =~= answer@.take(i as int));
        match &answer[i] {
            Ok(row) => {
                match read_text_row(row, n) {
                    Some(v) => {
                        let ghost before = out@;
                        assert(v.len() == n) by {
                            assert(text::texts(v@).len() == v.len());
                        }
                        out.push(v);
                        assert(table(out@) =~= table(before).push(text::texts(v@)));
                    },
                    None => {},
                }
            },
            Err(_) => {},
        }
        i += 1;
    }
    assert(answer@.take(answer@.len() as int) =~= answer@);
    out
}

/// The number in a row's cell, if it holds one.
pub open spec fn int_at(row: Seq<Cell>, i: int) -> Option<i64> {
    if 0 <= i < row.len() && row[i] is Int {
        Some(row[i]->Int_0)
    } else {
        None
    }
}

/// The text in a row's cell, if it holds one.
pub open spec fn text_at(row: Seq<Cell>, i: int) -> Option<Seq<char>> {
    if 0 <= i < row.len() && row[i] is Text {
        Some(row[i]->Text_0@)
    } else {
        None
    }
}

/// The number in a row's cell, if it holds one.
pub fn read_int(row: &Vec<Cell>, i: usize) -> (r: Option<i64>)
    ensures
        r == int_at(row@, i as int),
{
    if i < row.len() {
        match &row[i] {
            Cell::Int(n) => Some(*n),
            _ => None,
        }
    } else {
        None
    }
}

/// The text in a row's cell, if it holds one.
pub fn read_text(row: &Vec<Cell>, i: usize) -> (r: Option<String>)
    ensures
        text::opt_text(r) == text_at(row@, i as int),
{
    if i < row.len() {
        match &row[i] {
            Cell::Text(s) => Some(s.clone()),
            _ => None,
        }
    } else {
        None
    }
}

/// The number that the first row's first cell holds, if there is one.
pub open spec fn first_int(answer: Seq<Result<Vec<Cell>, rusqlite::Error>>) -> Option<i64> {
    if answer.len() == 0 {
        None
    } else {
        match answer[0] {
            Ok(row) => int_at(row@, 0),
            Err(_) => None,
        }
    }
}

/// What is read first of an answer is the first cell of its first row, where that row could
/// be read and the cell holds what is asked for.
pub proof fn law_the_first_cell_is_read(
    answer: Seq<Result<Vec<Cell>, rusqlite::Error>>,
    n: i64,
    s: Seq<char>,
)
    ensures
        first_int(answer) == Some(n) <==> answer.len() > 0 && (answer[0] matches Ok(row)
            && row@.len() > 0 && row@[0] == Cell::Int(n)),
        first_text(answer) == Some(s) <==> answer.len() > 0 && (answer[0] matches Ok(row)
            && row@.len() > 0 && (row@[0] matches Cell::Text(t) && t@ == s)),
{
}

/// The text that the first row's first cell holds, if there is one.
pub open spec fn first_text(answer: Seq<Result<Vec<Cell>, rusqlite::Error>>) -> Option<
    Seq<char>,
> {
    if answer.len() == 0 {
        None
    } else {
        match answer[0] {
            Ok(row) => text_at(row@, 0),
            Err(_) => None,
        }
    }
}

/// Whether a database could leave open which number a statement gives: it refuses the
/// statement, or the first row holds none.
pub open spec fn could_lack_int(
    db: rusqlite::Connection,
    sql: Seq<char>,
    params: Seq<Bound>,
) -> bool {
    ||| exists|why: rusqlite::Error| #[trigger] could_refuse(db, sql, params, why)
    ||| exists|answer: Seq<Result<Vec<Cell>, rusqlite::Error>>| #[trigger]
        could_answer(db, sql, params, answer) && first_int(answer) is None
}

/// Whether a database could leave open which text a statement gives: it refuses the
/// statement, or the first row holds none.
pub open spec fn could_lack_text(
    db: rusqlite::Connection,
    sql: Seq<char>,
    params: Seq<Bound>,
) -> bool {
    ||| exists|why: rusqlite::Error| #[trigger] could_refuse(db, sql, params, why)
    ||| exists|answer: Seq<Result<Vec<Cell>, rusqlite::Error>>| #[trigger]
        could_answer(db, sql, params, answer) && first_text(answer) is None
}

/// The number that the first row's first cell holds, if there is one.
pub fn read_first_int(answer: &Answer) -> (r: Option<i64>)
    ensures
        r == first_int(answer@),
{
    if answer.len() == 0 {
        return None;
    }
    match &answer[0] {
        Ok(row) => read_int(row, 0),
        Err(_) => None,
    }
}

/// The text that the first row's first cell holds, if there is one.
pub fn read_first_text(answer: &Answer) -> (r: Option<String>)
    ensures
        text::opt_text(r) == first_text(answer@),
{
    if answer.len() == 0 {
        return None;
    }
    match &answer[0] {
        Ok(row) => read_text(row, 0),
        Err(_) => None,
    }
}

/// What is said where a statement that gives one row gave none.
pub const NO_ROWS: &'static str = "Query returned no rows";

/// Whether this is told of a row that cannot be read: its own error.
pub open spec fn is_failure(e: MarrowError, row: Result<Vec<Cell>, rusqlite::Error>) -> bool {
    row matches Err(own) && e == MarrowError::Store(own)
}

/// Whether an error tells why the first row of an answer cannot be read.
pub open spec fn is_first_failure(
    e: MarrowError,
    answer: Seq<Result<Vec<Cell>, rusqlite::Error>>,
) -> bool {
    if answer.len() == 0 {
        e matches MarrowError::Message(m) && m@ == NO_ROWS@
    } else {
        is_failure(e, answer[0])
    }
}

/// Whether counting with a statement could fail so: the database refuses it, or gives no
/// row, or one that holds no number.
pub open spec fn could_not_count(
    db: rusqlite::Connection,
    sql: Seq<char>,
    params: Seq<Bound>,
    e: MarrowError,
) -> bool {
    ||| e matches MarrowError::Store(why) && could_decline(db, sql, one_int(), params, why)
    ||| exists|answer: Seq<Result<Vec<Cell>, rusqlite::Error>>|
        {
            &&& #[trigger] could_read(db, sql, one_int(), params, answer)
            &&& is_first_failure(e, answer)
        }
}

/// Why a row cannot be read.
pub(crate) fn failure_at(answer: Answer, i: usize) -> (r: MarrowError)
    requires
        i < answer.len(),
        answer@[i as int] is Err,
    ensures
        is_failure(r, answer@[i as int]),
{
    let mut rest = answer;
    match rest.remove(i) {
        Ok(_) => MarrowError::Message(NO_ROWS.to_owned()),
        Err(e) => MarrowError::Store(e),
    }
}

/// The number that an answer counts.
pub(crate) fn read_count(answer: Answer) -> (r: Result<i64, MarrowError>)
    requires
        all_fit(answer@, one_int()),
    ensures
        match r {
            Ok(n) => first_int(answer@) == Some(n),
            Err(e) => is_first_failure(e, answer@),
        },
{
    match read_first_int(&answer) {
        Some(n) => Ok(n),
        None => if answer.len() == 0 {
            Err(MarrowError::Message(NO_ROWS.to_owned()))
        } else {
            proof {
                if answer@[0] is Ok {
                    assert(fits(answer@[0]->Ok_0@, one_int()));
                    assert(suits(answer@[0]->Ok_0@[0], one_int()[0]));
                }
            }
            Err(failure_at(answer, 0))
        },
    }
}

/// The number that a statement counts.
pub(crate) fn count(conn: &rusqlite::Connection, sql: &str, params: Vec<Param>) -> (r: Result<
    i64,
    MarrowError,
>)
    ensures
        match r {
            Ok(n) => could_count(*conn, sql@, bounds(params@), n),
            Err(e) => could_not_count(*conn, sql@, bounds(params@), e),
        },
{
    let ghost bound = bounds(params@);
    match read_as(conn, sql, as_int(), params) {
        Ok(answer) => {
            assert(could_read(*conn, sql@, one_int(), bound, answer@));
            read_count(answer)
        },
        Err(e) => Err(MarrowError::Store(e)),
    }
}

/// Whether a database could count this many with a statement.
pub open spec fn could_count(
    db: rusqlite::Connection,
    sql: Seq<char>,
    params: Seq<Bound>,
    n: i64,
) -> bool {
    exists|answer: Seq<Result<Vec<Cell>, rusqlite::Error>>| #[trigger]
        could_read(db, sql, one_int(), params, answer) && first_int(answer) == Some(n)
}

/// Whether every row of an answer could be read and has texts in its first `n` cells.
pub open spec fn all_texts(answer: Seq<Result<Vec<Cell>, rusqlite::Error>>, n: nat) -> bool {
    forall|i: int|
        0 <= i < answer.len() ==> (#[trigger] answer[i] matches Ok(row) && is_text_row(
            row@,
            n as int,
        ))
}

/// Whether reading the rows of a statement as these kinds could fail so: the database
/// refuses it, or a row cannot be read so.
pub open spec fn could_not_read(
    db: rusqlite::Connection,
    sql: Seq<char>,
    kinds: Seq<Kind>,
    params: Seq<Bound>,
    e: MarrowError,
) -> bool {
    ||| e matches MarrowError::Store(why) && could_decline(db, sql, kinds, params, why)
    ||| exists|answer: Seq<Result<Vec<Cell>, rusqlite::Error>>, i: int|
        {
            &&& #[trigger] could_read(db, sql, kinds, params, answer)
            &&& 0 <= i < answer.len()
            &&& #[trigger] is_failure(e, answer[i])
        }
}

/// The texts of every row's first `n` cells.
pub open spec fn text_table(answer: Seq<Result<Vec<Cell>, rusqlite::Error>>, n: nat) -> Seq<
    Seq<Seq<char>>,
> {
    Seq::new(answer.len(), |i: int| row_texts(answer[i]->Ok_0@, n))
}

/// The texts of every row's first `n` cells, or why a row cannot be read.
pub(crate) fn read_text_rows(answer: Answer, n: usize) -> (r: Result<Vec<Vec<String>>, MarrowError>)
    requires
        all_fit(answer@, texts_only(n as nat)),
    ensures
        r is Ok <==> all_texts(answer@, n as nat),
        r matches Ok(rows) ==> table(rows@) == text_table(answer@, n as nat) && forall|i: int|
            0 <= i < rows.len() ==> #[trigger] rows@[i].len() == n,
        r matches Err(e) ==> exists|i: int|
            0 <= i < answer.len() && #[trigger] is_failure(e, answer@[i]),
{
    let mut out: Vec<Vec<String>> = Vec::new();
    let mut i: usize = 0;
    while i < answer.len()
        invariant
            i <= answer.len(),
            all_fit(answer@, texts_only(n as nat)),
            out.len() == i,
            forall|k: int|
                0 <= k < i ==> (#[trigger] answer@[k] matches Ok(row) && is_text_row(
                    row@,
                    n as int,
                ) && text::texts(out@[k]@) == row_texts(row@, n as nat)),
            forall|k: int| 0 <= k < i ==> #[trigger] out@[k].len() == n,
        decreases answer.len() - i,
    {
        let texts = match &answer[i] {
            Ok(row) => read_text_row(row, n),
            Err(_) => None,
        };
        match texts {
            Some(v) => {
                assert(v.len() == n) by {
                    assert(text::texts(v@).len() == v.len());
                }
                out.push(v);
            },
            None => {
                let ghost whole = answer@;
                proof {
                    if whole[i as int] is Ok {
                        let row = whole[i as int]->Ok_0@;
                        assert(fits(row, texts_only(n as nat)));
                        assert forall|k: int| 0 <= k < n implies #[trigger] row[k] is Text by {
                            assert(suits(row[k], texts_only(n as nat)[k]));
                        }
                        assert(is_text_row(row, n as int));
                    }
                }
                let e = failure_at(answer, i);
                assert(is_failure(e, whole[i as int]));
                return Err(e);
            },
        }
        i += 1;
    }
    assert(table(out@) =~= text_table(answer@, n as nat));
    Ok(out)
}

} // verus!
