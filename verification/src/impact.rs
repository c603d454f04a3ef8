//! What a change to a symbol reaches.
use crate::model::{ImpactNode, ImpactResult};
use crate::reach;
use crate::scan;
use crate::scan::strip_prefix;
use crate::settings::Settings;
use crate::store;
use crate::store::{bind_one, read_text, select, Answer, MarrowError};
use crate::symbols;
use crate::symbols::{resolve_symbol_or_disambiguate, SymbolResolution};
use crate::text;
use crate::text::{count_text, pad_left, pad_right, repeat, signed_text};
use crate::walk;
use crate::walk::{traverse, Course, GraphEntry};
use vstd::prelude::*;
use vstd::string::*;

verus! {

/// What is told of an affected node.
pub const DETAILS_SQL: &'static str =
    "SELECT symbol_name, symbol_type, file_path, repo_id FROM nodes WHERE id = ?1";

/// What a pivot's identity begins with when the name was ambiguous.
pub const AMBIGUOUS: &'static str = "DISAMBIGUATION:";

/// An affected symbol without its representation.
pub struct ImpactText {
    pub id: Seq<char>,
    pub symbol_name: Seq<char>,
    pub symbol_type: Seq<char>,
    pub file_path: Seq<char>,
    pub repo_id: Seq<char>,
    pub relationship_type: Seq<char>,
    pub depth: int,
}

impl View for ImpactNode {
    type V = ImpactText;

    open spec fn view(&self) -> ImpactText {
        ImpactText {
            id: self.id@,
            symbol_name: self.symbol_name@,
            symbol_type: self.symbol_type@,
            file_path: self.file_path@,
            repo_id: self.repo_id@,
            relationship_type: self.relationship_type@,
            depth: self.depth as int,
        }
    }
}

/// The affected symbols of a list.
pub open spec fn impact_texts(v: Seq<ImpactNode>) -> Seq<ImpactText> {
    Seq::new(v.len(), |i: int| v[i]@)
}

/// The depth of an affected symbol, as far as it can be written.
pub open spec fn depth_shown(depth: int) -> int {
    if depth <= i64::MAX {
        depth
    } else {
        i64::MAX as int
    }
}

fn shown_depth(depth: usize) -> (r: i64)
    ensures
        r == depth_shown(depth as int),
{
    if depth as u64 <= 0x7fff_ffff_ffff_ffff {
        depth as i64
    } else {
        i64::MAX
    }
}

/// The affected symbol that a row and the edge that led to it describe, if they do.
pub open spec fn impact_from(row: Seq<store::Cell>, entry: walk::EntryText) -> Option<
    ImpactText,
> {
    match (
        store::text_at(row, 0),
        store::text_at(row, 1),
        store::text_at(row, 2),
        store::text_at(row, 3),
    ) {
        (Some(name), Some(kind), Some(path), Some(repo)) => Some(
            ImpactText {
                id: entry.node.id,
                symbol_name: name,
                symbol_type: kind,
                file_path: path,
                repo_id: repo,
                relationship_type: entry.relationship,
                depth: depth_shown(entry.depth),
            },
        ),
        _ => None,
    }
}

/// The affected symbol that the first row of an answer describes, if it does.
pub open spec fn first_impact(
    answer: Seq<Result<Vec<store::Cell>, rusqlite::Error>>,
    entry: walk::EntryText,
) -> Option<ImpactText> {
    if answer.len() == 0 {
        None
    } else {
        match answer[0] {
            Ok(row) => impact_from(row@, entry),
            Err(_) => None,
        }
    }
}

/// What a database could answer of a node.
pub open spec fn could_detail(
    db: rusqlite::Connection,
    id: Seq<char>,
    answer: Seq<Result<Vec<store::Cell>, rusqlite::Error>>,
) -> bool {
    store::could_answer(db, DETAILS_SQL@, store::one_text(id), answer)
}

/// The affected symbols among the first `n` entries of a walk, each where it was first
/// met, at most `max_rows` of them. What is no node any more is left out.
pub open spec fn impacts_upto(
    entries: Seq<walk::EntryText>,
    answers: Seq<Seq<Result<Vec<store::Cell>, rusqlite::Error>>>,
    max_rows: usize,
    n: int,
) -> Seq<ImpactText>
    decreases n,
{
    if n <= 0 {
        Seq::empty()
    } else {
        let head = impacts_upto(entries, answers, max_rows, n - 1);
        if entries[n - 1].already_seen || head.len() >= max_rows {
            head
        } else {
            match first_impact(answers[n - 1], entries[n - 1]) {
                Some(found) => head.push(found),
                None => head,
            }
        }
    }
}

fn read_impact(answer: &Answer, entry: &GraphEntry) -> (r: Option<ImpactNode>)
    ensures
        r is Some <==> first_impact(answer@, entry@) is Some,
        r matches Some(n) ==> first_impact(answer@, entry@) == Some(n@),
{
    if answer.len() == 0 {
        return None;
    }
    let row = match &answer[0] {
        Ok(row) => row,
        Err(_) => {
            return None;
        },
    };
    match (
        read_text(row, 0),
        read_text(row, 1),
        read_text(row, 2),
        read_text(row, 3),
    ) {
        (Some(name), Some(kind), Some(path), Some(repo)) => Some(
            ImpactNode {
                id: entry.node.id.clone(),
                symbol_name: name,
                symbol_type: kind,
                file_path: path,
                repo_id: repo,
                relationship_type: entry.relationship_type.clone(),
                depth: shown_depth(entry.depth),
            },
        ),
        _ => None,
    }
}

/// Whether a database could describe the entries of a walk so.
pub open spec fn could_describe(
    db: rusqlite::Connection,
    entries: Seq<walk::EntryText>,
    max_rows: usize,
    affected: Seq<ImpactText>,
) -> bool {
    exists|answers: Seq<Seq<Result<Vec<store::Cell>, rusqlite::Error>>>|
        {
            &&& answers.len() == entries.len()
            &&& forall|i: int|
                0 <= i < entries.len() && !entries[i].already_seen && impacts_upto(
                    entries,
                    answers,
                    max_rows,
                    i,
                ).len() < max_rows ==> could_detail(db, entries[i].node.id, #[trigger] answers[i])
            &&& affected == #[trigger] impacts_upto(
                entries,
                answers,
                max_rows,
                entries.len() as int,
            )
        }
}

proof fn lemma_impacts_upto_reads_the_front(
    entries: Seq<walk::EntryText>,
    a: Seq<Seq<Result<Vec<store::Cell>, rusqlite::Error>>>,
    b: Seq<Seq<Result<Vec<store::Cell>, rusqlite::Error>>>,
    max_rows: usize,
    n: int,
)
    requires
        n <= a.len(),
        n <= b.len(),
        forall|i: int| 0 <= i < n ==> a[i] == b[i],
    ensures
        impacts_upto(entries, a, max_rows, n) == impacts_upto(entries, b, max_rows, n),
    decreases n,
{
    if n > 0 {
        lemma_impacts_upto_reads_the_front(entries, a, b, max_rows, n - 1);
    }
}

/// The affected symbols among the entries of a walk, each where it was first met, at
/// most `max_rows` of them.
fn describe(conn: &rusqlite::Connection, entries: &Vec<GraphEntry>, max_rows: usize) -> (r: Result<
    Vec<ImpactNode>,
    MarrowError,
>)
    ensures
        match r {
            Ok(v) => could_describe(
                *conn,
                walk::entry_texts(entries@),
                max_rows,
                impact_texts(v@),
            ),
            Err(e) => e matches MarrowError::Store(why) && could_not_describe(
                *conn,
                walk::entry_texts(entries@),
                why,
            ),
        },
{
    let ghost all = walk::entry_texts(entries@);
    let mut out: Vec<ImpactNode> = Vec::new();
    let ghost mut answers: Seq<Seq<Result<Vec<store::Cell>, rusqlite::Error>>> = Seq::empty();
    let mut i: usize = 0;
    assert(impact_texts(out@) =~= Seq::<ImpactText>::empty());
    while i < entries.len()
        invariant
            i <= entries.len(),
            all == walk::entry_texts(entries@),
            answers.len() == i,
            forall|k: int|
                0 <= k < i && !all[k].already_seen && impacts_upto(all, answers, max_rows, k).len()
                    < max_rows ==> could_detail(*conn, all[k].node.id, #[trigger] answers[k]),
            impact_texts(out@) == impacts_upto(all, answers, max_rows, i as int),
        decreases entries.len() - i,
    {
        let entry = &entries[i];
        let ghost answers0 = answers;
        let ghost before = out@;
        assert(impact_texts(out@).len() == out.len());
        assert(all[i as int] == entry@);
        if entry.already_seen || out.len() >= max_rows {
            proof {
                answers = answers.push(Seq::empty());
            }
        } else {
            match select(conn, DETAILS_SQL, bind_one(&entry.node.id)) {
                Ok(answer) => {
                    proof {
                        answers = answers.push(answer@);
                    }
                    match read_impact(&answer, entry) {
                        Some(n) => {
                            out.push(n);
                            assert(impact_texts(out@) =~= impact_texts(before).push(n@));
                        },
                        None => {},
                    }
                },
                Err(e) => {
                    assert(store::could_refuse(
                        *conn,
                        DETAILS_SQL@,
                        store::one_text(all[i as int].node.id),
                        e,
                    ));
                    return Err(MarrowError::Store(e));
                },
            }
        }
        proof {
            assert forall|k: int| 0 <= k <= i implies impacts_upto(all, answers, max_rows, k)
                == impacts_upto(all, answers0, max_rows, k) by {
                lemma_impacts_upto_reads_the_front(all, answers, answers0, max_rows, k);
            }
            assert forall|k: int|
                0 <= k < i + 1 && !all[k].already_seen && impacts_upto(
                    all,
                    answers,
                    max_rows,
                    k,
                ).len() < max_rows implies could_detail(
                *conn,
                all[k].node.id,
                #[trigger] answers[k],
            ) by {
                assert(impacts_upto(all, answers, max_rows, k) == impacts_upto(
                    all,
                    answers0,
                    max_rows,
                    k,
                ));
                if k < i {
                    assert(answers[k] == answers0[k]);
                }
            }
        }
        i += 1;
    }
    assert(all.len() == entries.len());
    assert(impact_texts(out@) == impacts_upto(all, answers, max_rows, all.len() as int));
    Ok(out)
}

/// Whether a database could refuse to describe one of the entries for this reason.
pub open spec fn could_not_describe(
    db: rusqlite::Connection,
    entries: Seq<walk::EntryText>,
    why: rusqlite::Error,
) -> bool {
    exists|i: int|
        0 <= i < entries.len() && !(#[trigger] entries[i]).already_seen && store::could_refuse(
            db,
            DETAILS_SQL@,
            store::one_text(entries[i].node.id),
            why,
        )
}

/// Where the walk to what depends on a node starts.
pub open spec fn impact_start(pivot: Seq<char>) -> walk::Walk {
    walk::start_walk(pivot, seq![pivot], false)
}

/// Whether a walk against the edges from a pivot could end so: it follows every edge
/// and ends when it meets no new node.
pub open spec fn could_reach_back(
    db: rusqlite::Connection,
    pivot: Seq<char>,
    finish: walk::Walk,
) -> bool {
    walk::could_walk(
        db,
        walk::Course::Dependents,
        usize::MAX as int,
        usize::MAX as int,
        impact_start(pivot),
        finish,
    )
}

/// Whether a result is the one that affected symbols give: cut short when as many
/// came as were asked for.
pub open spec fn is_impact(
    r: ImpactResult,
    pivot_id: Seq<char>,
    affected: Seq<ImpactText>,
    max_rows: usize,
) -> bool {
    &&& r.pivot_id@ == pivot_id
    &&& impact_texts(r.affected@) == affected
    &&& r.truncated == (affected.len() >= max_rows)
}

/// Whether a result stands for an ambiguous name.
pub open spec fn is_ambiguous(r: ImpactResult, payload: Seq<char>) -> bool {
    &&& r.pivot_id@ == AMBIGUOUS@ + payload
    &&& r.affected.len() == 0
    &&& !r.truncated
}

/// Whether a database could lead to this result for a symbol.
pub open spec fn could_affect(
    db: rusqlite::Connection,
    symbol: Seq<char>,
    repo: Seq<char>,
    filepath: Option<Seq<char>>,
    max_rows: usize,
    r: ImpactResult,
) -> bool {
    ||| could_affect_as(db, symbol, repo, filepath, max_rows, true, r)
    ||| could_affect_as(db, symbol, repo, filepath, max_rows, false, r)
}

/// Whether a database could lead to this result for a symbol, whose name turns out to be
/// ambiguous or not.
pub open spec fn could_affect_as(
    db: rusqlite::Connection,
    symbol: Seq<char>,
    repo: Seq<char>,
    filepath: Option<Seq<char>>,
    max_rows: usize,
    ambiguous: bool,
    r: ImpactResult,
) -> bool {
    if ambiguous {
        exists|payload: Seq<char>|
            {
                &&& #[trigger] symbols::could_be_ambiguous(db, symbol, repo, filepath, payload)
                &&& is_ambiguous(r, payload)
            }
    } else {
        exists|node: symbols::NodeText, finish: walk::Walk, affected: Seq<ImpactText>|
            {
                &&& symbols::could_be_unique(db, symbol, repo, filepath, node)
                &&& #[trigger] could_reach_back(db, node.id, finish)
                &&& #[trigger] could_describe(db, finish.entries, max_rows, affected)
                &&& is_impact(r, node.id, affected, max_rows)
            }
    }
}

/// Whether a database could lead to this error for a symbol: nothing of that name is
/// there, or a statement was refused that finds the node, walks from it, or describes
/// what was met.
pub open spec fn could_not_affect(
    db: rusqlite::Connection,
    symbol: Seq<char>,
    repo: Seq<char>,
    filepath: Option<Seq<char>>,
    e: MarrowError,
) -> bool {
    match e {
        MarrowError::Message(m) => symbols::could_be_missing(db, symbol, repo, filepath, m@),
        MarrowError::Store(why) => {
            ||| symbols::could_not_look_up(db, symbol, repo, filepath, why)
            ||| exists|node: symbols::NodeText|
                {
                    &&& #[trigger] symbols::could_be_unique(db, symbol, repo, filepath, node)
                    &&& could_not_reach_back(db, node.id, why)
                }
        },
    }
}

/// Whether what depends on a pivot could stay unknown for this reason.
pub open spec fn could_not_reach_back(
    db: rusqlite::Connection,
    pivot: Seq<char>,
    why: rusqlite::Error,
) -> bool {
    ||| walk::could_break_off(
        db,
        walk::Course::Dependents,
        usize::MAX as int,
        usize::MAX as int,
        impact_start(pivot),
        why,
    )
    ||| exists|finish: walk::Walk|
        {
            &&& #[trigger] could_reach_back(db, pivot, finish)
            &&& could_not_describe(db, finish.entries, why)
        }
}

proof fn lemma_impacts_grow(
    entries: Seq<walk::EntryText>,
    answers: Seq<Seq<Result<Vec<store::Cell>, rusqlite::Error>>>,
    max_rows: usize,
    n: int,
    m: int,
)
    requires
        0 <= n <= m,
    ensures
        impacts_upto(entries, answers, max_rows, n).len() <= impacts_upto(
            entries,
            answers,
            max_rows,
            m,
        ).len(),
        forall|x: ImpactText|
            impacts_upto(entries, answers, max_rows, n).contains(x) ==> #[trigger] impacts_upto(
                entries,
                answers,
                max_rows,
                m,
            ).contains(x),
    decreases m - n,
{
    if n < m {
        lemma_impacts_grow(entries, answers, max_rows, n, m - 1);
        let a = impacts_upto(entries, answers, max_rows, m - 1);
        let b = impacts_upto(entries, answers, max_rows, m);
        assert forall|x: ImpactText| a.contains(x) implies #[trigger] b.contains(x) by {
            let k = choose|k: int| 0 <= k < a.len() && a[k] == x;
            assert(b[k] == x);
        }
    }
}

/// Whether an entry of a walk and what a database could answer of its node make up an
/// affected symbol, which is told where the database knows the node.
pub open spec fn could_tell(
    db: rusqlite::Connection,
    entry: walk::EntryText,
    told: Option<ImpactText>,
) -> bool {
    exists|answer: Seq<Result<Vec<store::Cell>, rusqlite::Error>>| #[trigger]
        could_detail(db, entry.node.id, answer) && told == first_impact(answer, entry)
}

/// Whether an entry stands for a node other than the pivot, at its distance from it.
pub open spec fn is_dependent(
    g: Map<Seq<char>, Seq<walk::EdgeText>>,
    pivot: Seq<char>,
    entry: walk::EntryText,
) -> bool {
    entry.node.id != pivot && reach::is_distance(
        g,
        seq![pivot],
        pivot,
        entry.node.id,
        entry.depth,
    )
}

/// Whether a list tells of everything that depends on a pivot in a graph, and of
/// nothing else: of every node other than the pivot from which the edges lead to it,
/// in however many steps a number can count, unless it is no node any more.
pub open spec fn is_whole(
    db: rusqlite::Connection,
    g: Map<Seq<char>, Seq<walk::EdgeText>>,
    pivot: Seq<char>,
    affected: Seq<ImpactText>,
) -> bool {
    &&& forall|t: Seq<char>|
        t != pivot && #[trigger] reach::within(g, seq![pivot], pivot, t, usize::MAX as int)
            ==> is_covered(db, g, pivot, affected, t)
    &&& forall|i: int|
        0 <= i < affected.len() ==> is_owed(db, g, pivot, #[trigger] affected[i])
}

/// Whether a list tells of a node that depends on a pivot, where the database knows it.
pub open spec fn is_covered(
    db: rusqlite::Connection,
    g: Map<Seq<char>, Seq<walk::EdgeText>>,
    pivot: Seq<char>,
    affected: Seq<ImpactText>,
    t: Seq<char>,
) -> bool {
    exists|entry: walk::EntryText, told: Option<ImpactText>|
        {
            &&& entry.node.id == t
            &&& is_dependent(g, pivot, entry)
            &&& #[trigger] could_tell(db, entry, told)
            &&& told matches Some(x) ==> affected.contains(x)
        }
}

/// Whether an affected symbol is what the database could tell of the node with its
/// identity, and that node depends on a pivot.
pub open spec fn is_owed(
    db: rusqlite::Connection,
    g: Map<Seq<char>, Seq<walk::EdgeText>>,
    pivot: Seq<char>,
    x: ImpactText,
) -> bool {
    exists|entry: walk::EntryText|
        entry.node.id == x.id && is_dependent(g, pivot, entry) && #[trigger] could_tell(
            db,
            entry,
            Some(x),
        )
}

proof fn lemma_impacts_come_from_entries(
    entries: Seq<walk::EntryText>,
    answers: Seq<Seq<Result<Vec<store::Cell>, rusqlite::Error>>>,
    max_rows: usize,
    n: int,
    x: ImpactText,
) -> (i: int)
    requires
        impacts_upto(entries, answers, max_rows, n).contains(x),
    ensures
        0 <= i < n,
        !entries[i].already_seen,
        impacts_upto(entries, answers, max_rows, i).len() < max_rows,
        first_impact(answers[i], entries[i]) == Some(x),
    decreases n,
{
    let all = impacts_upto(entries, answers, max_rows, n);
    let k = choose|k: int| 0 <= k < all.len() && all[k] == x;
    let head = impacts_upto(entries, answers, max_rows, n - 1);
    if k < head.len() {
        assert(head[k] == x);
        lemma_impacts_come_from_entries(entries, answers, max_rows, n - 1, x)
    } else {
        n - 1
    }
}

/// An impact that is not cut short tells of everything that depends on the pivot, at
/// any number of steps and in any repository, and of nothing else.
pub proof fn law_impacts_are_whole(
    db: rusqlite::Connection,
    pivot: Seq<char>,
    finish: walk::Walk,
    max_rows: usize,
    affected: Seq<ImpactText>,
)
    requires
        could_reach_back(db, pivot, finish),
        !finish.truncated,
        could_describe(db, finish.entries, max_rows, affected),
        affected.len() < max_rows,
    ensures
        exists|g: Map<Seq<char>, Seq<walk::EdgeText>>| #[trigger]
            reach::could_hold(db, walk::Course::Dependents, g) && is_whole(
                db,
                g,
                pivot,
                affected,
            ),
{
    assert(seq![pivot].contains(pivot)) by {
        assert(seq![pivot][0] == pivot);
    }
    reach::law_walks_show_the_graph(
        db,
        walk::Course::Dependents,
        seq![pivot],
        pivot,
        usize::MAX as int,
        usize::MAX as int,
        finish,
    );
    let g = choose|g: Map<Seq<char>, Seq<walk::EdgeText>>| #[trigger]
        reach::could_hold(db, walk::Course::Dependents, g) && reach::shows(
            g,
            seq![pivot],
            pivot,
            usize::MAX as int,
            finish,
        );
    let entries = finish.entries;
    let found = reach::firsts(entries);
    let answers = choose|answers: Seq<Seq<Result<Vec<store::Cell>, rusqlite::Error>>>|
        {
            &&& answers.len() == entries.len()
            &&& forall|i: int|
                0 <= i < entries.len() && !entries[i].already_seen && impacts_upto(
                    entries,
                    answers,
                    max_rows,
                    i,
                ).len() < max_rows ==> could_detail(db, entries[i].node.id, #[trigger] answers[i])
            &&& affected == #[trigger] impacts_upto(
                entries,
                answers,
                max_rows,
                entries.len() as int,
            )
        };
    let all = entries.len() as int;
    assert forall|t: Seq<char>|
        t != pivot && #[trigger] reach::within(
            g,
            seq![pivot],
            pivot,
            t,
            usize::MAX as int,
        ) implies is_covered(db, g, pivot, affected, t) by {
        let j = choose|j: int| 0 <= j < found.len() && (#[trigger] found[j]).node.id == t;
        let i = reach::lemma_first_is_entry(entries, j);
        let entry = entries[i];
        let told = first_impact(answers[i], entry);
        lemma_impacts_grow(entries, answers, max_rows, i, all);
        lemma_impacts_grow(entries, answers, max_rows, i + 1, all);
        assert(could_detail(db, entry.node.id, answers[i]));
        assert(could_tell(db, entry, told));
        if told is Some {
            let here = impacts_upto(entries, answers, max_rows, i + 1);
            assert(here.last() == told->Some_0);
            assert(here.contains(told->Some_0));
        }
    }
    assert forall|i: int| 0 <= i < affected.len() implies is_owed(
        db,
        g,
        pivot,
        #[trigger] affected[i],
    ) by {
        assert(affected.contains(affected[i]));
        let k = lemma_impacts_come_from_entries(entries, answers, max_rows, all, affected[i]);
        let j = reach::lemma_unseen_is_first(entries, k);
        assert(!seq![pivot].contains(found[j].node.id));
        assert(found[j].node.id != pivot);
        assert(could_detail(db, entries[k].node.id, answers[k]));
        assert(could_tell(db, entries[k], Some(affected[i])));
        assert(is_dependent(g, pivot, entries[k]));
    }
}

/// Of a list that is cut short, the front is told: with fewer rows asked for, the answer
/// is the beginning of the one with more.
pub proof fn law_shorter_impacts_are_beginnings(
    entries: Seq<walk::EntryText>,
    answers: Seq<Seq<Result<Vec<store::Cell>, rusqlite::Error>>>,
    fewer: usize,
    more: usize,
    n: int,
)
    requires
        fewer <= more,
    ensures
        ({
            let a = impacts_upto(entries, answers, fewer, n);
            let b = impacts_upto(entries, answers, more, n);
            &&& a.len() <= fewer
            &&& a.is_prefix_of(b)
            &&& b.len() <= fewer ==> a == b
            &&& b.len() > fewer ==> a.len() == fewer
        }),
    decreases n,
{
    if n > 0 {
        law_shorter_impacts_are_beginnings(entries, answers, fewer, more, n - 1);
    }
}

/// What is told of an affected symbol: its name, kind, file and repository as the first
/// row of the database's answer about it gives them, with the edge that led to it and how
/// far away it is.
pub proof fn law_affected_symbols_are_described_by_the_database(
    db: rusqlite::Connection,
    entry: walk::EntryText,
    x: ImpactText,
)
    requires
        could_tell(db, entry, Some(x)),
    ensures
        x.id == entry.node.id,
        x.relationship_type == entry.relationship,
        entry.depth <= i64::MAX ==> x.depth == entry.depth,
        exists|answer: Seq<Result<Vec<store::Cell>, rusqlite::Error>>|
            {
                &&& #[trigger] store::could_yield(
                    db,
                    "SELECT symbol_name, symbol_type, file_path, repo_id FROM nodes WHERE id = ?1"@,
                    seq![store::Bound::Text(x.id)],
                    Ok(answer),
                )
                &&& answer.len() > 0
                &&& answer[0] matches Ok(row) && {
                    &&& row@.len() >= 4
                    &&& row@[0] matches store::Cell::Text(t) && t@ == x.symbol_name
                    &&& row@[1] matches store::Cell::Text(t) && t@ == x.symbol_type
                    &&& row@[2] matches store::Cell::Text(t) && t@ == x.file_path
                    &&& row@[3] matches store::Cell::Text(t) && t@ == x.repo_id
                }
            },
{
    let answer = choose|answer: Seq<Result<Vec<store::Cell>, rusqlite::Error>>| #[trigger]
        could_detail(db, entry.node.id, answer) && Some(x) == first_impact(answer, entry);
    assert(store::could_yield(
        db,
        "SELECT symbol_name, symbol_type, file_path, repo_id FROM nodes WHERE id = ?1"@,
        seq![store::Bound::Text(x.id)],
        Ok(answer),
    ));
}

/// The impact of a name that one node has is counted from that node: it tells what the
/// database could describe of what a walk against all edges met, at most as many as are
/// asked for, and says that it was cut short exactly when that many came.
pub proof fn law_impacts_are_counted_from_the_symbol(
    db: rusqlite::Connection,
    symbol: Seq<char>,
    repo: Seq<char>,
    filepath: Option<Seq<char>>,
    max_rows: usize,
    r: ImpactResult,
)
    requires
        could_affect_as(db, symbol, repo, filepath, max_rows, false, r),
    ensures
        r.affected@.len() <= max_rows,
        r.truncated <==> r.affected@.len() == max_rows,
        exists|node: symbols::NodeText, finish: walk::Walk|
            {
                &&& symbols::could_match(db, symbol, repo, filepath, seq![node])
                &&& r.pivot_id@ == node.id
                &&& #[trigger] walk::could_walk(
                    db,
                    walk::Course::Dependents,
                    usize::MAX as int,
                    usize::MAX as int,
                    walk::start_walk(node.id, seq![node.id], false),
                    finish,
                )
                &&& could_describe(db, finish.entries, max_rows, impact_texts(r.affected@))
            },
{
    let (node, finish, affected) = choose|
        node: symbols::NodeText,
        finish: walk::Walk,
        affected: Seq<ImpactText>,
    |
        {
            &&& symbols::could_be_unique(db, symbol, repo, filepath, node)
            &&& #[trigger] could_reach_back(db, node.id, finish)
            &&& #[trigger] could_describe(db, finish.entries, max_rows, affected)
            &&& is_impact(r, node.id, affected, max_rows)
        };
    let answers = choose|answers: Seq<Seq<Result<Vec<store::Cell>, rusqlite::Error>>>|
        affected == #[trigger] impacts_upto(
            finish.entries,
            answers,
            max_rows,
            finish.entries.len() as int,
        );
    law_shorter_impacts_are_beginnings(
        finish.entries,
        answers,
        max_rows,
        max_rows,
        finish.entries.len() as int,
    );
    assert(impact_texts(r.affected@).len() == r.affected@.len());
    assert(walk::could_walk(
        db,
        walk::Course::Dependents,
        usize::MAX as int,
        usize::MAX as int,
        walk::start_walk(node.id, seq![node.id], false),
        finish,
    ));
}

/// Whether one entry may stand before another: it is of another node, and no deeper.
spec fn in_order(a: walk::EntryText, b: walk::EntryText) -> bool {
    a.node.id != b.node.id && a.depth <= b.depth
}

proof fn lemma_unseen_in_order(entries: Seq<walk::EntryText>, i: int, j: int)
    requires
        0 <= i < j < entries.len(),
        !entries[i].already_seen,
        !entries[j].already_seen,
        forall|a: int, b: int|
            0 <= a < b < reach::firsts(entries).len() ==> in_order(
                #[trigger] reach::firsts(entries)[a],
                #[trigger] reach::firsts(entries)[b],
            ),
    ensures
        in_order(entries[i], entries[j]),
    decreases entries.len(),
{
    let front = entries.drop_last();
    let found = reach::firsts(entries);
    let fewer = reach::firsts(front);
    assert(front[i] == entries[i]);
    if j == entries.len() - 1 {
        let a = reach::lemma_unseen_is_first(front, i);
        assert(found[a] == fewer[a]);
        assert(found[fewer.len() as int] == entries[j]);
    } else {
        assert(front[j] == entries[j]);
        assert forall|a: int, b: int| 0 <= a < b < fewer.len() implies in_order(
            #[trigger] fewer[a],
            #[trigger] fewer[b],
        ) by {
            assert(found[a] == fewer[a] && found[b] == fewer[b]);
        }
        lemma_unseen_in_order(front, i, j);
    }
}

proof fn lemma_impacts_in_order(
    entries: Seq<walk::EntryText>,
    answers: Seq<Seq<Result<Vec<store::Cell>, rusqlite::Error>>>,
    max_rows: usize,
    n: int,
)
    requires
        0 <= n <= entries.len(),
        forall|a: int, b: int|
            0 <= a < b < reach::firsts(entries).len() ==> in_order(
                #[trigger] reach::firsts(entries)[a],
                #[trigger] reach::firsts(entries)[b],
            ),
    ensures
        ({
            let told = impacts_upto(entries, answers, max_rows, n);
            forall|a: int, b: int|
                0 <= a < b < told.len() ==> (#[trigger] told[a]).id != (#[trigger] told[b]).id
                    && told[a].depth <= told[b].depth
        }),
    decreases n,
{
    if n > 0 {
        lemma_impacts_in_order(entries, answers, max_rows, n - 1);
        let head = impacts_upto(entries, answers, max_rows, n - 1);
        let told = impacts_upto(entries, answers, max_rows, n);
        assert forall|a: int, b: int| 0 <= a < b < told.len() implies (#[trigger] told[a]).id
            != (#[trigger] told[b]).id && told[a].depth <= told[b].depth by {
            if b < head.len() {
                assert(told[a] == head[a] && told[b] == head[b]);
            } else {
                assert(head.contains(head[a]));
                let k = lemma_impacts_come_from_entries(
                    entries,
                    answers,
                    max_rows,
                    n - 1,
                    head[a],
                );
                lemma_unseen_in_order(entries, k, n - 1);
            }
        }
    }
}

/// Every dependent is told once, the nearer ones before the others.
pub proof fn law_impacts_are_in_order(
    db: rusqlite::Connection,
    pivot: Seq<char>,
    finish: walk::Walk,
    max_rows: usize,
    affected: Seq<ImpactText>,
)
    requires
        could_reach_back(db, pivot, finish),
        !finish.truncated,
        could_describe(db, finish.entries, max_rows, affected),
    ensures
        forall|a: int, b: int|
            0 <= a < b < affected.len() ==> (#[trigger] affected[a]).id != (
            #[trigger] affected[b]).id && affected[a].depth <= affected[b].depth,
{
    assert(seq![pivot].contains(pivot)) by {
        assert(seq![pivot][0] == pivot);
    }
    reach::law_walks_show_the_graph(
        db,
        walk::Course::Dependents,
        seq![pivot],
        pivot,
        usize::MAX as int,
        usize::MAX as int,
        finish,
    );
    let entries = finish.entries;
    let answers = choose|answers: Seq<Seq<Result<Vec<store::Cell>, rusqlite::Error>>>|
        {
            &&& answers.len() == entries.len()
            &&& forall|i: int|
                0 <= i < entries.len() && !entries[i].already_seen && impacts_upto(
                    entries,
                    answers,
                    max_rows,
                    i,
                ).len() < max_rows ==> could_detail(db, entries[i].node.id, #[trigger] answers[i])
            &&& affected == #[trigger] impacts_upto(
                entries,
                answers,
                max_rows,
                entries.len() as int,
            )
        };
    lemma_impacts_in_order(entries, answers, max_rows, entries.len() as int);
}

/// Finds everything that depends on a symbol, directly or not. For an ambiguous name
/// the pivot's identity is the list of candidates behind a mark.
pub fn analyze_impact(
    conn: &rusqlite::Connection,
    symbol_name: &str,
    repo_id: &str,
    filepath: Option<&str>,
    limits: &Settings,
) -> (r: Result<ImpactResult, MarrowError>)
    ensures
        match r {
            Ok(result) => could_affect(
                *conn,
                symbol_name@,
                repo_id@,
                text::opt_str(filepath),
                limits.impact_max_rows,
                result,
            ),
            Err(e) => could_not_affect(
                *conn,
                symbol_name@,
                repo_id@,
                text::opt_str(filepath),
                e,
            ),
        },
{
    match affected_by(conn, symbol_name, repo_id, filepath, limits) {
        Ok((result, _)) => Ok(result),
        Err(e) => Err(e),
    }
}

/// What depends on a symbol as [`analyze_impact`] gives it, and whether the name was
/// ambiguous.
pub fn affected_by(
    conn: &rusqlite::Connection,
    symbol_name: &str,
    repo_id: &str,
    filepath: Option<&str>,
    limits: &Settings,
) -> (r: Result<(ImpactResult, bool), MarrowError>)
    ensures
        match r {
            Ok((result, ambiguous)) => could_affect_as(
                *conn,
                symbol_name@,
                repo_id@,
                text::opt_str(filepath),
                limits.impact_max_rows,
                ambiguous,
                result,
            ),
            Err(e) => could_not_affect(
                *conn,
                symbol_name@,
                repo_id@,
                text::opt_str(filepath),
                e,
            ),
        },
{
    let ghost path = text::opt_str(filepath);
    match resolve_symbol_or_disambiguate(conn, symbol_name, repo_id, filepath) {
        Ok(SymbolResolution::Unique(node)) => {
            let max_rows = limits.impact_max_rows;
            let ghost found = node@;
            assert(symbols::could_be_unique(*conn, symbol_name@, repo_id@, path, found));
            let mut visited: Vec<String> = Vec::new();
            visited.push(node.id.clone());
            assert(text::texts(visited@) =~= seq![found.id]);
            let mut truncated = false;
            let met = match traverse(
                conn,
                &node.id,
                Course::Dependents,
                usize::MAX,
                usize::MAX,
                &mut visited,
                &mut truncated,
            ) {
                Ok(met) => met,
                Err(e) => {
                    return Err(e);
                },
            };
            let ghost finish = choose|finish: walk::Walk|
                {
                    &&& #[trigger] walk::could_walk(
                        *conn,
                        walk::Course::Dependents,
                        usize::MAX as int,
                        usize::MAX as int,
                        impact_start(found.id),
                        finish,
                    )
                    &&& walk::entry_texts(met.entries@) == finish.entries
                };
            assert(could_reach_back(*conn, found.id, finish));
            let affected = match describe(conn, &met.entries, max_rows) {
                Ok(affected) => affected,
                Err(e) => {
                    return Err(e);
                },
            };
            let cut = affected.len() >= max_rows;
            let ghost told = impact_texts(affected@);
            assert(told.len() == affected.len());
            let result = ImpactResult { pivot_id: node.id, affected, truncated: cut };
            assert(could_describe(*conn, finish.entries, max_rows, told));
            assert(is_impact(result, found.id, told, max_rows));
            Ok((result, false))
        },
        Ok(SymbolResolution::Ambiguous(payload)) => {
            let result = ImpactResult {
                pivot_id: AMBIGUOUS.to_owned().concat(&payload),
                affected: Vec::new(),
                truncated: false,
            };
            assert(symbols::could_be_ambiguous(*conn, symbol_name@, repo_id@, path, payload@));
            Ok((result, true))
        },
        Err(e) => Err(e),
    }
}

/// The row of an affected symbol, in columns.
pub open spec fn impact_row(n: ImpactText) -> Seq<char> {
    text::padded_left(text::signed_decimal(n.depth), 5) + "  "@ + text::padded_left(
        n.relationship_type,
        10,
    ) + "  "@ + text::padded_right(n.symbol_name, 20) + "  "@ + text::padded_right(
        n.symbol_type,
        10,
    ) + "  "@ + text::padded_right(n.repo_id, 14) + "  "@ + n.file_path + "\n"@
}

/// `start` followed by the rows of the first `n` affected symbols.
pub open spec fn impact_rows(start: Seq<char>, all: Seq<ImpactText>, n: int) -> Seq<char>
    decreases n,
{
    if n <= 0 {
        start
    } else {
        impact_rows(start, all, n - 1) + impact_row(all[n - 1])
    }
}

/// The line above the rows.
pub const IMPACT_COLUMNS: &'static str =
    "DEPTH    REL_TYPE  SYMBOL                SYM_TYPE    REPO            FILE\n";

/// What is said of the affected symbols of a pivot.
pub open spec fn impact_table(
    pivot_id: Seq<char>,
    affected: Seq<ImpactText>,
    truncated: bool,
    max_rows: usize,
) -> Seq<char> {
    let start = "IMPACT ANALYSIS — pivot id: "@ + pivot_id + "\n"@;
    if affected.len() == 0 {
        start
            + "No downstream dependents found. Symbol is safe to change in isolation.\n"@
    } else {
        let rows = impact_rows(
            start + IMPACT_COLUMNS@ + text::repeated("─"@, 80) + "\n"@,
            affected,
            affected.len() as int,
        ) + "\n"@ + text::decimal(affected.len()) + " node(s) affected.\n"@;
        if truncated {
            rows + "\n[Note: impact list truncated at MARROW_IMPACT_MAX_ROWS ("@ + text::decimal(
                max_rows as nat,
            ) + "); raise for more rows.]\n"@
        } else {
            rows
        }
    }
}

/// What is said of an impact result: the list of candidates for an ambiguous name,
/// else the affected symbols.
pub open spec fn impact_text(r: ImpactResult, max_rows: usize) -> Seq<char> {
    match scan::after_prefix(r.pivot_id@, AMBIGUOUS@) {
        Some(payload) => payload,
        None => impact_table(r.pivot_id@, impact_texts(r.affected@), r.truncated, max_rows),
    }
}

proof fn lemma_impact_rows(
    start: Seq<char>,
    v: Seq<ImpactNode>,
    n: int,
    row: spec_fn(ImpactNode) -> Seq<char>,
)
    requires
        0 <= n <= v.len(),
        forall|x: ImpactNode| #[trigger] row(x) == impact_row(x@),
    ensures
        impact_rows(start, impact_texts(v), n) == start + v.take(n).flat_map(row),
    decreases n,
{
    if n > 0 {
        lemma_impact_rows(start, v, n - 1, row);
        v.lemma_flat_map_take_append(row, n - 1);
        text::lemma_put_together(start, v.take(n - 1).flat_map(row), row(v[n - 1]));
    } else {
        assert(v.take(0).flat_map(row) =~= Seq::empty());
        text::lemma_put_together(start, start, start);
    }
}

/// The table of an impact has one row for every affected symbol, in their order and
/// whatever their depth: its depth, relationship, name, kind, repository and file. Their
/// number follows, and the note of a list that was cut short; where nothing is affected,
/// that is said instead.
pub proof fn law_impact_tables_have_a_row_for_each(r: ImpactResult, max_rows: usize)
    requires
        !"DISAMBIGUATION:"@.is_prefix_of(r.pivot_id@),
    ensures
        r.affected@.len() == 0 ==> impact_text(r, max_rows) == "IMPACT ANALYSIS — pivot id: "@
            + r.pivot_id@ + "\n"@
            + "No downstream dependents found. Symbol is safe to change in isolation.\n"@,
        r.affected@.len() > 0 ==> impact_text(r, max_rows) == "IMPACT ANALYSIS — pivot id: "@
            + r.pivot_id@ + "\n"@
            + "DEPTH    REL_TYPE  SYMBOL                SYM_TYPE    REPO            FILE\n"@
            + text::repeated("─"@, 80) + "\n"@ + r.affected@.flat_map(
            |n: ImpactNode|
                text::padded_left(text::signed_decimal(n.depth as int), 5) + "  "@
                    + text::padded_left(n.relationship_type@, 10) + "  "@ + text::padded_right(
                    n.symbol_name@,
                    20,
                ) + "  "@ + text::padded_right(n.symbol_type@, 10) + "  "@ + text::padded_right(
                    n.repo_id@,
                    14,
                ) + "  "@ + n.file_path@ + "\n"@,
        ) + "\n"@ + text::decimal(r.affected@.len()) + " node(s) affected.\n"@ + (
        if r.truncated {
            "\n[Note: impact list truncated at MARROW_IMPACT_MAX_ROWS ("@ + text::decimal(
                max_rows as nat,
            ) + "); raise for more rows.]\n"@
        } else {
            Seq::empty()
        }),
{
    let row = |n: ImpactNode|
        text::padded_left(text::signed_decimal(n.depth as int), 5) + "  "@ + text::padded_left(
            n.relationship_type@,
            10,
        ) + "  "@ + text::padded_right(n.symbol_name@, 20) + "  "@ + text::padded_right(
            n.symbol_type@,
            10,
        ) + "  "@ + text::padded_right(n.repo_id@, 14) + "  "@ + n.file_path@ + "\n"@;
    let v = r.affected@;
    let part = "DISAMBIGUATION:"@;
    if scan::begins(r.pivot_id@, part) {
        assert(part.is_prefix_of(r.pivot_id@));
    }
    let start = "IMPACT ANALYSIS — pivot id: "@ + r.pivot_id@ + "\n"@ + IMPACT_COLUMNS@
        + text::repeated("─"@, 80) + "\n"@;
    lemma_impact_rows(start, v, v.len() as int, row);
    assert(v.take(v.len() as int) =~= v);
    assert(impact_texts(v).len() == v.len());
    let rows = start + v.flat_map(row) + "\n"@ + text::decimal(v.len()) + " node(s) affected.\n"@;
    let note = "\n[Note: impact list truncated at MARROW_IMPACT_MAX_ROWS ("@;
    let most = text::decimal(max_rows as nat);
    text::lemma_put_together(rows, note, most);
    text::lemma_put_together(rows, note + most, "); raise for more rows.]\n"@);
}

/// The answer to an ambiguous name is the list of candidates, as it is.
pub proof fn law_ambiguity_is_handed_on(r: ImpactResult, payload: Seq<char>, max_rows: usize)
    requires
        is_ambiguous(r, payload),
    ensures
        impact_text(r, max_rows) == payload,
{
    let n = AMBIGUOUS@.len() as int;
    assert(r.pivot_id@.subrange(0, n) =~= AMBIGUOUS@);
    assert(r.pivot_id@.skip(n) =~= payload);
}

/// What is said of an impact result.
pub fn format_impact_result(result: &ImpactResult, max_rows: usize) -> (r: String)
    ensures
        r@ == impact_text(*result, max_rows),
{
    match strip_prefix(&result.pivot_id, AMBIGUOUS) {
        Some(payload) => {
            return payload;
        },
        None => {},
    }
    let ghost all = impact_texts(result.affected@);
    let mut out = "IMPACT ANALYSIS — pivot id: ".to_owned().concat(&result.pivot_id).concat("\n");
    if result.affected.len() == 0 {
        out.append("No downstream dependents found. Symbol is safe to change in isolation.\n");
        return out;
    }
    out.append(IMPACT_COLUMNS);
    out.append(&repeat("─", 80));
    out.append("\n");
    let ghost start = out@;
    let mut i: usize = 0;
    while i < result.affected.len()
        invariant
            i <= result.affected.len(),
            all == impact_texts(result.affected@),
            out@ == impact_rows(start, all, i as int),
        decreases result.affected.len() - i,
    {
        let n = &result.affected[i];
        assert(all[i as int] == n@);
        let row = pad_left(&signed_text(n.depth), 5).concat("  ").concat(
            &pad_left(&n.relationship_type, 10),
        ).concat("  ").concat(&pad_right(&n.symbol_name, 20)).concat("  ").concat(
            &pad_right(&n.symbol_type, 10),
        ).concat("  ").concat(&pad_right(&n.repo_id, 14)).concat("  ").concat(
            &n.file_path,
        ).concat("\n");
        out.append(&row);
        i += 1;
    }
    out.append("\n");
    out.append(&count_text(result.affected.len()));
    out.append(" node(s) affected.\n");
    if result.truncated {
        out.append("\n[Note: impact list truncated at MARROW_IMPACT_MAX_ROWS (");
        out.append(&count_text(max_rows));
        out.append("); raise for more rows.]\n");
    }
    out
}

} // verus!
