//! Following a workspace: which files are looked at again, and what is put in the graph
//! for them.
use crate::paths;
use crate::paths::{components_of, extension, is_within};
use crate::store;
use crate::store::{bind_two, Changes, Param};
use crate::text;
use crate::text::{join, same};
use vstd::prelude::*;
use vstd::string::*;

verus! {

/// How long a file must lie still before it is looked at again, unless something else
/// is set.
pub const WATCH_DEBOUNCE_MS: u64 = 500;

/// The extensions of the files that are followed.
pub open spec fn watched_extensions() -> Seq<Seq<char>> {
    seq![
        "cpp"@,
        "cc"@,
        "cxx"@,
        "h"@,
        "hpp"@,
        "py"@,
        "ts"@,
        "tsx"@,
        "rs"@,
        "rb"@,
    ]
}

/// Whether a file is followed.
pub fn is_watched(path: &str) -> (r: bool)
    ensures
        r == (paths::extension_of(path@) matches Some(e) && watched_extensions().contains(e)),
{
    let e: String = match extension(path) {
        Some(e) => e,
        None => {
            return false;
        },
    };
    let all: [&str; 10] = ["cpp", "cc", "cxx", "h", "hpp", "py", "ts", "tsx", "rs", "rb"];
    let ghost known = watched_extensions();
    let mut i: usize = 0;
    while i < 10
        invariant
            i <= 10,
            all@.len() == 10,
            known == watched_extensions(),
            known.len() == 10,
            forall|k: int| 0 <= k < 10 ==> (#[trigger] all@[k])@ == known[k],
            forall|k: int| 0 <= k < i ==> known[k] != e@,
            paths::extension_of(path@) == Some(e@),
        decreases 10 - i,
    {
        if same(all[i], &e) {
            assert(known[i as int] == e@);
            return true;
        }
        assert(all@[i as int]@ == known[i as int]);
        i += 1;
    }
    false
}

/// The path of a file below a root, by its components; the path itself where it is not
/// below.
pub open spec fn path_below(path: Seq<char>, root: Seq<char>) -> Seq<char> {
    if paths::lies_within(path, root) {
        text::joined(
            paths::components(path).skip(paths::components(root).len() as int),
            "/"@,
        )
    } else {
        path
    }
}

/// Below its root a path is what its components add to the root's, with slashes between
/// them; a path that is not below it is told as it is.
pub proof fn law_paths_are_told_below_their_root(path: Seq<char>, root: Seq<char>)
    ensures
        !paths::lies_within(path, root) ==> path_below(path, root) == path,
        paths::lies_within(path, root) ==> exists|names: Seq<Seq<char>>|
            paths::components(path) == #[trigger] (paths::components(root) + names) && path_below(
                path,
                root,
            ) == text::joined(names, "/"@),
{
    if paths::lies_within(path, root) {
        let base = paths::components(root);
        let names = paths::components(path).skip(base.len() as int);
        assert(paths::components(path) =~= base + names);
    }
}

/// The path of a file below a root.
pub fn relative_path(path: &str, root: &str) -> (r: String)
    ensures
        r@ == path_below(path@, root@),
{
    if !is_within(path, root) {
        return path.to_owned();
    }
    let all = components_of(path);
    let outer = components_of(root);
    let ghost inner = paths::components(path@);
    let from = outer.len();
    assert(from == paths::components(root@).len());
    assert(all.len() == inner.len());
    let mut rest: Vec<String> = Vec::new();
    let mut i: usize = from;
    assert(text::texts(rest@) =~= inner.subrange(from as int, from as int));
    while i < all.len()
        invariant
            from <= i <= all.len(),
            all.len() == inner.len(),
            inner == text::texts(all@),
            text::texts(rest@) == inner.subrange(from as int, i as int),
        decreases all.len() - i,
    {
        let one = all[i].clone();
        let ghost before = rest@;
        rest.push(one);
        proof {
            text::lemma_texts_push(before, one);
            assert(inner[i as int] == one@);
            assert(inner.subrange(from as int, i as int).push(one@) =~= inner.subrange(
                from as int,
                i + 1,
            ));
        }
        i += 1;
    }
    assert(inner.subrange(from as int, inner.len() as int) =~= inner.skip(from as int));
    join(&rest, "/")
}

/// A symbol that was found in a file.
#[derive(Clone, Debug, PartialEq, Eq)]
pub struct ParsedSymbol {
    pub name: String,
    pub symbol_type: String,
    pub raw_text: String,
}

pub const FORGET_FILE: &'static str = "DELETE FROM nodes WHERE repo_id = ?1 AND file_path = ?2";

pub const KEEP_NODE: &'static str =
    "INSERT OR REPLACE INTO nodes (id, repo_id, file_path, language, symbol_name, symbol_type, raw_text) VALUES (?1, ?2, ?3, ?4, ?5, ?6, ?7)";

/// The id of a symbol's node.
pub open spec fn node_id_text(repo_id: Seq<char>, rel: Seq<char>, name: Seq<char>) -> Seq<char> {
    repo_id + ":"@ + rel + ":"@ + name
}

/// The id of a symbol's node.
pub fn node_id(repo_id: &str, rel: &str, name: &str) -> (r: String)
    ensures
        r@ == node_id_text(repo_id@, rel@, name@),
{
    repo_id.to_owned().concat(":").concat(rel).concat(":").concat(name)
}

/// What is kept of a symbol.
pub open spec fn node_bounds(
    repo_id: Seq<char>,
    rel: Seq<char>,
    language: Seq<char>,
    symbol: ParsedSymbol,
) -> Seq<store::Bound> {
    seq![
        store::Bound::Text(node_id_text(repo_id, rel, symbol.name@)),
        store::Bound::Text(repo_id),
        store::Bound::Text(rel),
        store::Bound::Text(language),
        store::Bound::Text(symbol.name@),
        store::Bound::Text(symbol.symbol_type@),
        store::Bound::Text(symbol.raw_text@),
    ]
}

fn bind_node(repo_id: &str, rel: &str, language: &str, symbol: &ParsedSymbol) -> (r: Vec<Param>)
    ensures
        store::bounds(r@) == node_bounds(repo_id@, rel@, language@, *symbol),
{
    let out = vec![
        Param::Text(node_id(repo_id, rel, &symbol.name)),
        Param::Text(repo_id.to_owned()),
        Param::Text(rel.to_owned()),
        Param::Text(language.to_owned()),
        Param::Text(symbol.name.clone()),
        Param::Text(symbol.symbol_type.clone()),
        Param::Text(symbol.raw_text.clone()),
    ];
    assert(store::bounds(out@) =~= node_bounds(repo_id@, rel@, language@, *symbol));
    out
}

/// What is asked of a graph to put the symbols of a file in the place of those that it
/// holds: first these are forgotten, then each of the others is kept, in order.
pub open spec fn replacement(
    repo_id: Seq<char>,
    rel: Seq<char>,
    language: Seq<char>,
    symbols: Seq<ParsedSymbol>,
    forgotten: Option<usize>,
    kept: Seq<Option<usize>>,
) -> Seq<store::Asked> {
    seq![
        store::Asked {
            sql: FORGET_FILE@,
            params: store::two_texts(repo_id, rel),
            changed: forgotten,
        },
    ] + kept_nodes(repo_id, rel, language, symbols, kept)
}

/// What is asked of a graph to keep symbols of a file, in order.
pub open spec fn kept_nodes(
    repo_id: Seq<char>,
    rel: Seq<char>,
    language: Seq<char>,
    symbols: Seq<ParsedSymbol>,
    kept: Seq<Option<usize>>,
) -> Seq<store::Asked> {
    Seq::new(
        kept.len(),
        |i: int|
            store::Asked {
                sql: KEEP_NODE@,
                params: node_bounds(repo_id, rel, language, symbols[i]),
                changed: kept[i],
            },
    )
}

/// Puts the symbols of a file in the place of those that the graph holds for it. The
/// result says for each symbol how many rows were changed, or nothing where the graph
/// could not be changed, which stops nothing.
pub fn replace_file_nodes(
    changes: &mut Changes,
    repo_id: &str,
    rel: &str,
    language: &str,
    symbols: &Vec<ParsedSymbol>,
) -> (r: (Option<usize>, Vec<Option<usize>>))
    ensures
        final(changes).database() == old(changes).database(),
        r.1.len() == symbols.len(),
        final(changes).asked() == old(changes).asked() + replacement(
            repo_id@,
            rel@,
            language@,
            symbols@,
            r.0,
            r.1@,
        ),
        store::could_run(
            old(changes).database(),
            FORGET_FILE@,
            store::two_texts(repo_id@, rel@),
            r.0,
        ),
        forall|i: int|
            0 <= i < r.1.len() ==> store::could_run(
                old(changes).database(),
                KEEP_NODE@,
                node_bounds(repo_id@, rel@, language@, symbols@[i]),
                #[trigger] r.1@[i],
            ),
{
    let ghost db = changes.database();
    let ghost start = changes.asked();
    let forgotten: Option<usize> = changes.run(FORGET_FILE, bind_two(repo_id, rel));
    let mut out: Vec<Option<usize>> = Vec::new();
    let mut i: usize = 0;
    assert(changes.asked() =~= start + replacement(
        repo_id@,
        rel@,
        language@,
        symbols@,
        forgotten,
        out@,
    ));
    while i < symbols.len()
        invariant
            i <= symbols.len(),
            out.len() == i,
            changes.database() == db,
            changes.asked() == start + replacement(
                repo_id@,
                rel@,
                language@,
                symbols@,
                forgotten,
                out@,
            ),
            forall|k: int|
                0 <= k < i ==> store::could_run(
                    db,
                    KEEP_NODE@,
                    node_bounds(repo_id@, rel@, language@, symbols@[k]),
                    #[trigger] out@[k],
                ),
        decreases symbols.len() - i,
    {
        let ghost before = out@;
        let kept: Option<usize> = changes.run(
            KEEP_NODE,
            bind_node(repo_id, rel, language, &symbols[i]),
        );
        out.push(kept);
        assert(kept_nodes(repo_id@, rel@, language@, symbols@, out@) =~= kept_nodes(
            repo_id@,
            rel@,
            language@,
            symbols@,
            before,
        ).push(changes.asked().last()));
        assert(changes.asked() =~= start + replacement(
            repo_id@,
            rel@,
            language@,
            symbols@,
            forgotten,
            out@,
        ));
        i += 1;
    }
    (forgotten, out)
}

/// What a file's symbols replace is forgotten before the first of them is kept: in the
/// order of what is asked, forgetting comes first and nothing is forgotten after it.
pub proof fn law_forgetting_comes_first(
    repo_id: Seq<char>,
    rel: Seq<char>,
    language: Seq<char>,
    symbols: Seq<ParsedSymbol>,
    forgotten: Option<usize>,
    kept: Seq<Option<usize>>,
)
    ensures
        ({
            let asked = replacement(repo_id, rel, language, symbols, forgotten, kept);
            &&& asked.len() == kept.len() + 1
            &&& asked[0].sql == FORGET_FILE@
            &&& forall|i: int| 0 < i < asked.len() ==> (#[trigger] asked[i]).sql == KEEP_NODE@
        }),
{
}

/// When a file is read anew, what was known of it in its repository is forgotten, and each
/// of its symbols is kept with its name, type and text, in order.
pub proof fn law_every_symbol_is_kept_anew(
    repo_id: Seq<char>,
    rel: Seq<char>,
    language: Seq<char>,
    symbols: Seq<ParsedSymbol>,
    forgotten: Option<usize>,
    kept: Seq<Option<usize>>,
)
    ensures
        ({
            let asked = replacement(repo_id, rel, language, symbols, forgotten, kept);
            &&& asked[0].sql == "DELETE FROM nodes WHERE repo_id = ?1 AND file_path = ?2"@
            &&& asked[0].params == seq![store::Bound::Text(repo_id), store::Bound::Text(rel)]
            &&& asked[0].changed == forgotten
            &&& forall|i: int|
                0 <= i < kept.len() ==> {
                    let node = #[trigger] asked[i + 1];
                    &&& node.sql
                        == "INSERT OR REPLACE INTO nodes (id, repo_id, file_path, language, symbol_name, symbol_type, raw_text) VALUES (?1, ?2, ?3, ?4, ?5, ?6, ?7)"@
                    &&& node.params == seq![
                        store::Bound::Text(repo_id + ":"@ + rel + ":"@ + symbols[i].name@),
                        store::Bound::Text(repo_id),
                        store::Bound::Text(rel),
                        store::Bound::Text(language),
                        store::Bound::Text(symbols[i].name@),
                        store::Bound::Text(symbols[i].symbol_type@),
                        store::Bound::Text(symbols[i].raw_text@),
                    ]
                    &&& node.changed == kept[i]
                }
        }),
{
}

/// The id of a node tells which symbol of a file it is for.
pub proof fn law_node_ids_tell_symbols_apart(
    repo_id: Seq<char>,
    rel: Seq<char>,
    a: Seq<char>,
    b: Seq<char>,
)
    ensures
        node_id_text(repo_id, rel, a) == node_id_text(repo_id, rel, b) <==> a == b,
{
    let start = repo_id + ":"@ + rel + ":"@;
    if node_id_text(repo_id, rel, a) == node_id_text(repo_id, rel, b) {
        assert((start + a).skip(start.len() as int) =~= a);
        assert((start + b).skip(start.len() as int) =~= b);
    }
}

} // verus!
