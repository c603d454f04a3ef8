//! Paths written with slashes: their components, and what is read off them.
use crate::scan;
use crate::scan::split_on;
use crate::text;
use crate::text::{chars_of, same, text_between};
use vstd::prelude::*;
use vstd::string::*;

verus! {

/// Whether a path starts at the root.
pub open spec fn rooted(path: Seq<char>) -> bool {
    path.len() > 0 && path[0] == '/'
}

/// Whether a path starts at the root.
pub fn is_absolute(path: &str) -> (r: bool)
    ensures
        r == rooted(path@),
{
    let chars = chars_of(path);
    chars.len() > 0 && chars[0] == '/'
}

/// A path below another. One that starts at the root stands alone.
pub open spec fn joined_path(base: Seq<char>, tail: Seq<char>) -> Seq<char> {
    if rooted(tail) {
        tail
    } else if base.len() == 0 || base.last() == '/' {
        base + tail
    } else {
        base + "/"@ + tail
    }
}

/// A path below another.
pub fn join_path(base: &str, tail: &str) -> (r: String)
    ensures
        r@ == joined_path(base@, tail@),
{
    if is_absolute(tail) {
        return tail.to_owned();
    }
    let chars = chars_of(base);
    if chars.len() == 0 || chars[chars.len() - 1] == '/' {
        base.to_owned().concat(tail)
    } else {
        base.to_owned().concat("/").concat(tail)
    }
}

// ── Components ───────────────────────────────────────────────────────────────

/// Whether the `i`th piece between slashes is a component: empty ones are not, nor is
/// a dot, but for the one that a relative path may start with.
pub open spec fn counts(pieces: Seq<Seq<char>>, i: int) -> bool {
    pieces[i].len() > 0 && (i == 0 || pieces[i] != "."@)
}

/// The components among the first `n` pieces.
pub open spec fn kept(pieces: Seq<Seq<char>>, n: int) -> Seq<Seq<char>>
    decreases n,
{
    if n <= 0 {
        Seq::empty()
    } else if counts(pieces, n - 1) {
        kept(pieces, n - 1).push(pieces[n - 1])
    } else {
        kept(pieces, n - 1)
    }
}

/// The components of a path, without the root.
pub open spec fn components(path: Seq<char>) -> Seq<Seq<char>> {
    let pieces = scan::pieces(path, '/');
    kept(pieces, pieces.len() as int)
}

/// The components of a path from the root are the pieces between its slashes, but for the
/// empty ones and dots, in order.
pub proof fn law_components_are_the_names_between_slashes(path: Seq<char>)
    requires
        rooted(path),
    ensures
        components(path) == scan::pieces(path, '/').filter(
            |p: Seq<char>| p.len() > 0 && p != "."@,
        ),
{
    let keep = |p: Seq<char>| p.len() > 0 && p != "."@;
    let pieces = scan::pieces(path, '/');
    assert(scan::index_from(path, '/', 0) == 0);
    assert(pieces[0] =~= Seq::empty());
    lemma_kept(pieces, pieces.len() as int, keep);
    assert(pieces.take(pieces.len() as int) =~= pieces);
}

proof fn lemma_kept(pieces: Seq<Seq<char>>, n: int, keep: spec_fn(Seq<char>) -> bool)
    requires
        0 <= n <= pieces.len(),
        n > 0 ==> pieces[0].len() == 0,
        forall|p: Seq<char>| #[trigger] keep(p) == (p.len() > 0 && p != "."@),
    ensures
        kept(pieces, n) == pieces.take(n).filter(keep),
    decreases n,
{
    reveal(Seq::filter);
    if n > 0 {
        lemma_kept(pieces, n - 1, keep);
        assert(pieces.take(n).drop_last() =~= pieces.take(n - 1));
        assert(pieces.take(n).last() == pieces[n - 1]);
    }
}

/// The components of a path, without the root.
pub fn components_of(path: &str) -> (r: Vec<String>)
    ensures
        text::texts(r@) == components(path@),
{
    let pieces = split_on(path, '/');
    let ghost all = scan::pieces(path@, '/');
    let mut out: Vec<String> = Vec::new();
    let mut i: usize = 0;
    assert(text::texts(out@) =~= kept(all, 0));
    while i < pieces.len()
        invariant
            i <= pieces.len(),
            all == text::texts(pieces@),
            text::texts(out@) == kept(all, i as int),
        decreases pieces.len() - i,
    {
        let piece = &pieces[i];
        assert(all[i as int] == piece@);
        if !piece.as_str().is_empty() && (i == 0 || !same(piece, ".")) {
            let ghost before = out@;
            let one = piece.clone();
            out.push(one);
            proof {
                text::lemma_texts_push(before, one);
            }
        }
        i += 1;
    }
    out
}

/// Whether a path is another or lies below it, component by component.
pub open spec fn lies_within(path: Seq<char>, base: Seq<char>) -> bool {
    rooted(path) == rooted(base) && components(base).is_prefix_of(components(path))
}

/// Whether two paths have the same root and components.
pub open spec fn same_path(a: Seq<char>, b: Seq<char>) -> bool {
    rooted(a) == rooted(b) && components(a) == components(b)
}

/// Whether a path is another or lies below it, component by component.
pub fn is_within(path: &str, base: &str) -> (r: bool)
    ensures
        r == lies_within(path@, base@),
{
    if is_absolute(path) != is_absolute(base) {
        return false;
    }
    let inner = components_of(path);
    let outer = components_of(base);
    let ghost a = components(path@);
    let ghost b = components(base@);
    if outer.len() > inner.len() {
        return false;
    }
    let mut i: usize = 0;
    while i < outer.len()
        invariant
            i <= outer.len() <= inner.len(),
            rooted(path@) == rooted(base@),
            a == text::texts(inner@),
            b == text::texts(outer@),
            a == components(path@),
            b == components(base@),
            forall|k: int| 0 <= k < i ==> a[k] == b[k],
        decreases outer.len() - i,
    {
        assert(a[i as int] == inner@[i as int]@);
        assert(b[i as int] == outer@[i as int]@);
        if !same(&inner[i], &outer[i]) {
            assert(b != a.subrange(0, b.len() as int)) by {
                assert(a.subrange(0, b.len() as int)[i as int] == a[i as int]);
            }
            return false;
        }
        i += 1;
    }
    assert(b =~= a.subrange(0, b.len() as int));
    true
}

/// Whether two paths have the same root and components.
pub fn equal_paths(a: &str, b: &str) -> (r: bool)
    ensures
        r == same_path(a@, b@),
{
    let down = is_within(a, b);
    let up = is_within(b, a);
    proof {
        let x = components(a@);
        let y = components(b@);
        if down && up {
            assert(y.len() <= x.len());
            assert(x.len() <= y.len());
            assert(x.subrange(0, y.len() as int) =~= x);
        }
        if same_path(a@, b@) {
            assert(x.subrange(0, y.len() as int) =~= y);
            assert(y.subrange(0, x.len() as int) =~= x);
        }
    }
    down && up
}

/// A path lies within itself, and what lies within a path that lies within a third
/// lies within the third.
pub proof fn law_lying_within_is_transitive(a: Seq<char>, b: Seq<char>, c: Seq<char>)
    ensures
        lies_within(a, a),
        lies_within(a, b) && lies_within(b, c) ==> lies_within(a, c),
{
    let x = components(a);
    let y = components(b);
    let z = components(c);
    assert(x.subrange(0, x.len() as int) =~= x);
    if lies_within(a, b) && lies_within(b, c) {
        assert(z =~= x.subrange(0, z.len() as int)) by {
            assert forall|i: int| 0 <= i < z.len() implies z[i] == x[i] by {
                assert(z[i] == y.subrange(0, z.len() as int)[i]);
                assert(y[i] == x.subrange(0, y.len() as int)[i]);
            }
        }
    }
}

// ── Names ────────────────────────────────────────────────────────────────────

/// The last component, if it names something.
pub open spec fn last_name(path: Seq<char>) -> Option<Seq<char>> {
    let all = components(path);
    if all.len() == 0 || all.last() == ".."@ || (all.len() == 1 && all[0] == "."@) {
        None
    } else {
        Some(all.last())
    }
}

/// The last component, if it names something.
pub fn file_name(path: &str) -> (r: Option<String>)
    ensures
        text::opt_text(r) == last_name(path@),
{
    let all = components_of(path);
    let n = all.len();
    if n == 0 {
        return None;
    }
    assert(components(path@).last() == all@.last()@);
    let last = &all[n - 1];
    assert(n == 1 ==> components(path@)[0] == last@);
    if same(last, "..") || (n == 1 && same(last, ".")) {
        None
    } else {
        Some(last.clone())
    }
}

/// A path without the slashes and dots that end it in vain.
pub open spec fn without_tail(path: Seq<char>) -> Seq<char>
    decreases path.len(),
{
    if path.len() >= 2 && (path.last() == '/' || (path.last() == '.' && path[path.len() - 2]
        == '/')) {
        without_tail(path.drop_last())
    } else {
        path
    }
}

/// Where the last component begins: behind the last slash.
pub open spec fn last_start(path: Seq<char>) -> nat
    decreases path.len(),
{
    if path.len() == 0 || path.last() == '/' {
        path.len()
    } else {
        last_start(path.drop_last())
    }
}

/// The path without its last component; the root and the empty path have none.
pub open spec fn parent_path(path: Seq<char>) -> Option<Seq<char>> {
    let whole = without_tail(path);
    if whole.len() == 0 || whole == "/"@ {
        None
    } else {
        Some(without_tail(whole.take(last_start(whole) as int)))
    }
}

/// The parent of a path is a beginning of it that ends at a slash, if at all, behind which
/// a name without a slash stands. Only the root and nothing have none.
pub proof fn law_parents_are_beginnings(path: Seq<char>)
    ensures
        parent_path(path) is None <==> without_tail(path).len() == 0 || without_tail(path) == "/"@,
        parent_path(path) matches Some(parent) ==> {
            let whole = without_tail(path);
            let start = last_start(whole) as int;
            &&& parent.is_prefix_of(path)
            &&& parent == without_tail(whole.take(start))
            &&& start > 0 ==> whole[start - 1] == '/'
            &&& forall|i: int| start <= i < whole.len() ==> #[trigger] whole[i] != '/'
        },
{
    lemma_without_tail(path);
    let whole = without_tail(path);
    lemma_last_start(whole);
    lemma_without_tail(whole.take(last_start(whole) as int));
}

proof fn lemma_without_tail(path: Seq<char>)
    ensures
        without_tail(path).is_prefix_of(path),
    decreases path.len(),
{
    if path.len() >= 2 {
        lemma_without_tail(path.drop_last());
    }
}

proof fn lemma_last_start(path: Seq<char>)
    ensures
        last_start(path) <= path.len(),
        last_start(path) > 0 ==> path[last_start(path) - 1] == '/',
        forall|i: int| last_start(path) <= i < path.len() ==> #[trigger] path[i] != '/',
    decreases path.len(),
{
    if path.len() > 0 && path.last() != '/' {
        lemma_last_start(path.drop_last());
        assert forall|i: int| last_start(path) <= i < path.len() implies #[trigger] path[i]
            != '/' by {
            if i < path.len() - 1 {
                assert(path.drop_last()[i] == path[i]);
            }
        }
    }
}

fn tail_end(chars: &Vec<char>, end: usize) -> (r: usize)
    requires
        end <= chars.len(),
    ensures
        r <= end,
        without_tail(chars@.take(end as int)) == chars@.take(r as int),
{
    let mut n: usize = end;
    while n >= 2 && (chars[n - 1] == '/' || (chars[n - 1] == '.' && chars[n - 2] == '/'))
        invariant
            n <= end <= chars.len(),
            without_tail(chars@.take(end as int)) == without_tail(chars@.take(n as int)),
        decreases n,
    {
        assert(chars@.take(n as int).drop_last() =~= chars@.take(n - 1));
        n -= 1;
    }
    n
}

fn start_of_last(chars: &Vec<char>, end: usize) -> (r: usize)
    requires
        end <= chars.len(),
    ensures
        r <= end,
        r == last_start(chars@.take(end as int)),
{
    let mut n: usize = end;
    while n > 0 && chars[n - 1] != '/'
        invariant
            n <= end <= chars.len(),
            last_start(chars@.take(end as int)) == last_start(chars@.take(n as int)),
        decreases n,
    {
        assert(chars@.take(n as int).drop_last() =~= chars@.take(n - 1));
        n -= 1;
    }
    n
}

/// The path without its last component; the root and the empty path have none.
pub fn parent(path: &str) -> (r: Option<String>)
    ensures
        text::opt_text(r) == parent_path(path@),
{
    let chars = chars_of(path);
    assert(path@.take(path@.len() as int) =~= path@);
    let end = tail_end(&chars, chars.len());
    let ghost whole = path@.take(end as int);
    proof {
        reveal_strlit("/");
        if whole.len() == 1 && whole[0] == '/' {
            assert(whole =~= "/"@);
        }
    }
    if end == 0 || (end == 1 && chars[0] == '/') {
        return None;
    }
    let start = start_of_last(&chars, end);
    let kept = tail_end(&chars, start);
    assert(whole.take(start as int) =~= path@.take(start as int));
    assert(path@.subrange(0, kept as int) =~= path@.take(kept as int));
    Some(text_between(&chars, 0, kept))
}

/// What follows the last dot of the name, where something stands in front of it.
pub open spec fn suffix_of(name: Seq<char>, from: int) -> Option<Seq<char>>
    decreases from,
{
    if from <= 1 {
        None
    } else if name[from - 1] == '.' {
        Some(name.skip(from))
    } else {
        suffix_of(name, from - 1)
    }
}

/// The extension of a path's name.
pub open spec fn extension_of(path: Seq<char>) -> Option<Seq<char>> {
    match last_name(path) {
        Some(name) => suffix_of(name, name.len() as int),
        None => None,
    }
}

/// An extension is what stands behind the last dot of the name, unless the name starts
/// with that dot.
pub proof fn law_extensions_stand_behind_the_last_dot(path: Seq<char>)
    ensures
        last_name(path) is None ==> extension_of(path) is None,
        last_name(path) matches Some(name) ==> match extension_of(path) {
            Some(end) => {
                &&& end.len() + 1 < name.len()
                &&& name.skip(name.len() - end.len()) == end
                &&& name[name.len() - end.len() - 1] == '.'
                &&& forall|i: int| 0 <= i < end.len() ==> #[trigger] end[i] != '.'
            },
            None => forall|i: int| 1 <= i < name.len() ==> #[trigger] name[i] != '.',
        },
{
    if last_name(path) is Some {
        let name = last_name(path)->Some_0;
        lemma_suffix(name, name.len() as int);
    }
}

proof fn lemma_suffix(name: Seq<char>, from: int)
    requires
        0 <= from <= name.len(),
        forall|i: int| from <= i < name.len() ==> #[trigger] name[i] != '.',
    ensures
        match suffix_of(name, from) {
            Some(end) => {
                &&& end.len() + 1 < name.len()
                &&& name.skip(name.len() - end.len()) == end
                &&& name[name.len() - end.len() - 1] == '.'
                &&& forall|i: int| 0 <= i < end.len() ==> #[trigger] end[i] != '.'
            },
            None => forall|i: int| 1 <= i < name.len() ==> #[trigger] name[i] != '.',
        },
    decreases from,
{
    if from > 1 {
        if name[from - 1] == '.' {
            let end = name.skip(from);
            assert forall|i: int| 0 <= i < end.len() implies #[trigger] end[i] != '.' by {
                assert(end[i] == name[from + i]);
            }
        } else {
            lemma_suffix(name, from - 1);
        }
    }
}

/// The extension of a path's name.
pub fn extension(path: &str) -> (r: Option<String>)
    ensures
        text::opt_text(r) == extension_of(path@),
{
    let name = match file_name(path) {
        Some(name) => name,
        None => return None,
    };
    let chars = chars_of(&name);
    let mut n: usize = chars.len();
    while n > 1
        invariant
            n <= chars.len(),
            chars@ == name@,
            last_name(path@) == Some(name@),
            suffix_of(name@, n as int) == suffix_of(name@, name@.len() as int),
        decreases n,
    {
        if chars[n - 1] == '.' {
            assert(name@.subrange(n as int, name@.len() as int) =~= name@.skip(n as int));
            return Some(text_between(&chars, n, chars.len()));
        }
        n -= 1;
    }
    None
}

// ── Files of a repository ────────────────────────────────────────────────────

/// Why a file of the index may not be read.
pub open spec fn untrusted(rel: Seq<char>, how: Seq<char>) -> Seq<char> {
    "Indexed file '"@ + rel + "' "@ + how + " outside the repository root and cannot be trusted."@
}

/// What the index's file `rel` leads to, where `found` is what its path below `root`
/// really is on disk, or why it could not be followed.
pub open spec fn resolved_file(
    root: Seq<char>,
    rel: Seq<char>,
    found: Result<Seq<char>, Seq<char>>,
) -> Result<Seq<char>, Seq<char>> {
    if rooted(rel) {
        Err(untrusted(rel, "is"@))
    } else {
        match found {
            Ok(target) => if lies_within(target, root) {
                Ok(target)
            } else {
                Err(untrusted(rel, "resolves"@))
            },
            Err(why) => Err("Indexed file '"@ + rel + "' is missing on disk: "@ + why),
        }
    }
}

/// The texts of a result.
pub open spec fn result_text(r: Result<String, String>) -> Result<Seq<char>, Seq<char>> {
    match r {
        Ok(s) => Ok(s@),
        Err(s) => Err(s@),
    }
}

fn distrust(rel: &str, how: &str) -> (r: String)
    ensures
        r@ == untrusted(rel@, how@),
{
    "Indexed file '".to_owned().concat(rel).concat("' ").concat(how).concat(
        " outside the repository root and cannot be trusted.",
    )
}

/// What a file of the index leads to: only one below the repository's root may be
/// read.
pub fn resolve_repo_file_path(root: &str, rel: &str, found: Result<String, String>) -> (r: Result<
    String,
    String,
>)
    ensures
        result_text(r) == resolved_file(root@, rel@, result_text(found)),
{
    if is_absolute(rel) {
        return Err(distrust(rel, "is"));
    }
    match found {
        Ok(target) => if is_within(&target, root) {
            Ok(target)
        } else {
            Err(distrust(rel, "resolves"))
        },
        Err(why) => Err(
            "Indexed file '".to_owned().concat(rel).concat("' is missing on disk: ").concat(&why),
        ),
    }
}

/// Whatever is on disk, a file that may be read lies within the repository's root.
pub proof fn law_resolved_files_stay_inside(
    root: Seq<char>,
    rel: Seq<char>,
    found: Result<Seq<char>, Seq<char>>,
)
    ensures
        resolved_file(root, rel, found) matches Ok(path) ==> lies_within(path, root) && !rooted(
            rel,
        ),
        found matches Ok(path) ==> (lies_within(path, root) && !rooted(rel) ==> resolved_file(
            root,
            rel,
            found,
        ) == found),
{
}

} // verus!
