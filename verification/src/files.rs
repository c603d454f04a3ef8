//! The files that a capsule touches: which they are, and excerpts of them.
use crate::model::{CapsuleOriginalMode, CapsuleProofSnapshot, PreciseTokenMeasurement};
use crate::order;
use crate::order::listed;
use crate::text;
use crate::text::{byte_len, join, prefix_by_bytes, same};
use crate::tokens;
use crate::tokens::cl100k_tokens;
use vstd::prelude::*;
use vstd::string::*;

verus! {

/// What the disk holds of an indexed file.
#[derive(Debug, Clone)]
pub struct SourceFile {
    /// The path under which the file is indexed.
    pub path: String,
    /// How many bytes the file has, where that is known.
    pub len: Option<usize>,
    /// What the file holds, where it could be read.
    pub text: Option<String>,
}

/// The first file of a list that goes by a path, or the length of the list.
pub open spec fn position(files: Seq<SourceFile>, path: Seq<char>, from: int) -> int
    decreases files.len() - from,
{
    if from >= files.len() {
        files.len() as int
    } else if files[from].path@ == path {
        from
    } else {
        position(files, path, from + 1)
    }
}

/// How many bytes the file at a path has, where that is known.
pub open spec fn len_of(files: Seq<SourceFile>, path: Seq<char>) -> Option<usize> {
    let k = position(files, path, 0);
    if 0 <= k < files.len() {
        files[k].len
    } else {
        None
    }
}

/// What the file at a path holds, where it could be read.
pub open spec fn text_of(files: Seq<SourceFile>, path: Seq<char>) -> Option<Seq<char>> {
    let k = position(files, path, 0);
    if 0 <= k < files.len() {
        text::opt_text(files[k].text)
    } else {
        None
    }
}

fn find_file(files: &Vec<SourceFile>, path: &str) -> (r: usize)
    ensures
        r == position(files@, path@, 0),
        r <= files.len(),
{
    let mut i: usize = 0;
    while i < files.len() && !same(&files[i].path, path)
        invariant
            i <= files.len(),
            position(files@, path@, 0) == position(files@, path@, i as int),
        decreases files.len() - i,
    {
        i += 1;
    }
    i
}

fn file_len(files: &Vec<SourceFile>, path: &str) -> (r: Option<usize>)
    ensures
        r == len_of(files@, path@),
{
    let k = find_file(files, path);
    if k < files.len() {
        files[k].len
    } else {
        None
    }
}

fn file_text<'a>(files: &'a Vec<SourceFile>, path: &str) -> (r: Option<&'a str>)
    ensures
        text::opt_str(r) == text_of(files@, path@),
{
    let k = find_file(files, path);
    if k < files.len() {
        match &files[k].text {
            Some(s) => Some(s.as_str()),
            None => None,
        }
    } else {
        None
    }
}

/// What is known of a path is what the first file of that path says.
pub proof fn law_files_go_by_their_first_path(files: Seq<SourceFile>, path: Seq<char>, k: int)
    requires
        0 <= k <= files.len(),
        forall|j: int| 0 <= j < k ==> (#[trigger] files[j]).path@ != path,
    ensures
        k < files.len() && files[k].path@ == path ==> len_of(files, path) == files[k].len
            && text_of(files, path) == text::opt_text(files[k].text),
        k == files.len() ==> len_of(files, path) is None && text_of(files, path) is None,
{
    lemma_position_is(files, path, 0, k);
}

proof fn lemma_position_is(files: Seq<SourceFile>, path: Seq<char>, from: int, k: int)
    requires
        0 <= from <= k <= files.len(),
        forall|j: int| 0 <= j < k ==> (#[trigger] files[j]).path@ != path,
    ensures
        k == files.len() || files[k].path@ == path ==> position(files, path, from) == k,
    decreases k - from,
{
    if from < k {
        assert(files[from].path@ != path);
        lemma_position_is(files, path, from + 1, k);
    }
}

/// A sum that stops at the largest size.
pub open spec fn capped_sum(a: int, b: int) -> int {
    if a + b > usize::MAX {
        usize::MAX as int
    } else {
        a + b
    }
}

// ── Labels ───────────────────────────────────────────────────────────────────

/// The label of a mode.
pub open spec fn mode_name(mode: CapsuleOriginalMode) -> Seq<char> {
    match mode {
        CapsuleOriginalMode::Off => "none"@,
        CapsuleOriginalMode::Full => "full"@,
    }
}

/// The label of a mode.
pub fn original_mode_label(mode: CapsuleOriginalMode) -> (r: &'static str)
    ensures
        r@ == mode_name(mode),
{
    match mode {
        CapsuleOriginalMode::Off => "none",
        CapsuleOriginalMode::Full => "full",
    }
}

/// The label of a proof that leaves out files, bytes, both or nothing.
pub open spec fn proof_name(sampled: bool, truncated: bool) -> Seq<char> {
    if sampled && truncated {
        "sampled_truncated_proof"@
    } else if sampled {
        "sampled_proof"@
    } else if truncated {
        "truncated_proof"@
    } else {
        "cached_proof"@
    }
}

/// The labels tell what a proof and a baseline leave out: files, bytes, both or nothing.
pub proof fn law_labels_tell_what_is_left_out(sampled: bool, truncated: bool)
    ensures
        !sampled && !truncated ==> proof_name(sampled, truncated) == "cached_proof"@,
        !sampled && truncated ==> proof_name(sampled, truncated) == "truncated_proof"@,
        sampled && !truncated ==> proof_name(sampled, truncated) == "sampled_proof"@,
        sampled && truncated ==> proof_name(sampled, truncated) == "sampled_truncated_proof"@,
        baseline_name(CapsuleOriginalMode::Off, truncated) == "estimated"@,
        truncated ==> baseline_name(CapsuleOriginalMode::Full, truncated) == "truncated_full"@,
        !truncated ==> baseline_name(CapsuleOriginalMode::Full, truncated) == "full"@,
        mode_name(CapsuleOriginalMode::Off) == "none"@,
        mode_name(CapsuleOriginalMode::Full) == "full"@,
{
}

/// The label of a proof that leaves out files, bytes, both or nothing.
pub fn proof_label(sampled: bool, truncated: bool) -> (r: &'static str)
    ensures
        r@ == proof_name(sampled, truncated),
{
    if sampled && truncated {
        "sampled_truncated_proof"
    } else if sampled {
        "sampled_proof"
    } else if truncated {
        "truncated_proof"
    } else {
        "cached_proof"
    }
}

/// The label of what token counts are measured against.
pub open spec fn baseline_name(mode: CapsuleOriginalMode, truncated_full: bool) -> Seq<char> {
    match mode {
        CapsuleOriginalMode::Off => "estimated"@,
        CapsuleOriginalMode::Full => if truncated_full {
            "truncated_full"@
        } else {
            "full"@
        },
    }
}

/// The label of what token counts are measured against.
pub fn baseline_token_source(mode: CapsuleOriginalMode, truncated_full: bool) -> (r: &'static str)
    ensures
        r@ == baseline_name(mode, truncated_full),
{
    match mode {
        CapsuleOriginalMode::Off => "estimated",
        CapsuleOriginalMode::Full => if truncated_full {
            "truncated_full"
        } else {
            "full"
        },
    }
}

// ── Sampling ─────────────────────────────────────────────────────────────────

/// Which of `total` things is the `i`th of `max` picked evenly, first and last
/// among them.
pub open spec fn sample_index(i: int, total: int, max: int) -> int {
    (i * (total - 1)) / (max - 1)
}

/// How many of `total` things are picked when at most `max` may be: all that there
/// are, and never none.
pub open spec fn sample_size(total: int, max: int) -> int {
    if total <= max {
        total
    } else if max <= 1 {
        1
    } else {
        max
    }
}

/// The things that are picked when at most `max` may be.
pub open spec fn sample<T>(all: Seq<T>, max: int) -> Seq<T> {
    if all.len() <= max {
        all
    } else if max <= 1 {
        seq![all[0]]
    } else {
        Seq::new(max as nat, |i: int| all[sample_index(i, all.len() as int, max)])
    }
}

proof fn lemma_sample_index(i: int, total: int, max: int)
    by (nonlinear_arith)
    requires
        0 <= i < max,
        2 <= max < total,
    ensures
        0 <= sample_index(i, total, max) < total,
        sample_index(0, total, max) == 0,
        sample_index(max - 1, total, max) == total - 1,
        i + 1 < max ==> sample_index(i, total, max) < sample_index(i + 1, total, max),
{
    let last = total - 1;
    let d = max - 1;
    assert(d >= 1 && last >= d + 1);
    assert(0 <= i * last);
    assert(i * last <= d * last);
    assert((d * last) / d == last);
    assert((i * last) / d <= (d * last) / d);
    assert((i + 1) * last == i * last + last);
    assert((i * last + last) / d >= (i * last + d) / d);
    assert((i * last + d) / d == (i * last) / d + 1);
}

proof fn lemma_sample_increases(i: int, j: int, total: int, max: int)
    requires
        0 <= i < j < max,
        2 <= max < total,
    ensures
        sample_index(i, total, max) < sample_index(j, total, max),
    decreases j - i,
{
    lemma_sample_index(i, total, max);
    if i + 1 < j {
        lemma_sample_increases(i + 1, j, total, max);
    }
}

/// A sample has the size that is allowed, begins with the first thing, ends with
/// the last one where two or more are picked, and keeps an ascending list ascending.
pub proof fn law_sample_spans_the_list(all: Seq<Seq<char>>, max: int)
    requires
        all.len() > 0,
        0 <= max,
    ensures
        sample(all, max).len() == sample_size(all.len() as int, max),
        sample(all, max)[0] == all[0],
        sample(all, max).len() >= 2 ==> sample(all, max).last() == all.last(),
        order::ascending(all) ==> order::ascending(sample(all, max)),
        forall|i: int| 0 <= i < sample(all, max).len() ==> all.contains(#[trigger] sample(all, max)[i]),
{
    let s = sample(all, max);
    if all.len() > max && max >= 2 {
        let total = all.len() as int;
        lemma_sample_index(0, total, max);
        lemma_sample_index(max - 1, total, max);
        assert forall|i: int| 0 <= i < s.len() implies all.contains(#[trigger] s[i]) by {
            lemma_sample_index(i, total, max);
        }
        if order::ascending(all) {
            assert forall|i: int, j: int| 0 <= i < j < s.len() implies order::before(
                #[trigger] s[i],
                #[trigger] s[j],
            ) by {
                lemma_sample_index(i, total, max);
                lemma_sample_index(j, total, max);
                lemma_sample_increases(i, j, total, max);
            }
        }
    } else if all.len() > max {
        assert(all.contains(s[0]));
    }
}

/// At most `max_files` of the paths, picked evenly.
pub fn sampled_paths(paths: &Vec<String>, max_files: usize) -> (r: Vec<String>)
    ensures
        r@ == sample(paths@, max_files as int),
{
    let mut out: Vec<String> = Vec::new();
    if paths.len() <= max_files {
        let mut i: usize = 0;
        while i < paths.len()
            invariant
                i <= paths.len(),
                out@ == paths@.take(i as int),
            decreases paths.len() - i,
        {
            out.push(paths[i].clone());
            assert(paths@.take(i as int).push(paths@[i as int]) =~= paths@.take(i + 1));
            i += 1;
        }
        assert(out@ =~= paths@);
        return out;
    }
    if max_files <= 1 {
        out.push(paths[0].clone());
        assert(out@ =~= seq![paths@[0]]);
        return out;
    }
    let last: u128 = (paths.len() - 1) as u128;
    let mut i: usize = 0;
    while i < max_files
        invariant
            2 <= max_files < paths.len(),
            last == paths.len() - 1,
            i <= max_files,
            out@ == sample(paths@, max_files as int).take(i as int),
        decreases max_files - i,
    {
        proof {
            lemma_sample_index(i as int, paths.len() as int, max_files as int);
            assert(i as int * last as int <= u64::MAX as int * u64::MAX as int) by (nonlinear_arith)
                requires
                    0 <= i as int <= u64::MAX,
                    0 <= last as int <= u64::MAX,
            ;
            assert(u64::MAX as int * u64::MAX as int <= u128::MAX) by (nonlinear_arith);
            assert(0 <= i as int * last as int) by (nonlinear_arith)
                requires
                    0 <= i as int,
                    0 <= last as int,
            ;
        }
        let product: u128 = i as u128 * last;
        let idx: usize = (product / ((max_files - 1) as u128)) as usize;
        assert(idx == sample_index(i as int, paths.len() as int, max_files as int));
        out.push(paths[idx].clone());
        assert(out@ =~= sample(paths@, max_files as int).take(i + 1));
        i += 1;
    }
    assert(out@ =~= sample(paths@, max_files as int));
    out
}

// ── Estimates ────────────────────────────────────────────────────────────────

/// A quarter of the bytes of each of the first `n` files whose size is known, summed.
pub open spec fn quarter_bytes(files: Seq<SourceFile>, paths: Seq<Seq<char>>, n: int) -> int
    decreases n,
{
    if n <= 0 {
        0
    } else {
        let head = quarter_bytes(files, paths, n - 1);
        match len_of(files, paths[n - 1]) {
            Some(len) => capped_sum(head, len as int / 4),
            None => head,
        }
    }
}

/// The token estimate of the touched files: nothing without a repository root.
pub open spec fn estimate(files: Seq<SourceFile>, paths: Seq<Seq<char>>, has_root: bool) -> int {
    if has_root {
        quarter_bytes(files, paths, paths.len() as int)
    } else {
        0
    }
}

/// The estimate is a quarter of the bytes of every touched file whose size is known, added
/// up as far as a size can be held; without a root it is nothing.
pub proof fn law_estimates_add_up_quarters(
    files: Seq<SourceFile>,
    paths: Seq<Seq<char>>,
    has_root: bool,
)
    ensures
        !has_root ==> estimate(files, paths, has_root) == 0,
        has_root ==> estimate(files, paths, has_root) == paths.fold_left(
            0int,
            |sum: int, path: Seq<char>|
                match len_of(files, path) {
                    Some(len) => if sum + len as int / 4 > usize::MAX {
                        usize::MAX as int
                    } else {
                        sum + len as int / 4
                    },
                    None => sum,
                },
        ),
{
    let add_up = |sum: int, path: Seq<char>|
        match len_of(files, path) {
            Some(len) => if sum + len as int / 4 > usize::MAX {
                usize::MAX as int
            } else {
                sum + len as int / 4
            },
            None => sum,
        };
    lemma_quarters(files, paths, paths.len() as int, add_up);
    assert(paths.take(paths.len() as int) =~= paths);
}

proof fn lemma_quarters(
    files: Seq<SourceFile>,
    paths: Seq<Seq<char>>,
    n: int,
    add_up: spec_fn(int, Seq<char>) -> int,
)
    requires
        0 <= n <= paths.len(),
        forall|sum: int, path: Seq<char>| #[trigger]
            add_up(sum, path) == match len_of(files, path) {
                Some(len) => capped_sum(sum, len as int / 4),
                None => sum,
            },
    ensures
        quarter_bytes(files, paths, n) == paths.take(n).fold_left(0int, add_up),
    decreases n,
{
    reveal(Seq::fold_left);
    if n > 0 {
        lemma_quarters(files, paths, n - 1, add_up);
        assert(paths.take(n).drop_last() =~= paths.take(n - 1));
    }
}

/// The token estimate of the touched files.
pub fn file_tokens_metadata_estimate(
    has_root: bool,
    touched: &Vec<String>,
    files: &Vec<SourceFile>,
) -> (r: usize)
    ensures
        r == estimate(files@, text::texts(touched@), has_root),
{
    if !has_root {
        return 0;
    }
    let ghost paths = text::texts(touched@);
    let mut total: usize = 0;
    let mut i: usize = 0;
    while i < touched.len()
        invariant
            i <= touched.len(),
            paths == text::texts(touched@),
            total == quarter_bytes(files@, paths, i as int),
        decreases touched.len() - i,
    {
        assert(paths[i as int] == touched@[i as int]@);
        match file_len(files, &touched[i]) {
            Some(len) => {
                total = total.saturating_add(len / 4);
            },
            None => {},
        }
        i += 1;
    }
    total
}

// ── Whole files ──────────────────────────────────────────────────────────────

/// What has been concatenated so far.
pub struct Concat {
    pub parts: Seq<Seq<char>>,
    /// Bytes taken, separators included.
    pub used: int,
    /// Files that no longer fit.
    pub omitted: Seq<Seq<char>>,
}

/// What adding one more file makes of a concatenation: a file that would go over
/// the budget is left out and noted, one that cannot be read is left out.
pub open spec fn concat_step(
    st: Concat,
    path: Seq<char>,
    files: Seq<SourceFile>,
    budget: Option<usize>,
) -> Concat {
    match budget {
        Some(max) => match len_of(files, path) {
            Some(len) => {
                let sep: int = if st.parts.len() == 0 {
                    0
                } else {
                    1
                };
                if capped_sum(capped_sum(st.used, sep), len as int) > max {
                    Concat { parts: st.parts, used: st.used, omitted: st.omitted.push(path) }
                } else {
                    match text_of(files, path) {
                        Some(t) => Concat {
                            parts: st.parts.push(t),
                            used: capped_sum(capped_sum(st.used, sep), text::bytes(t) as int),
                            omitted: st.omitted,
                        },
                        None => st,
                    }
                }
            },
            None => st,
        },
        None => match text_of(files, path) {
            Some(t) => Concat { parts: st.parts.push(t), used: st.used, omitted: st.omitted },
            None => st,
        },
    }
}

/// What the first `n` paths come to.
pub open spec fn concat_upto(
    files: Seq<SourceFile>,
    paths: Seq<Seq<char>>,
    budget: Option<usize>,
    n: int,
) -> Concat
    decreases n,
{
    if n <= 0 {
        Concat { parts: Seq::empty(), used: 0, omitted: Seq::empty() }
    } else {
        concat_step(concat_upto(files, paths, budget, n - 1), paths[n - 1], files, budget)
    }
}

/// What all paths come to: nothing without a repository root.
pub open spec fn concat_all(
    files: Seq<SourceFile>,
    paths: Seq<Seq<char>>,
    budget: Option<usize>,
    has_root: bool,
) -> Concat {
    concat_upto(
        files,
        paths,
        budget,
        if has_root {
            paths.len() as int
        } else {
            0
        },
    )
}

/// Without a budget the text of every touched file that could be read is taken, in order.
/// With one, a file is left out, and noted, exactly when it would go over the budget with
/// the line feed in front of it; any other whose text is there is taken.
pub proof fn law_files_are_left_out_for_room_only(
    files: Seq<SourceFile>,
    paths: Seq<Seq<char>>,
    max: usize,
    n: int,
)
    requires
        0 <= n < paths.len(),
        max < usize::MAX,
    ensures
        concat_all(files, paths, None, true).parts == paths.filter_map(
            |path: Seq<char>| text_of(files, path),
        ),
        concat_all(files, paths, None, true).omitted.len() == 0,
        concat_all(files, paths, None, false).parts.len() == 0,
        concat_all(files, paths, Some(max), false).parts.len() == 0,
        concat_all(files, paths, Some(max), true) == concat_upto(
            files,
            paths,
            Some(max),
            paths.len() as int,
        ),
        ({
            let path = paths[n];
            let before = concat_upto(files, paths, Some(max), n);
            let after = concat_upto(files, paths, Some(max), n + 1);
            let gap: int = if before.parts.len() == 0 {
                0
            } else {
                1
            };
            match (len_of(files, path), text_of(files, path)) {
                (Some(len), found) => if before.used + gap + len > max {
                    after.parts == before.parts && after.omitted == before.omitted.push(path)
                } else {
                    &&& after.omitted == before.omitted
                    &&& found matches Some(t) ==> after.parts == before.parts.push(t)
                    &&& found is None ==> after.parts == before.parts
                },
                (None, _) => after == before,
            }
        }),
{
    lemma_unbounded(files, paths, paths.len() as int, |path: Seq<char>| text_of(files, path));
    assert(paths.take(paths.len() as int) =~= paths);
}

proof fn lemma_unbounded(
    files: Seq<SourceFile>,
    paths: Seq<Seq<char>>,
    n: int,
    found: spec_fn(Seq<char>) -> Option<Seq<char>>,
)
    requires
        0 <= n <= paths.len(),
        forall|path: Seq<char>| #[trigger] found(path) == text_of(files, path),
    ensures
        concat_upto(files, paths, None, n).parts == paths.take(n).filter_map(found),
        concat_upto(files, paths, None, n).omitted.len() == 0,
    decreases n,
{
    if n > 0 {
        lemma_unbounded(files, paths, n - 1, found);
        assert(paths.take(n).drop_last() =~= paths.take(n - 1));
        let head = concat_upto(files, paths, None, n - 1).parts;
        if let Some(t) = found(paths[n - 1]) {
            assert(head.push(t) =~= head + seq![t]);
        }
    }
}

/// Whether every file has as many bytes as its text.
pub open spec fn sizes_agree(files: Seq<SourceFile>) -> bool {
    forall|i: int|
        0 <= i < files.len() ==> match (#[trigger] files[i].len, files[i].text) {
            (Some(len), Some(t)) => len == text::bytes(t@),
            _ => true,
        }
}

proof fn lemma_position(files: Seq<SourceFile>, path: Seq<char>, from: int)
    requires
        0 <= from <= files.len(),
    ensures
        from <= position(files, path, from) <= files.len(),
    decreases files.len() - from,
{
    if from < files.len() && files[from].path@ != path {
        lemma_position(files, path, from + 1);
    }
}

proof fn lemma_joined_push(parts: Seq<Seq<char>>, t: Seq<char>, sep: Seq<char>)
    ensures
        parts.len() == 0 ==> text::joined(parts.push(t), sep) == t,
        parts.len() > 0 ==> text::joined(parts.push(t), sep) == text::joined(parts, sep) + sep + t,
{
    assert(parts.push(t).drop_last() =~= parts);
}

proof fn lemma_concat_used(
    files: Seq<SourceFile>,
    paths: Seq<Seq<char>>,
    max: usize,
    n: int,
)
    requires
        sizes_agree(files),
        0 <= n <= paths.len(),
        max < usize::MAX,
    ensures
        ({
            let st = concat_upto(files, paths, Some(max), n);
            &&& st.used == text::bytes(text::joined(st.parts, "\n"@))
            &&& st.used <= max
        }),
    decreases n,
{
    reveal_strlit("\n");
    if n > 0 {
        lemma_concat_used(files, paths, max, n - 1);
        let st = concat_upto(files, paths, Some(max), n - 1);
        let path = paths[n - 1];
        lemma_position(files, path, 0);
        if let Some(t) = text_of(files, path) {
            lemma_joined_push(st.parts, t, "\n"@);
            text::lemma_bytes_concat(text::joined(st.parts, "\n"@) + "\n"@, t);
            text::lemma_bytes_concat(text::joined(st.parts, "\n"@), "\n"@);
            text::lemma_bytes_push(Seq::empty(), '\n');
            assert("\n"@ =~= Seq::empty().push('\n'));
        }
    } else {
        assert(text::joined(Seq::<Seq<char>>::empty(), "\n"@) =~= Seq::<char>::empty());
    }
}

/// The concatenated text never takes more bytes than its budget, as long as every
/// file is as large as it was said to be.
pub proof fn law_concatenation_fits_its_budget(
    files: Seq<SourceFile>,
    paths: Seq<Seq<char>>,
    max: usize,
    has_root: bool,
)
    requires
        sizes_agree(files),
        max < usize::MAX,
    ensures
        text::bytes(text::joined(concat_all(files, paths, Some(max), has_root).parts, "\n"@)) <= max,
{
    lemma_concat_used(
        files,
        paths,
        max,
        if has_root {
            paths.len() as int
        } else {
            0
        },
    );
}

/// The contents of the touched files in their order, with a line feed between any two;
/// whether some were left out for the budget, and which.
pub fn concat_full_original_text_sorted(
    has_root: bool,
    touched: &Vec<String>,
    budget: Option<usize>,
    files: &Vec<SourceFile>,
) -> (r: (String, bool, Vec<String>))
    ensures
        ({
            let all = concat_all(files@, text::texts(touched@), budget, has_root);
            &&& r.0@ == text::joined(all.parts, "\n"@)
            &&& r.1 == (all.omitted.len() > 0)
            &&& text::texts(r.2@) == all.omitted
        }),
{
    let ghost paths = text::texts(touched@);
    let mut parts: Vec<String> = Vec::new();
    let mut omitted: Vec<String> = Vec::new();
    let mut used: usize = 0;
    let n: usize = if has_root {
        touched.len()
    } else {
        0
    };
    let mut i: usize = 0;
    assert(text::texts(parts@) =~= Seq::<Seq<char>>::empty());
    assert(text::texts(omitted@) =~= Seq::<Seq<char>>::empty());
    while i < n
        invariant
            i <= n <= touched.len(),
            paths == text::texts(touched@),
            ({
                let st = concat_upto(files@, paths, budget, i as int);
                &&& text::texts(parts@) == st.parts
                &&& text::texts(omitted@) == st.omitted
                &&& used == st.used
            }),
        decreases n - i,
    {
        let path = &touched[i];
        assert(paths[i as int] == path@);
        let ghost parts0 = parts@;
        let ghost omitted0 = omitted@;
        match budget {
            Some(max) => {
                match file_len(files, path) {
                    Some(len) => {
                        let sep: usize = if parts.len() == 0 {
                            0
                        } else {
                            1
                        };
                        let start = used.saturating_add(sep);
                        if start.saturating_add(len) > max {
                            omitted.push(path.clone());
                            proof {
                                text::lemma_texts_push(omitted0, *path);
                            }
                        } else {
                            match file_text(files, path) {
                                Some(t) => {
                                    used = start.saturating_add(byte_len(t));
                                    let owned = t.to_owned();
                                    parts.push(owned);
                                    proof {
                                        text::lemma_texts_push(parts0, owned);
                                    }
                                },
                                None => {},
                            }
                        }
                    },
                    None => {},
                }
            },
            None => {
                match file_text(files, path) {
                    Some(t) => {
                        let owned = t.to_owned();
                        parts.push(owned);
                        proof {
                            text::lemma_texts_push(parts0, owned);
                        }
                    },
                    None => {},
                }
            },
        }
        i += 1;
    }
    let truncated = omitted.len() > 0;
    (join(&parts, "\n"), truncated, omitted)
}

// ── Proof excerpts ───────────────────────────────────────────────────────────

/// The line above an excerpt.
pub open spec fn excerpt_heading(path: Seq<char>) -> Seq<char> {
    "── MARROW PROOF: "@ + path + " ──\n"@
}

/// How far a proof has come.
pub struct Proof {
    pub text: Seq<char>,
    pub included: int,
    pub truncated: bool,
    /// Some of the files that are left out.
    pub preview: Seq<Seq<char>>,
    /// Whether there is no room for more.
    pub full: bool,
}

/// What one more file makes of a proof: an excerpt as long as there is room, nothing
/// where the file cannot be read. A file that is cut, or whose heading has no room,
/// is the last one.
pub open spec fn proof_step(
    st: Proof,
    path: Seq<char>,
    files: Seq<SourceFile>,
    max_bytes: int,
) -> Proof {
    let heading = excerpt_heading(path);
    let used = text::bytes(st.text);
    if st.full {
        st
    } else if used + text::bytes(heading) >= max_bytes {
        Proof {
            truncated: true,
            full: true,
            preview: if st.preview.len() < 5 {
                st.preview.push(path)
            } else {
                st.preview
            },
            ..st
        }
    } else {
        match text_of(files, path) {
            Some(t) => {
                let body = text::byte_prefix(t, max_bytes - used - text::bytes(heading));
                let cut = body.len() < t.len();
                let start = if st.text.len() > 0 {
                    st.text + "\n"@
                } else {
                    st.text
                };
                Proof {
                    text: start + heading + body,
                    included: st.included + 1,
                    truncated: cut,
                    preview: st.preview,
                    full: cut,
                }
            },
            None => st,
        }
    }
}

/// What the first `n` of the picked files come to.
pub open spec fn proof_upto(
    files: Seq<SourceFile>,
    picked: Seq<Seq<char>>,
    left_out: Seq<Seq<char>>,
    max_bytes: int,
    n: int,
) -> Proof
    decreases n,
{
    if n <= 0 {
        Proof {
            text: Seq::empty(),
            included: 0,
            truncated: false,
            preview: left_out,
            full: false,
        }
    } else {
        proof_step(
            proof_upto(files, picked, left_out, max_bytes, n - 1),
            picked[n - 1],
            files,
            max_bytes,
        )
    }
}

/// The first five, up to `n`, of the paths that are not among the picked ones.
pub open spec fn not_picked(paths: Seq<Seq<char>>, picked: Seq<Seq<char>>, n: int) -> Seq<Seq<char>>
    decreases n,
{
    if n <= 0 {
        Seq::empty()
    } else {
        let head = not_picked(paths, picked, n - 1);
        if head.len() < 5 && !picked.contains(paths[n - 1]) {
            head.push(paths[n - 1])
        } else {
            head
        }
    }
}

/// The proof that the touched files give.
pub open spec fn proof_of(
    files: Seq<SourceFile>,
    paths: Seq<Seq<char>>,
    max_bytes: int,
    max_files: int,
) -> Proof {
    let picked = sample(paths, max_files);
    proof_upto(
        files,
        picked,
        not_picked(paths, picked, paths.len() as int),
        max_bytes,
        picked.len() as int,
    )
}

/// Whether a snapshot is there at all: a root, a file and an excerpt.
pub open spec fn has_snapshot(
    files: Seq<SourceFile>,
    paths: Seq<Seq<char>>,
    has_root: bool,
    max_bytes: int,
    max_files: int,
) -> bool {
    has_root && paths.len() > 0 && max_bytes > 0 && max_files > 0 && proof_of(
        files,
        paths,
        max_bytes,
        max_files,
    ).text.len() > 0
}

/// A snapshot is there exactly when there is a root to read below, a file to read, room for
/// a file and for a byte, and something was read.
pub proof fn law_snapshots_need_something_to_show(
    files: Seq<SourceFile>,
    paths: Seq<Seq<char>>,
    has_root: bool,
    max_bytes: int,
    max_files: int,
)
    ensures
        has_snapshot(files, paths, has_root, max_bytes, max_files) ==> has_root && paths.len() > 0
            && max_bytes > 0 && max_files > 0,
        has_root && paths.len() > 0 && max_bytes > 0 && max_files > 0 ==> (has_snapshot(
            files,
            paths,
            has_root,
            max_bytes,
            max_files,
        ) <==> proof_of(files, paths, max_bytes, max_files).text.len() > 0),
{
}

/// Whether a snapshot is the one that the touched files give.
pub open spec fn is_snapshot(
    snap: CapsuleProofSnapshot,
    files: Seq<SourceFile>,
    paths: Seq<Seq<char>>,
    baseline: Seq<char>,
    max_bytes: int,
    max_files: int,
) -> bool {
    let proof = proof_of(files, paths, max_bytes, max_files);
    let sampled = paths.len() > sample(paths, max_files).len();
    &&& snap.proof_text@ == proof.text
    &&& snap.proof_label@ == proof_name(sampled, proof.truncated)
    &&& snap.token_source@ == baseline
    &&& snap.truncated == proof.truncated
    &&& snap.sampled == sampled
    &&& snap.max_bytes == max_bytes
    &&& snap.max_files == max_files
    &&& snap.touched_file_count == paths.len()
    &&& snap.included_file_count == proof.included
    &&& snap.omitted_file_count == paths.len() - proof.included
    &&& text::texts(snap.omitted_paths_preview@) == proof.preview
}

proof fn lemma_proof_upto(
    files: Seq<SourceFile>,
    picked: Seq<Seq<char>>,
    left_out: Seq<Seq<char>>,
    max_bytes: int,
    n: int,
)
    requires
        0 <= n <= picked.len(),
        left_out.len() <= 5,
        0 < max_bytes,
    ensures
        ({
            let st = proof_upto(files, picked, left_out, max_bytes, n);
            &&& 0 <= st.included <= n
            &&& st.included == 0 <==> st.text.len() == 0
            &&& st.preview.len() <= 5
            &&& text::bytes(st.text) <= max_bytes + 1
            &&& st.included <= 1 ==> text::bytes(st.text) <= max_bytes
        }),
    decreases n,
{
    if n > 0 {
        lemma_proof_upto(files, picked, left_out, max_bytes, n - 1);
        let st = proof_upto(files, picked, left_out, max_bytes, n - 1);
        let path = picked[n - 1];
        let heading = excerpt_heading(path);
        let used = text::bytes(st.text);
        reveal_strlit("── MARROW PROOF: ");
        reveal_strlit("\n");
        assert(heading.len() > 0);
        if !st.full && used + text::bytes(heading) < max_bytes {
            if let Some(t) = text_of(files, path) {
                let room = max_bytes - used - text::bytes(heading);
                text::lemma_byte_prefix(t, room);
                let body = text::byte_prefix(t, room);
                let start = if st.text.len() > 0 {
                    st.text + "\n"@
                } else {
                    st.text
                };
                text::lemma_bytes_concat(st.text, "\n"@);
                text::lemma_bytes_push(Seq::empty(), '\n');
                assert("\n"@ =~= Seq::empty().push('\n'));
                text::lemma_bytes_concat(start, heading);
                text::lemma_bytes_concat(start + heading, body);
            }
        }
    }
}

proof fn lemma_not_picked(paths: Seq<Seq<char>>, picked: Seq<Seq<char>>, n: int)
    ensures
        not_picked(paths, picked, n).len() <= 5,
    decreases n,
{
    if n > 0 {
        lemma_not_picked(paths, picked, n - 1);
    }
}

/// A proof takes at most one byte more than its limit, and no more than the limit
/// while it holds a single excerpt: the line feed in front of each further excerpt
/// is not counted when its room is measured.
pub proof fn law_proof_is_bounded(
    files: Seq<SourceFile>,
    paths: Seq<Seq<char>>,
    max_bytes: int,
    max_files: int,
)
    requires
        paths.len() > 0,
        0 < max_bytes,
        0 < max_files,
    ensures
        ({
            let proof = proof_of(files, paths, max_bytes, max_files);
            &&& text::bytes(proof.text) <= max_bytes + 1
            &&& proof.included <= 1 ==> text::bytes(proof.text) <= max_bytes
            &&& 0 <= proof.included <= sample_size(paths.len() as int, max_files)
            &&& proof.preview.len() <= 5
        }),
{
    let picked = sample(paths, max_files);
    lemma_not_picked(paths, picked, paths.len() as int);
    lemma_proof_upto(
        files,
        picked,
        not_picked(paths, picked, paths.len() as int),
        max_bytes,
        picked.len() as int,
    );
    law_sample_spans_the_list(paths, max_files);
}

/// A proof is put together from excerpts of the picked files, in order: each begins with a
/// line that names the file and goes on with the file's text, as much of it as there is
/// room for. It ends with the first file that is cut or has no room, and says so.
pub proof fn law_proofs_are_excerpts(
    files: Seq<SourceFile>,
    picked: Seq<Seq<char>>,
    left_out: Seq<Seq<char>>,
    max_bytes: int,
    n: int,
)
    requires
        0 <= n < picked.len(),
    ensures
        ({
            let path = picked[n];
            let before = proof_upto(files, picked, left_out, max_bytes, n);
            let after = proof_upto(files, picked, left_out, max_bytes, n + 1);
            let heading = "── MARROW PROOF: "@ + path + " ──\n"@;
            let room = max_bytes - text::bytes(before.text) - text::bytes(heading);
            &&& before.full ==> after == before
            &&& !before.full && room <= 0 ==> after.full && after.truncated && after.text
                == before.text && after.included == before.included
            &&& !before.full && room > 0 ==> match text_of(files, path) {
                None => after == before,
                Some(t) => exists|body: Seq<char>|
                    {
                        &&& #[trigger] body.is_prefix_of(t)
                        &&& text::bytes(body) <= room
                        &&& text::bytes(t) <= room ==> body == t
                        &&& after.text == (if before.text.len() > 0 {
                            before.text + "\n"@
                        } else {
                            before.text
                        }) + heading + body
                        &&& after.included == before.included + 1
                        &&& after.truncated == (body.len() < t.len())
                        &&& after.full == after.truncated
                    },
            }
        }),
{
    let path = picked[n];
    let before = proof_upto(files, picked, left_out, max_bytes, n);
    let room = max_bytes - text::bytes(before.text) - text::bytes(excerpt_heading(path));
    if !before.full && room > 0 {
        if let Some(t) = text_of(files, path) {
            text::lemma_byte_prefix(t, room);
            assert(text::byte_prefix(t, room).is_prefix_of(t));
        }
    }
}

proof fn lemma_not_picked_is(
    paths: Seq<Seq<char>>,
    picked: Seq<Seq<char>>,
    n: int,
    free: spec_fn(Seq<char>) -> bool,
)
    requires
        0 <= n <= paths.len(),
        forall|p: Seq<char>| #[trigger] free(p) == !picked.contains(p),
    ensures
        ({
            let all = paths.take(n).filter(free);
            not_picked(paths, picked, n) == all.take(
                if all.len() < 5 {
                    all.len() as int
                } else {
                    5
                },
            )
        }),
    decreases n,
{
    reveal(Seq::filter);
    if n > 0 {
        lemma_not_picked_is(paths, picked, n - 1, free);
        assert(paths.take(n).drop_last() =~= paths.take(n - 1));
        let before = paths.take(n - 1).filter(free);
        let all = paths.take(n).filter(free);
        if free(paths[n - 1]) {
            assert(all == before.push(paths[n - 1]));
            if before.len() < 5 {
                assert(before.take(before.len() as int) =~= before);
                assert(all.take(all.len() as int) =~= all);
            } else {
                assert(all.take(5) =~= before.take(5));
            }
        }
    } else {
        assert(paths.take(0) =~= Seq::empty());
        assert(paths.take(0).filter(free).take(0) =~= Seq::empty());
    }
}

/// What a snapshot says of itself: how many of the touched files it holds and how many it
/// leaves out, that it is a sample when not all of them were picked, that it is cut when
/// its text is, and the first five of those that were not picked, with the file that had
/// no room where there are fewer.
pub proof fn law_snapshots_say_what_they_leave_out(
    snap: CapsuleProofSnapshot,
    files: Seq<SourceFile>,
    paths: Seq<Seq<char>>,
    baseline: Seq<char>,
    max_bytes: int,
    max_files: int,
)
    requires
        is_snapshot(snap, files, paths, baseline, max_bytes, max_files),
        0 < max_files,
    ensures
        snap.included_file_count + snap.omitted_file_count == paths.len(),
        snap.touched_file_count == paths.len(),
        snap.sampled <==> paths.len() > max_files,
        snap.token_source@ == baseline,
        snap.sampled && snap.truncated ==> snap.proof_label@ == "sampled_truncated_proof"@,
        snap.sampled && !snap.truncated ==> snap.proof_label@ == "sampled_proof"@,
        !snap.sampled && snap.truncated ==> snap.proof_label@ == "truncated_proof"@,
        !snap.sampled && !snap.truncated ==> snap.proof_label@ == "cached_proof"@,
        ({
            let picked = sample(paths, max_files);
            let free = paths.filter(|p: Seq<char>| !picked.contains(p));
            proof_of(files, paths, max_bytes, max_files) == proof_upto(
                files,
                picked,
                free.take(
                    if free.len() < 5 {
                        free.len() as int
                    } else {
                        5
                    },
                ),
                max_bytes,
                picked.len() as int,
            ) && snap.proof_text@ == proof_of(files, paths, max_bytes, max_files).text
        }),
{
    let picked = sample(paths, max_files);
    let free = |p: Seq<char>| !picked.contains(p);
    lemma_not_picked_is(paths, picked, paths.len() as int, free);
    assert(paths.take(paths.len() as int) =~= paths);
    if paths.len() > 0 {
        law_sample_spans_the_list(paths, max_files);
    }
}

fn unpicked_preview(paths: &Vec<String>, picked: &Vec<String>) -> (r: Vec<String>)
    ensures
        text::texts(r@) == not_picked(
            text::texts(paths@),
            text::texts(picked@),
            paths@.len() as int,
        ),
{
    let ghost all = text::texts(paths@);
    let ghost sel = text::texts(picked@);
    let mut out: Vec<String> = Vec::new();
    let mut i: usize = 0;
    assert(text::texts(out@) =~= Seq::<Seq<char>>::empty());
    while i < paths.len()
        invariant
            i <= paths.len(),
            all == text::texts(paths@),
            sel == text::texts(picked@),
            text::texts(out@) == not_picked(all, sel, i as int),
        decreases paths.len() - i,
    {
        let path = &paths[i];
        assert(all[i as int] == path@);
        assert(text::texts(out@).len() == out.len());
        let ghost out0 = out@;
        if out.len() < 5 && !listed(picked, path) {
            out.push(path.clone());
            proof {
                text::lemma_texts_push(out0, *path);
            }
        }
        i += 1;
    }
    out
}

/// A bounded excerpt of the touched files.
pub fn build_bounded_proof_snapshot(
    has_root: bool,
    touched: &Vec<String>,
    baseline_source: &str,
    max_bytes: usize,
    max_files: usize,
    files: &Vec<SourceFile>,
) -> (r: Option<CapsuleProofSnapshot>)
    ensures
        r is Some <==> has_snapshot(
            files@,
            text::texts(touched@),
            has_root,
            max_bytes as int,
            max_files as int,
        ),
        r matches Some(snap) ==> is_snapshot(
            snap,
            files@,
            text::texts(touched@),
            baseline_source@,
            max_bytes as int,
            max_files as int,
        ),
{
    if !has_root || touched.len() == 0 || max_bytes == 0 || max_files == 0 {
        return None;
    }
    let ghost paths = text::texts(touched@);
    let selected = sampled_paths(touched, max_files);
    let ghost picked = text::texts(selected@);
    proof {
        law_sample_spans_the_list(paths, max_files as int);
        if paths.len() > max_files && max_files >= 2 {
            assert forall|i: int| 0 <= i < max_files implies 0 <= #[trigger] sample_index(
                i,
                paths.len() as int,
                max_files as int,
            ) < paths.len() by {
                lemma_sample_index(i, paths.len() as int, max_files as int);
            }
        }
        assert(picked =~= sample(paths, max_files as int));
    }
    let sampled = touched.len() > selected.len();
    let mut preview = unpicked_preview(touched, &selected);
    let ghost left_out = text::texts(preview@);
    proof {
        lemma_not_picked(paths, picked, paths.len() as int);
    }
    let mut out = String::new();
    let mut included: usize = 0;
    let mut truncated = false;
    let mut full = false;
    let mut i: usize = 0;
    while i < selected.len()
        invariant
            i <= selected.len(),
            0 < max_bytes,
            picked == text::texts(selected@),
            left_out.len() <= 5,
            included <= i,
            truncated == full,
            ({
                let st = proof_upto(files@, picked, left_out, max_bytes as int, i as int);
                &&& st.text == out@
                &&& st.included == included
                &&& st.truncated == truncated
                &&& st.preview == text::texts(preview@)
                &&& st.full == full
            }),
        decreases selected.len() - i,
    {
        let path = &selected[i];
        assert(picked[i as int] == path@);
        assert(text::texts(preview@).len() == preview.len());
        if !full {
            let heading = "── MARROW PROOF: ".to_owned().concat(path).concat(" ──\n");
            let used = byte_len(&out);
            let heading_len = byte_len(&heading);
            if used.saturating_add(heading_len) >= max_bytes {
                truncated = true;
                full = true;
                let ghost preview0 = preview@;
                if preview.len() < 5 {
                    preview.push(path.clone());
                    proof {
                        text::lemma_texts_push(preview0, *path);
                    }
                }
            } else {
                match file_text(files, path) {
                    Some(t) => {
                        let room: usize = max_bytes - used - heading_len;
                        let body = prefix_by_bytes(t, room);
                        proof {
                            text::lemma_byte_prefix(t@, room as int);
                            text::lemma_bytes_prefix(
                                t@,
                                text::fitting(t@, room as int) as int,
                                t@.len() as int,
                            );
                            assert(t@.take(t@.len() as int) =~= t@);
                        }
                        let cut = byte_len(&body) < byte_len(t);
                        if cut {
                            truncated = true;
                            full = true;
                        }
                        if !out.as_str().is_empty() {
                            out.append("\n");
                        }
                        out.append(&heading);
                        out.append(&body);
                        included += 1;
                    },
                    None => {},
                }
            }
        }
        i += 1;
    }
    if out.as_str().is_empty() {
        return None;
    }
    proof {
        lemma_proof_upto(files@, picked, left_out, max_bytes as int, picked.len() as int);
    }
    let omitted: usize = touched.len() - included;
    Some(
        CapsuleProofSnapshot {
            proof_text: out,
            proof_label: proof_label(sampled, truncated).to_owned(),
            token_source: baseline_source.to_owned(),
            truncated,
            sampled,
            max_bytes,
            max_files,
            touched_file_count: touched.len(),
            included_file_count: included,
            omitted_file_count: omitted,
            omitted_paths_preview: preview,
        },
    )
}

// ── Exact counts ─────────────────────────────────────────────────────────────

/// What has been counted so far.
pub struct Tally {
    pub tokens: int,
    pub measured: int,
    pub failed: Seq<Seq<char>>,
}

/// What the first `n` files come to, given the token count of each, `None` where it
/// could not be had.
pub open spec fn tally_upto(counts: Seq<Option<usize>>, paths: Seq<Seq<char>>, n: int) -> Tally
    decreases n,
{
    if n <= 0 {
        Tally { tokens: 0, measured: 0, failed: Seq::empty() }
    } else {
        let head = tally_upto(counts, paths, n - 1);
        match counts[n - 1] {
            Some(k) => Tally {
                tokens: capped_sum(head.tokens, k as int),
                measured: head.measured + 1,
                failed: head.failed,
            },
            None => Tally {
                tokens: head.tokens,
                measured: head.measured,
                failed: head.failed.push(paths[n - 1]),
            },
        }
    }
}

/// Whether a measurement is the one that the counts give.
pub open spec fn is_measurement(
    m: PreciseTokenMeasurement,
    counts: Seq<Option<usize>>,
    paths: Seq<Seq<char>>,
) -> bool {
    let all = tally_upto(counts, paths, paths.len() as int);
    &&& m.tokens == all.tokens
    &&& m.touched_file_count == paths.len()
    &&& m.measured_file_count == all.measured
    &&& text::texts(m.failed_paths@) == all.failed
    &&& m.tokenizer_mode@ == "cl100k_base"@
}

/// Every touched file is either measured or listed as failed.
pub proof fn law_every_file_is_measured_or_failed(
    counts: Seq<Option<usize>>,
    paths: Seq<Seq<char>>,
    n: int,
)
    requires
        0 <= n <= paths.len(),
        counts.len() == paths.len(),
    ensures
        tally_upto(counts, paths, n).measured + tally_upto(counts, paths, n).failed.len() == n,
        0 <= tally_upto(counts, paths, n).measured <= n,
        0 <= tally_upto(counts, paths, n).tokens <= usize::MAX,
    decreases n,
{
    if n > 0 {
        law_every_file_is_measured_or_failed(counts, paths, n - 1);
    }
}

/// The tokens of every file that could be measured are added up, as far as a size can be
/// held, and these files are counted; every other file is named, in order.
pub proof fn law_tallies_add_up_every_count(counts: Seq<Option<usize>>, paths: Seq<Seq<char>>)
    requires
        counts.len() == paths.len(),
    ensures
        ({
            let all = tally_upto(counts, paths, paths.len() as int);
            &&& all.tokens == counts.fold_left(
                0int,
                |sum: int, count: Option<usize>|
                    match count {
                        Some(k) => if sum + k > usize::MAX {
                            usize::MAX as int
                        } else {
                            sum + k
                        },
                        None => sum,
                    },
            )
            &&& all.measured == counts.filter(|count: Option<usize>| count is Some).len()
            &&& all.failed == Seq::new(paths.len(), |i: int| i).filter_map(
                |i: int|
                    if counts[i] is None {
                        Some(paths[i])
                    } else {
                        None
                    },
            )
        }),
{
    let add_up = |sum: int, count: Option<usize>|
        match count {
            Some(k) => if sum + k > usize::MAX {
                usize::MAX as int
            } else {
                sum + k
            },
            None => sum,
        };
    let there = |count: Option<usize>| count is Some;
    let lacking = |i: int|
        if counts[i] is None {
            Some(paths[i])
        } else {
            None
        };
    lemma_tally(counts, paths, paths.len() as int, add_up, there, lacking);
    assert(counts.take(counts.len() as int) =~= counts);
}

proof fn lemma_tally(
    counts: Seq<Option<usize>>,
    paths: Seq<Seq<char>>,
    n: int,
    add_up: spec_fn(int, Option<usize>) -> int,
    there: spec_fn(Option<usize>) -> bool,
    lacking: spec_fn(int) -> Option<Seq<char>>,
)
    requires
        0 <= n <= paths.len(),
        counts.len() == paths.len(),
        forall|sum: int, count: Option<usize>| #[trigger]
            add_up(sum, count) == match count {
                Some(k) => capped_sum(sum, k as int),
                None => sum,
            },
        forall|count: Option<usize>| #[trigger] there(count) == (count is Some),
        forall|i: int| #[trigger]
            lacking(i) == if counts[i] is None {
                Some(paths[i])
            } else {
                None
            },
    ensures
        ({
            let all = tally_upto(counts, paths, n);
            &&& all.tokens == counts.take(n).fold_left(0int, add_up)
            &&& all.measured == counts.take(n).filter(there).len()
            &&& all.failed == Seq::new(n as nat, |i: int| i).filter_map(lacking)
        }),
    decreases n,
{
    reveal(Seq::fold_left);
    reveal(Seq::filter);
    if n > 0 {
        lemma_tally(counts, paths, n - 1, add_up, there, lacking);
        assert(counts.take(n).drop_last() =~= counts.take(n - 1));
        assert(Seq::new(n as nat, |i: int| i).drop_last() =~= Seq::new((n - 1) as nat, |i: int| i));
        let head = tally_upto(counts, paths, n - 1).failed;
        assert(head.push(paths[n - 1]) =~= head + seq![paths[n - 1]]);
    } else {
        assert(counts.take(0) =~= Seq::empty());
        assert(Seq::new(0, |i: int| i) =~= Seq::<int>::empty());
    }
}

/// Sums the token counts of the touched files.
pub fn tally_tokens(touched: &Vec<String>, counts: &Vec<Option<usize>>) -> (r: PreciseTokenMeasurement)
    requires
        counts.len() == touched.len(),
    ensures
        is_measurement(r, counts@, text::texts(touched@)),
{
    let ghost paths = text::texts(touched@);
    let mut total: usize = 0;
    let mut measured: usize = 0;
    let mut failed: Vec<String> = Vec::new();
    let mut i: usize = 0;
    assert(text::texts(failed@) =~= Seq::<Seq<char>>::empty());
    while i < touched.len()
        invariant
            i <= touched.len(),
            counts.len() == touched.len(),
            paths == text::texts(touched@),
            measured <= i,
            ({
                let st = tally_upto(counts@, paths, i as int);
                &&& st.tokens == total
                &&& st.measured == measured
                &&& st.failed == text::texts(failed@)
            }),
        decreases touched.len() - i,
    {
        assert(paths[i as int] == touched@[i as int]@);
        let ghost failed0 = failed@;
        match counts[i] {
            Some(k) => {
                total = total.saturating_add(k);
                measured += 1;
            },
            None => {
                failed.push(touched[i].clone());
                proof {
                    text::lemma_texts_push(failed0, touched@[i as int]);
                }
            },
        }
        i += 1;
    }
    PreciseTokenMeasurement {
        tokens: total,
        touched_file_count: touched.len(),
        measured_file_count: measured,
        failed_paths: failed,
        tokenizer_mode: "cl100k_base".to_owned(),
    }
}

/// The exact token count of the file at a path, where it can be had.
pub open spec fn count_at(files: Seq<SourceFile>, path: Seq<char>, has_root: bool) -> Option<usize> {
    if has_root {
        match text_of(files, path) {
            Some(t) => tokens::cl100k_count(t),
            None => None,
        }
    } else {
        None
    }
}

/// The exact token counts of the touched files.
pub open spec fn counts_at(
    files: Seq<SourceFile>,
    paths: Seq<Seq<char>>,
    has_root: bool,
) -> Seq<Option<usize>> {
    Seq::new(paths.len(), |i: int| count_at(files, paths[i], has_root))
}

/// Counts the tokens of each touched file exactly.
pub fn measure_files(has_root: bool, touched: &Vec<String>, files: &Vec<SourceFile>) -> (r: PreciseTokenMeasurement)
    ensures
        is_measurement(
            r,
            counts_at(files@, text::texts(touched@), has_root),
            text::texts(touched@),
        ),
{
    let ghost paths = text::texts(touched@);
    let mut counts: Vec<Option<usize>> = Vec::new();
    let mut i: usize = 0;
    while i < touched.len()
        invariant
            i <= touched.len(),
            paths == text::texts(touched@),
            counts.len() == i,
            forall|k: int|
                0 <= k < i ==> #[trigger] counts@[k] == count_at(files@, paths[k], has_root),
        decreases touched.len() - i,
    {
        assert(paths[i as int] == touched@[i as int]@);
        let count: Option<usize> = if has_root {
            match file_text(files, &touched[i]) {
                Some(t) => cl100k_tokens(t),
                None => None,
            }
        } else {
            None
        };
        counts.push(count);
        i += 1;
    }
    assert(counts@ =~= counts_at(files@, paths, has_root));
    tally_tokens(touched, &counts)
}

} // verus!
