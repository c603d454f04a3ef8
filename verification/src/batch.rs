//! Several queries answered together.
use crate::capsule;
use crate::capsule::explore_symbol;
use crate::files::SourceFile;
use crate::graph;
use crate::graph::draw_graph;
use crate::impact;
use crate::impact::{affected_by, format_impact_result, AMBIGUOUS};
use crate::model::{
    BatchExecution, BatchIntent, BatchOptions, BatchQuery, BatchTelemetry, CapsuleOriginalMode,
    CapsuleResult, DependencyDirection, DependencyGraphOptions, ImpactResult,
};
use crate::paths;
use crate::paths::join_path;
use crate::scan;
use crate::scan::{count_marked_lines, starts_with};
use crate::settings::Settings;
use crate::store;
use crate::store::{bind_one, bind_two, read_first_text, read_text, select, Answer, MarrowError};
use crate::symbols;
use crate::symbols::{find_symbols, FIND_SYMBOL_DEFAULT_LIMIT};
use crate::text;
use crate::text::{byte_len, count_text, join, prefix_by_bytes, same};
use crate::trace;
use crate::trace::trace_symbol;
use vstd::prelude::*;
use vstd::string::*;

verus! {

// ── Keys ─────────────────────────────────────────────────────────────────────

/// The number that stands for an optional one, zero for none.
pub open spec fn number_or_zero(n: Option<usize>) -> nat {
    match n {
        Some(k) => k as nat,
        None => 0,
    }
}

/// The name that stands for an optional direction, empty for none.
pub open spec fn direction_or_empty(d: Option<DependencyDirection>) -> Seq<char> {
    match d {
        Some(d) => d.name(),
        None => ""@,
    }
}

/// What a flag is called.
pub open spec fn flag_name(value: bool) -> Seq<char> {
    if value {
        "true"@
    } else {
        "false"@
    }
}

/// What two queries have to share to be the same one, field by field.
pub open spec fn key_fields(repo: Seq<char>, q: BatchQuery) -> Seq<Seq<char>> {
    seq![
        repo,
        q.intent.name(),
        q.target@,
        text::text_or_empty(text::opt_text(q.filepath)),
        text::text_or_empty(text::opt_text(q.kind)),
        text::decimal(number_or_zero(q.limit)),
        text::decimal(number_or_zero(q.depth)),
        direction_or_empty(q.direction),
        flag_name(q.include_source),
        text::decimal(number_or_zero(q.max_nodes)),
    ]
}

/// The key of a query: its fields with a zero character between any two.
pub open spec fn batch_key(repo: Seq<char>, q: BatchQuery) -> Seq<char> {
    text::joined(key_fields(repo, q), "\0"@)
}

/// Whether a text holds no zero character.
pub open spec fn without_zero(s: Seq<char>) -> bool {
    forall|i: int| 0 <= i < s.len() ==> s[i] != '\0'
}

proof fn lemma_split_at_zero(a: Seq<char>, b: Seq<char>, x: Seq<char>, y: Seq<char>)
    requires
        x + "\0"@ + a == y + "\0"@ + b,
        without_zero(a),
        without_zero(b),
    ensures
        a == b,
        x == y,
{
    reveal_strlit("\0");
    let s = x + "\0"@ + a;
    let t = y + "\0"@ + b;
    if a.len() < b.len() {
        let k = t.len() - a.len() - 1;
        assert(s[k] == '\0');
        assert(t[k] == b[k - y.len() - 1]);
    } else if b.len() < a.len() {
        let k = s.len() - b.len() - 1;
        assert(t[k] == '\0');
        assert(s[k] == a[k - x.len() - 1]);
    }
    assert(x.len() == y.len());
    assert forall|i: int| 0 <= i < x.len() implies x[i] == y[i] by {
        assert(s[i] == x[i]);
        assert(t[i] == y[i]);
    }
    assert forall|i: int| 0 <= i < a.len() implies a[i] == b[i] by {
        assert(s[x.len() + 1 + i] == a[i]);
        assert(t[x.len() + 1 + i] == b[i]);
    }
    assert(x =~= y);
    assert(a =~= b);
}

proof fn lemma_joined_injective(p: Seq<Seq<char>>, q: Seq<Seq<char>>)
    requires
        p.len() == q.len(),
        text::joined(p, "\0"@) == text::joined(q, "\0"@),
        forall|i: int| 0 < i < p.len() ==> without_zero(#[trigger] p[i]),
        forall|i: int| 0 < i < q.len() ==> without_zero(#[trigger] q[i]),
    ensures
        p == q,
    decreases p.len(),
{
    if p.len() == 0 {
        assert(p =~= q);
    } else if p.len() == 1 {
        assert(p[0] == q[0]);
        assert(p =~= q);
    } else {
        lemma_split_at_zero(
            p.last(),
            q.last(),
            text::joined(p.drop_last(), "\0"@),
            text::joined(q.drop_last(), "\0"@),
        );
        assert forall|i: int| 0 < i < p.drop_last().len() implies without_zero(
            #[trigger] p.drop_last()[i],
        ) by {
            assert(p.drop_last()[i] == p[i]);
        }
        assert forall|i: int| 0 < i < q.drop_last().len() implies without_zero(
            #[trigger] q.drop_last()[i],
        ) by {
            assert(q.drop_last()[i] == q[i]);
        }
        lemma_joined_injective(p.drop_last(), q.drop_last());
        assert(p =~= p.drop_last().push(p.last()));
        assert(q =~= q.drop_last().push(q.last()));
    }
}

/// Whether the free texts of a query hold no zero character.
pub open spec fn plain_query(q: BatchQuery) -> bool {
    &&& without_zero(q.target@)
    &&& without_zero(text::text_or_empty(text::opt_text(q.filepath)))
    &&& without_zero(text::text_or_empty(text::opt_text(q.kind)))
}

proof fn lemma_decimal_without_zero(n: nat)
    ensures
        without_zero(text::decimal(n)),
{
    assert forall|i: int| 0 <= i < text::decimal(n).len() implies text::decimal(n)[i] != '\0' by {
        text::lemma_decimal_digits(n, i);
    }
}

proof fn lemma_fields_without_zero(repo: Seq<char>, q: BatchQuery)
    requires
        plain_query(q),
    ensures
        forall|i: int| 0 < i < 10 ==> without_zero(#[trigger] key_fields(repo, q)[i]),
{
    let f = key_fields(repo, q);
    lemma_decimal_without_zero(number_or_zero(q.limit));
    lemma_decimal_without_zero(number_or_zero(q.depth));
    lemma_decimal_without_zero(number_or_zero(q.max_nodes));
    reveal_strlit("find_symbol");
    reveal_strlit("explore_symbol");
    reveal_strlit("trace_flow");
    reveal_strlit("refactor_symbol");
    reveal_strlit("read_node");
    reveal_strlit("dependency_graph");
    reveal_strlit("callers");
    reveal_strlit("callees");
    reveal_strlit("both");
    reveal_strlit("");
    reveal_strlit("true");
    reveal_strlit("false");
    assert(without_zero(q.intent.name()));
    assert(without_zero(direction_or_empty(q.direction)));
    assert(without_zero(flag_name(q.include_source)));
    assert(f[1] == q.intent.name());
    assert(f[2] == q.target@);
    assert(f[3] == text::text_or_empty(text::opt_text(q.filepath)));
    assert(f[4] == text::text_or_empty(text::opt_text(q.kind)));
    assert(f[5] == text::decimal(number_or_zero(q.limit)));
    assert(f[6] == text::decimal(number_or_zero(q.depth)));
    assert(f[7] == direction_or_empty(q.direction));
    assert(f[8] == flag_name(q.include_source));
    assert(f[9] == text::decimal(number_or_zero(q.max_nodes)));
}

proof fn lemma_direction_or_empty(
    a: Option<DependencyDirection>,
    b: Option<DependencyDirection>,
)
    requires
        direction_or_empty(a) == direction_or_empty(b),
    ensures
        a == b,
{
    reveal_strlit("callers");
    reveal_strlit("callees");
    reveal_strlit("both");
    reveal_strlit("");
    assert(""@.len() == 0 && "callers"@.len() == 7 && "callees"@.len() == 7 && "both"@.len() == 4);
    if let Some(d) = a {
        crate::model::law_direction_names_read_back(d);
    }
    if let Some(d) = b {
        crate::model::law_direction_names_read_back(d);
    }
}

/// Two queries to one repository have the same key exactly when they agree field by
/// field, as long as their texts hold no zero character. A filter that is absent and
/// one that is empty count as the same, and so do a number that is absent and zero.
pub proof fn law_keys_tell_queries_apart(repo: Seq<char>, a: BatchQuery, b: BatchQuery)
    requires
        plain_query(a),
        plain_query(b),
    ensures
        batch_key(repo, a) == batch_key(repo, b) <==> key_fields(repo, a) == key_fields(repo, b),
        batch_key(repo, a) == batch_key(repo, b) ==> {
            &&& a.intent == b.intent
            &&& a.target@ == b.target@
            &&& a.include_source == b.include_source
            &&& a.direction == b.direction
            &&& number_or_zero(a.limit) == number_or_zero(b.limit)
            &&& number_or_zero(a.depth) == number_or_zero(b.depth)
            &&& number_or_zero(a.max_nodes) == number_or_zero(b.max_nodes)
            &&& text::text_or_empty(text::opt_text(a.filepath)) == text::text_or_empty(
                text::opt_text(b.filepath),
            )
            &&& text::text_or_empty(text::opt_text(a.kind)) == text::text_or_empty(
                text::opt_text(b.kind),
            )
        },
{
    if batch_key(repo, a) == batch_key(repo, b) {
        let f = key_fields(repo, a);
        let g = key_fields(repo, b);
        lemma_fields_without_zero(repo, a);
        lemma_fields_without_zero(repo, b);
        lemma_joined_injective(f, g);
        assert(f[1] == a.intent.name() && g[1] == b.intent.name());
        crate::model::law_intent_names_read_back(a.intent);
        crate::model::law_intent_names_read_back(b.intent);
        assert(f[2] == a.target@ && g[2] == b.target@);
        assert(f[3] == text::text_or_empty(text::opt_text(a.filepath)));
        assert(g[3] == text::text_or_empty(text::opt_text(b.filepath)));
        assert(f[4] == text::text_or_empty(text::opt_text(a.kind)));
        assert(g[4] == text::text_or_empty(text::opt_text(b.kind)));
        assert(f[5] == text::decimal(number_or_zero(a.limit)));
        assert(g[5] == text::decimal(number_or_zero(b.limit)));
        text::lemma_decimal_injective(number_or_zero(a.limit), number_or_zero(b.limit));
        assert(f[6] == text::decimal(number_or_zero(a.depth)));
        assert(g[6] == text::decimal(number_or_zero(b.depth)));
        text::lemma_decimal_injective(number_or_zero(a.depth), number_or_zero(b.depth));
        assert(f[7] == direction_or_empty(a.direction));
        assert(g[7] == direction_or_empty(b.direction));
        lemma_direction_or_empty(a.direction, b.direction);
        assert(f[8] == flag_name(a.include_source) && g[8] == flag_name(b.include_source));
        reveal_strlit("true");
        reveal_strlit("false");
        assert("true"@.len() != "false"@.len());
        assert(f[9] == text::decimal(number_or_zero(a.max_nodes)));
        assert(g[9] == text::decimal(number_or_zero(b.max_nodes)));
        text::lemma_decimal_injective(number_or_zero(a.max_nodes), number_or_zero(b.max_nodes));
    }
}

fn text_or_blank(v: &Option<String>) -> (r: String)
    ensures
        r@ == text::text_or_empty(text::opt_text(*v)),
{
    match v {
        Some(s) => s.clone(),
        None => String::new(),
    }
}

fn number_text(n: Option<usize>) -> (r: String)
    ensures
        r@ == text::decimal(number_or_zero(n)),
{
    match n {
        Some(k) => count_text(k),
        None => count_text(0),
    }
}

/// The key of a query.
pub fn canonical_batch_key(repo_id: &str, query: &BatchQuery) -> (r: String)
    ensures
        r@ == batch_key(repo_id@, *query),
{
    let mut fields: Vec<String> = Vec::new();
    fields.push(repo_id.to_owned());
    fields.push(query.intent.canonical_name().to_owned());
    fields.push(query.target.clone());
    fields.push(text_or_blank(&query.filepath));
    fields.push(text_or_blank(&query.kind));
    fields.push(number_text(query.limit));
    fields.push(number_text(query.depth));
    let direction: &str = match query.direction {
        Some(d) => d.label(),
        None => "",
    };
    fields.push(direction.to_owned());
    let flag: &str = if query.include_source {
        "true"
    } else {
        "false"
    };
    fields.push(flag.to_owned());
    fields.push(number_text(query.max_nodes));
    assert(text::texts(fields@) =~= key_fields(repo_id@, *query));
    join(&fields, "\0")
}

// ── Sections ─────────────────────────────────────────────────────────────────

/// A query's answer under its heading.
pub open spec fn section_text(q: BatchQuery, ordinal: nat, total: nat, body: Seq<char>) -> Seq<
    char,
> {
    let title = "## ["@ + text::decimal(ordinal) + "/"@ + text::decimal(total) + "] "@
        + q.intent.heading() + " — "@ + q.target@;
    let located = match q.filepath {
        Some(path) => title + " ("@ + path@ + ")"@,
        None => title,
    };
    located + "\n"@ + body
}

/// A query's answer under its heading.
pub fn format_batch_section(query: &BatchQuery, ordinal: usize, total: usize, body: &str) -> (r: String)
    ensures
        r@ == section_text(*query, ordinal as nat, total as nat, body@),
{
    let mut title = "## [".to_owned().concat(&count_text(ordinal)).concat("/").concat(
        &count_text(total),
    ).concat("] ").concat(query.intent.section_label()).concat(" — ").concat(&query.target);
    match &query.filepath {
        Some(path) => {
            title.append(" (");
            title.append(path);
            title.append(")");
        },
        None => {},
    }
    title.concat("\n").concat(body)
}

/// The numbers from `from` to `total`, in order.
pub open spec fn numbers(from: nat, total: nat) -> Seq<Seq<char>>
    decreases total + 1 - from,
{
    if from > total {
        Seq::empty()
    } else {
        seq![text::decimal(from)] + numbers(from + 1, total)
    }
}

/// What is said of the queries, from the `from`th of `total` on, that no longer fit.
pub open spec fn skipped_note(from: nat, total: nat, max_bytes: usize) -> Seq<char> {
    "\n\n[Batch output truncated at "@ + text::decimal(max_bytes as nat)
        + " bytes. Truncated/skipped query indexes: "@ + text::joined(
        numbers(from, total),
        ", "@,
    ) + ".]"@
}

/// What stands between two sections.
pub open spec fn separator(before: Seq<char>) -> Seq<char> {
    if before.len() == 0 {
        ""@
    } else {
        "\n\n"@
    }
}

/// Whether one more section fits behind what is there.
pub open spec fn section_fits(before: Seq<char>, section: Seq<char>, max_bytes: usize) -> bool {
    text::bytes(before) + text::bytes(separator(before)) + text::bytes(section) <= max_bytes
}

/// How a batch ends when a section does not fit: as much of it as there is room for,
/// then the note; the note alone, cut where need be, when there is room for no more.
pub open spec fn cut_off(
    before: Seq<char>,
    section: Seq<char>,
    note: Seq<char>,
    max_bytes: usize,
) -> Seq<char> {
    if text::bytes(note) >= max_bytes {
        text::byte_prefix(note, max_bytes as int)
    } else {
        let start = before + separator(before);
        let room = max_bytes - text::bytes(start) - text::bytes(note);
        let filled = start + text::byte_prefix(
            section,
            if room < 0 {
                0
            } else {
                room
            },
        );
        if text::bytes(filled) + text::bytes(note) > max_bytes {
            text::byte_prefix(filled, max_bytes - text::bytes(note)) + note
        } else {
            filled + note
        }
    }
}

/// What the sections from the `i`th on add to what is there.
pub open spec fn capped_from(
    before: Seq<char>,
    sections: Seq<Seq<char>>,
    max_bytes: usize,
    i: int,
) -> Seq<char>
    decreases sections.len() - i,
{
    if i >= sections.len() {
        before
    } else if section_fits(before, sections[i], max_bytes) {
        capped_from(before + separator(before) + sections[i], sections, max_bytes, i + 1)
    } else {
        cut_off(
            before,
            sections[i],
            skipped_note((i + 1) as nat, sections.len(), max_bytes),
            max_bytes,
        )
    }
}

/// Whether the sections from the `i`th on do not all fit.
pub open spec fn overflows_from(
    before: Seq<char>,
    sections: Seq<Seq<char>>,
    max_bytes: usize,
    i: int,
) -> bool
    decreases sections.len() - i,
{
    if i >= sections.len() {
        false
    } else if section_fits(before, sections[i], max_bytes) {
        overflows_from(before + separator(before) + sections[i], sections, max_bytes, i + 1)
    } else {
        true
    }
}

/// The sections one behind the other, at most `max_bytes` bytes.
pub open spec fn capped_sections(sections: Seq<Seq<char>>, max_bytes: usize) -> Seq<char> {
    if max_bytes == 0 {
        Seq::empty()
    } else {
        capped_from(Seq::empty(), sections, max_bytes, 0)
    }
}

/// Whether the sections do not all fit.
pub open spec fn overflows(sections: Seq<Seq<char>>, max_bytes: usize) -> bool {
    if max_bytes == 0 {
        sections.len() > 0
    } else {
        overflows_from(Seq::empty(), sections, max_bytes, 0)
    }
}

proof fn lemma_cut_off_fits(
    before: Seq<char>,
    section: Seq<char>,
    note: Seq<char>,
    max_bytes: usize,
)
    ensures
        text::bytes(cut_off(before, section, note, max_bytes)) <= max_bytes,
{
    if text::bytes(note) >= max_bytes {
        text::lemma_byte_prefix(note, max_bytes as int);
    } else {
        let start = before + separator(before);
        let room = max_bytes - text::bytes(start) - text::bytes(note);
        let filled = start + text::byte_prefix(
            section,
            if room < 0 {
                0
            } else {
                room
            },
        );
        let keep = max_bytes - text::bytes(note);
        text::lemma_byte_prefix(filled, keep);
        text::lemma_bytes_concat(text::byte_prefix(filled, keep), note);
        text::lemma_bytes_concat(filled, note);
    }
}

proof fn lemma_capped_from(before: Seq<char>, sections: Seq<Seq<char>>, max_bytes: usize, i: int)
    requires
        text::bytes(before) <= max_bytes,
        0 <= i <= sections.len(),
    ensures
        text::bytes(capped_from(before, sections, max_bytes, i)) <= max_bytes,
        !overflows_from(before, sections, max_bytes, i) ==> before.is_prefix_of(
            capped_from(before, sections, max_bytes, i),
        ),
    decreases sections.len() - i,
{
    if i < sections.len() {
        if section_fits(before, sections[i], max_bytes) {
            let next = before + separator(before) + sections[i];
            text::lemma_bytes_concat(before + separator(before), sections[i]);
            text::lemma_bytes_concat(before, separator(before));
            lemma_capped_from(next, sections, max_bytes, i + 1);
            assert(before.is_prefix_of(next));
            if !overflows_from(before, sections, max_bytes, i) {
                let whole = capped_from(next, sections, max_bytes, i + 1);
                assert(next =~= whole.subrange(0, next.len() as int));
                assert(before =~= whole.subrange(0, before.len() as int)) by {
                    assert forall|k: int| 0 <= k < before.len() implies before[k] == whole[k] by {
                        assert(next[k] == whole.subrange(0, next.len() as int)[k]);
                    }
                }
            }
        } else {
            lemma_cut_off_fits(
                before,
                sections[i],
                skipped_note((i + 1) as nat, sections.len(), max_bytes),
                max_bytes,
            );
        }
    } else {
        assert(before =~= before.subrange(0, before.len() as int));
    }
}

/// The answer to a batch never takes more bytes than it may.
pub proof fn law_batch_fits_its_limit(sections: Seq<Seq<char>>, max_bytes: usize)
    ensures
        text::bytes(capped_sections(sections, max_bytes)) <= max_bytes,
{
    if max_bytes > 0 {
        lemma_capped_from(Seq::empty(), sections, max_bytes, 0);
    }
}

/// The first `k` sections one behind the other, with an empty line between any two.
pub open spec fn first_sections(sections: Seq<Seq<char>>, k: int) -> Seq<char> {
    if k <= 0 {
        Seq::empty()
    } else {
        sections[0] + sections.subrange(1, k).flat_map(|s: Seq<char>| "\n\n"@ + s)
    }
}

proof fn lemma_one_section_more(sections: Seq<Seq<char>>, k: int)
    requires
        0 <= k < sections.len(),
        forall|i: int| 0 <= i < sections.len() ==> (#[trigger] sections[i]).len() > 0,
    ensures
        first_sections(sections, k + 1) == first_sections(sections, k) + separator(
            first_sections(sections, k),
        ) + sections[k],
        k > 0 ==> first_sections(sections, k).len() > 0,
{
    let f = |s: Seq<char>| "\n\n"@ + s;
    reveal_strlit("");
    if k == 0 {
        assert(sections.subrange(1, 1) =~= Seq::<Seq<char>>::empty());
        assert(Seq::<Seq<char>>::empty().flat_map(f) =~= Seq::<char>::empty());
        assert(first_sections(sections, 1) =~= Seq::<char>::empty() + ""@ + sections[0]);
    } else {
        let front = sections.subrange(1, k);
        assert(sections.subrange(1, k + 1) =~= front.push(sections[k]));
        front.lemma_flat_map_push(f, sections[k]);
        text::lemma_put_together(sections[0], front.flat_map(f), f(sections[k]));
        text::lemma_put_together(first_sections(sections, k), "\n\n"@, sections[k]);
    }
}

proof fn lemma_sections_grow(sections: Seq<Seq<char>>, j: int, k: int)
    requires
        0 <= j <= k <= sections.len(),
        forall|i: int| 0 <= i < sections.len() ==> (#[trigger] sections[i]).len() > 0,
    ensures
        text::bytes(first_sections(sections, j)) <= text::bytes(first_sections(sections, k)),
    decreases k - j,
{
    if j < k {
        lemma_sections_grow(sections, j, k - 1);
        lemma_one_section_more(sections, k - 1);
        let before = first_sections(sections, k - 1);
        text::lemma_bytes_concat(before, separator(before));
        text::lemma_bytes_concat(before + separator(before), sections[k - 1]);
    }
}

proof fn lemma_numbers(from: nat, total: nat)
    requires
        from <= total + 1,
    ensures
        numbers(from, total) == Seq::new(
            (total + 1 - from) as nat,
            |i: int| text::decimal((from + i) as nat),
        ),
    decreases total + 1 - from,
{
    let all = Seq::new((total + 1 - from) as nat, |i: int| text::decimal((from + i) as nat));
    if from <= total {
        lemma_numbers(from + 1, total);
    }
    assert(numbers(from, total) =~= all);
}

proof fn lemma_prefix_of_longer(a: Seq<char>, b: Seq<char>, c: Seq<char>)
    requires
        a.is_prefix_of(b),
        b.is_prefix_of(c),
    ensures
        a.is_prefix_of(c),
{
    assert(a =~= c.subrange(0, a.len() as int)) by {
        assert forall|i: int| 0 <= i < a.len() implies a[i] == c[i] by {
            assert(a[i] == b.subrange(0, a.len() as int)[i]);
            assert(b[i] == c.subrange(0, b.len() as int)[i]);
        }
    }
}

/// Whether a text is what a batch comes to when its sections do not all fit: as much of
/// the front as there is room for, up to the first section that does not fit, and behind
/// it the note that names that section and all that follow; where there is no room for
/// more than the note, the beginning of the note.
pub open spec fn is_cut_batch(
    sections: Seq<Seq<char>>,
    max_bytes: usize,
    k: int,
    shown: Seq<char>,
) -> bool {
    let note = "\n\n[Batch output truncated at "@ + text::decimal(max_bytes as nat)
        + " bytes. Truncated/skipped query indexes: "@ + text::joined(
        Seq::new((sections.len() - k) as nat, |i: int| text::decimal((k + 1 + i) as nat)),
        ", "@,
    ) + ".]"@;
    &&& 0 <= k < sections.len()
    &&& text::bytes(first_sections(sections, k)) <= max_bytes
    &&& text::bytes(first_sections(sections, k + 1)) > max_bytes
    &&& text::bytes(note) >= max_bytes ==> shown.is_prefix_of(note)
    &&& text::bytes(note) < max_bytes ==> note.is_suffix_of(shown) && shown.take(
        shown.len() - note.len(),
    ).is_prefix_of(first_sections(sections, k + 1))
}

proof fn lemma_capped_text(sections: Seq<Seq<char>>, max_bytes: usize, i: int)
    requires
        0 <= i <= sections.len(),
        forall|j: int| 0 <= j < sections.len() ==> (#[trigger] sections[j]).len() > 0,
        text::bytes(first_sections(sections, i)) <= max_bytes,
    ensures
        ({
            let before = first_sections(sections, i);
            let shown = capped_from(before, sections, max_bytes, i);
            if overflows_from(before, sections, max_bytes, i) {
                exists|k: int| #[trigger] is_cut_batch(sections, max_bytes, k, shown)
            } else {
                &&& shown == first_sections(sections, sections.len() as int)
                &&& text::bytes(shown) <= max_bytes
            }
        }),
    decreases sections.len() - i,
{
    if i < sections.len() {
        let before = first_sections(sections, i);
        let start = before + separator(before);
        lemma_one_section_more(sections, i);
        text::lemma_bytes_concat(before, separator(before));
        text::lemma_bytes_concat(start, sections[i]);
        if section_fits(before, sections[i], max_bytes) {
            lemma_capped_text(sections, max_bytes, i + 1);
            assert(capped_from(before, sections, max_bytes, i) == capped_from(
                first_sections(sections, i + 1),
                sections,
                max_bytes,
                i + 1,
            ));
        } else {
            lemma_numbers((i + 1) as nat, sections.len());
            let note = skipped_note((i + 1) as nat, sections.len(), max_bytes);
            let shown = cut_off(before, sections[i], note, max_bytes);
            let listed = Seq::new(
                (sections.len() - i) as nat,
                |j: int| text::decimal((i + 1 + j) as nat),
            );
            assert(numbers((i + 1) as nat, sections.len()) =~= listed);
            if text::bytes(note) >= max_bytes {
                text::lemma_byte_prefix(note, max_bytes as int);
            } else {
                let room = max_bytes - text::bytes(start) - text::bytes(note);
                let part = text::byte_prefix(
                    sections[i],
                    if room < 0 {
                        0
                    } else {
                        room
                    },
                );
                text::lemma_byte_prefix(
                    sections[i],
                    if room < 0 {
                        0
                    } else {
                        room
                    },
                );
                let filled = start + part;
                let whole = first_sections(sections, i + 1);
                assert(filled.is_prefix_of(whole)) by {
                    assert(filled =~= whole.subrange(0, filled.len() as int));
                }
                let keep = max_bytes - text::bytes(note);
                text::lemma_byte_prefix(filled, keep);
                let front = if text::bytes(filled) + text::bytes(note) > max_bytes {
                    text::byte_prefix(filled, keep)
                } else {
                    filled
                };
                assert(filled.is_prefix_of(filled)) by {
                    assert(filled =~= filled.subrange(0, filled.len() as int));
                }
                lemma_prefix_of_longer(front, filled, whole);
                assert(shown == front + note);
                assert((front + note).take(front.len() as int) =~= front);
                assert(note.is_suffix_of(front + note)) by {
                    assert(note =~= (front + note).subrange(
                        front.len() as int,
                        (front + note).len() as int,
                    ));
                }
            }
            assert(capped_from(before, sections, max_bytes, i) == shown);
            assert(is_cut_batch(sections, max_bytes, i, shown));
        }
    }
}

/// A batch whose sections fit holds every one of them, in order, with an empty line
/// between any two. Only one whose sections take more bytes than it may is cut, and then
/// it says from which section on.
pub proof fn law_batches_hold_every_section(sections: Seq<Seq<char>>, max_bytes: usize)
    requires
        max_bytes > 0,
        forall|i: int| 0 <= i < sections.len() ==> (#[trigger] sections[i]).len() > 0,
    ensures
        overflows(sections, max_bytes) <==> text::bytes(
            first_sections(sections, sections.len() as int),
        ) > max_bytes,
        !overflows(sections, max_bytes) ==> capped_sections(sections, max_bytes)
            == first_sections(sections, sections.len() as int),
        overflows(sections, max_bytes) ==> exists|k: int| #[trigger]
            is_cut_batch(sections, max_bytes, k, capped_sections(sections, max_bytes)),
{
    assert(text::bytes(Seq::<char>::empty()) == 0) by {
        reveal_strlit("");
        text::lemma_bytes_concat(Seq::empty(), Seq::empty());
        assert(Seq::<char>::empty() + Seq::<char>::empty() =~= Seq::<char>::empty());
    }
    lemma_capped_text(sections, max_bytes, 0);
    if overflows(sections, max_bytes) {
        let k = choose|k: int| #[trigger]
            is_cut_batch(sections, max_bytes, k, capped_sections(sections, max_bytes));
        lemma_sections_grow(sections, k + 1, sections.len() as int);
    }
}

fn number_list(from: usize, total: usize) -> (r: Vec<String>)
    requires
        1 <= from <= total,
        total < usize::MAX,
    ensures
        text::texts(r@) == numbers(from as nat, total as nat),
{
    let mut out: Vec<String> = Vec::new();
    let mut i: usize = from;
    assert(text::texts(out@) + numbers(from as nat, total as nat) =~= numbers(
        from as nat,
        total as nat,
    ));
    while i <= total
        invariant
            from <= i <= total + 1,
            total < usize::MAX,
            text::texts(out@) + numbers(i as nat, total as nat) == numbers(
                from as nat,
                total as nat,
            ),
        decreases total + 1 - i,
    {
        let ghost before = out@;
        let number = count_text(i);
        out.push(number);
        proof {
            text::lemma_texts_push(before, number);
            assert(text::texts(before) + numbers(i as nat, total as nat) =~= text::texts(out@)
                + numbers((i + 1) as nat, total as nat));
        }
        i += 1;
    }
    assert(text::texts(out@) + numbers(i as nat, total as nat) =~= text::texts(out@));
    out
}

/// Puts sections one behind the other until they no longer fit, and says whether
/// they did not.
pub fn cap_batch_sections_fifo(sections: &Vec<String>, max_bytes: usize) -> (r: (String, bool))
    requires
        sections.len() < usize::MAX,
    ensures
        r.0@ == capped_sections(text::texts(sections@), max_bytes),
        r.1 == overflows(text::texts(sections@), max_bytes),
        text::bytes(r.0@) <= max_bytes,
{
    let ghost all = text::texts(sections@);
    proof {
        law_batch_fits_its_limit(all, max_bytes);
        reveal_strlit("");
    }
    if max_bytes == 0 {
        return (String::new(), sections.len() > 0);
    }
    let mut out = String::new();
    let mut i: usize = 0;
    while i < sections.len()
        invariant
            i <= sections.len(),
            sections.len() < usize::MAX,
            all == text::texts(sections@),
            max_bytes > 0,
            text::bytes(out@) <= max_bytes,
            text::bytes(capped_sections(all, max_bytes)) <= max_bytes,
            capped_sections(all, max_bytes) == capped_from(out@, all, max_bytes, i as int),
            overflows(all, max_bytes) == overflows_from(out@, all, max_bytes, i as int),
        decreases sections.len() - i,
    {
        let section = &sections[i];
        assert(all[i as int] == section@);
        let sep: &str = if out.as_str().is_empty() {
            ""
        } else {
            "\n\n"
        };
        assert(sep@ == separator(out@));
        let used = byte_len(&out);
        let sep_len = byte_len(sep);
        let section_len = byte_len(section);
        let left = max_bytes - used;
        let ghost before = out@;
        if sep_len <= left && section_len <= left - sep_len {
            out.append(sep);
            out.append(section);
            proof {
                text::lemma_bytes_concat(before, sep@);
                text::lemma_bytes_concat(before + sep@, section@);
            }
            i += 1;
            continue;
        }
        let note = "\n\n[Batch output truncated at ".to_owned().concat(
            &count_text(max_bytes),
        ).concat(" bytes. Truncated/skipped query indexes: ").concat(
            &join(&number_list(i + 1, sections.len()), ", "),
        ).concat(".]");
        let note_len = byte_len(&note);
        if note_len >= max_bytes {
            return (prefix_by_bytes(&note, max_bytes), true);
        }
        out.append(sep);
        let start_len = byte_len(&out);
        let room: usize = if start_len <= max_bytes && note_len <= max_bytes - start_len {
            max_bytes - start_len - note_len
        } else {
            0
        };
        out.append(&prefix_by_bytes(section, room));
        if byte_len(&out) > max_bytes - note_len {
            let kept = prefix_by_bytes(&out, max_bytes - note_len);
            return (kept.concat(&note), true);
        }
        return (out.concat(&note), true);
    }
    (out, false)
}

// ── Answers ──────────────────────────────────────────────────────────────────

/// What one query gave.
#[derive(Debug)]
pub struct ExecutedBatchQuery {
    pub text: String,
    pub telemetry: Option<BatchTelemetry>,
    /// Whether several nodes have the name that was asked about.
    pub ambiguous: bool,
}

pub const SYMBOL_FILE_SQL: &'static str =
    "SELECT n.file_path, r.root_path FROM nodes n JOIN repositories r ON r.id = n.repo_id WHERE n.symbol_name = ?1 AND n.repo_id = ?2 ORDER BY n.file_path ASC, n.id ASC LIMIT 1";

pub const REPOSITORY_ROOT_SQL: &'static str =
    "SELECT root_path FROM repositories WHERE id = ?1 LIMIT 1";

/// The file that an answer of file and root names, if it does.
pub open spec fn located(answer: Seq<Result<Vec<store::Cell>, rusqlite::Error>>) -> Option<
    Seq<char>,
> {
    if answer.len() == 0 {
        None
    } else {
        match answer[0] {
            Ok(row) => match (store::text_at(row@, 0), store::text_at(row@, 1)) {
                (Some(file), Some(root)) => Some(paths::joined_path(root, file)),
                _ => None,
            },
            Err(_) => None,
        }
    }
}

/// The file that an answer of file and root names, if it does.
pub fn locate(answer: &Answer) -> (r: Option<String>)
    ensures
        text::opt_text(r) == located(answer@),
{
    if answer.len() == 0 {
        return None;
    }
    match &answer[0] {
        Ok(row) => match (read_text(row, 0), read_text(row, 1)) {
            (Some(file), Some(root)) => Some(join_path(&root, &file)),
            _ => None,
        },
        Err(_) => None,
    }
}

/// Whether a database could place a symbol in this file: below the repository's root
/// where that is known, else the path or the name as it was given.
pub open spec fn could_place(
    db: rusqlite::Connection,
    repo: Seq<char>,
    symbol: Seq<char>,
    filepath: Option<Seq<char>>,
    file: Seq<char>,
) -> bool {
    match filepath {
        Some(path) => {
            ||| exists|answer: Seq<Result<Vec<store::Cell>, rusqlite::Error>>|
                {
                    &&& #[trigger] store::could_answer(
                        db,
                        REPOSITORY_ROOT_SQL@,
                        store::one_text(repo),
                        answer,
                    )
                    &&& store::first_text(answer) matches Some(root) && file == paths::joined_path(
                        root,
                        path,
                    )
                }
            ||| file == path && store::could_lack_text(
                db,
                REPOSITORY_ROOT_SQL@,
                store::one_text(repo),
            )
        },
        None => {
            ||| exists|answer: Seq<Result<Vec<store::Cell>, rusqlite::Error>>|
                {
                    &&& #[trigger] store::could_answer(
                        db,
                        SYMBOL_FILE_SQL@,
                        store::two_texts(symbol, repo),
                        answer,
                    )
                    &&& file == match located(answer) {
                        Some(place) => place,
                        None => symbol,
                    }
                }
            ||| file == symbol && exists|why: rusqlite::Error| #[trigger]
                store::could_refuse(db, SYMBOL_FILE_SQL@, store::two_texts(symbol, repo), why)
        },
    }
}

/// The file of a symbol is the one that is named, below the repository's root; where none
/// is named, the one that the database could name first for the symbol, below the root that
/// stands beside it. Where the database has no such root, the file or the symbol is told as
/// it was given.
pub proof fn law_files_are_placed_below_the_root(
    db: rusqlite::Connection,
    repo: Seq<char>,
    symbol: Seq<char>,
    filepath: Option<Seq<char>>,
    file: Seq<char>,
)
    requires
        could_place(db, repo, symbol, filepath, file),
    ensures
        filepath matches Some(path) ==> file == path || exists|
            root: Seq<char>,
            answer: Seq<Result<Vec<store::Cell>, rusqlite::Error>>,
        |
            {
                &&& file == #[trigger] paths::joined_path(root, path)
                &&& #[trigger] store::could_answer(
                    db,
                    REPOSITORY_ROOT_SQL@,
                    store::one_text(repo),
                    answer,
                )
                &&& store::first_text(answer) == Some(root)
            },
        filepath is None ==> file == symbol || exists|
            root: Seq<char>,
            path: Seq<char>,
            answer: Seq<Result<Vec<store::Cell>, rusqlite::Error>>,
        |
            {
                &&& file == #[trigger] paths::joined_path(root, path)
                &&& #[trigger] store::could_answer(
                    db,
                    SYMBOL_FILE_SQL@,
                    store::two_texts(symbol, repo),
                    answer,
                )
                &&& answer.len() > 0
                &&& answer[0] matches Ok(row) && store::text_at(row@, 0) == Some(path)
                    && store::text_at(row@, 1) == Some(root)
            },
{
    match filepath {
        Some(path) => {
            if file != path {
                let answer = choose|answer: Seq<Result<Vec<store::Cell>, rusqlite::Error>>|
                    {
                        &&& #[trigger] store::could_answer(
                            db,
                            REPOSITORY_ROOT_SQL@,
                            store::one_text(repo),
                            answer,
                        )
                        &&& store::first_text(answer) matches Some(root) && file
                            == paths::joined_path(root, path)
                    };
                let root = store::first_text(answer)->Some_0;
                assert(file == paths::joined_path(root, path));
            }
        },
        None => {
            if file != symbol {
                let answer = choose|answer: Seq<Result<Vec<store::Cell>, rusqlite::Error>>|
                    {
                        &&& #[trigger] store::could_answer(
                            db,
                            SYMBOL_FILE_SQL@,
                            store::two_texts(symbol, repo),
                            answer,
                        )
                        &&& file == match located(answer) {
                            Some(place) => place,
                            None => symbol,
                        }
                    };
                let row = answer[0]->Ok_0@;
                let path = store::text_at(row, 0)->Some_0;
                let root = store::text_at(row, 1)->Some_0;
                assert(file == paths::joined_path(root, path));
            }
        },
    }
}

/// The absolute path of a symbol's file.
pub fn absolute_symbol_file_path(
    conn: &rusqlite::Connection,
    repo_id: &str,
    symbol_name: &str,
    filepath: Option<&str>,
) -> (r: String)
    ensures
        could_place(*conn, repo_id@, symbol_name@, text::opt_str(filepath), r@),
{
    match filepath {
        Some(path) => match select(conn, REPOSITORY_ROOT_SQL, bind_one(repo_id)) {
            Ok(answer) => {
                assert(store::could_answer(
                    *conn,
                    REPOSITORY_ROOT_SQL@,
                    store::one_text(repo_id@),
                    answer@,
                ));
                match read_first_text(&answer) {
                    Some(root) => join_path(&root, path),
                    None => path.to_owned(),
                }
            },
            Err(why) => {
                assert(store::could_refuse(
                    *conn,
                    REPOSITORY_ROOT_SQL@,
                    store::one_text(repo_id@),
                    why,
                ));
                path.to_owned()
            },
        },
        None => match select(conn, SYMBOL_FILE_SQL, bind_two(symbol_name, repo_id)) {
            Ok(answer) => {
                assert(store::could_answer(
                    *conn,
                    SYMBOL_FILE_SQL@,
                    store::two_texts(symbol_name@, repo_id@),
                    answer@,
                ));
                match locate(&answer) {
                    Some(file) => file,
                    None => symbol_name.to_owned(),
                }
            },
            Err(why) => {
                assert(store::could_refuse(
                    *conn,
                    SYMBOL_FILE_SQL@,
                    store::two_texts(symbol_name@, repo_id@),
                    why,
                ));
                symbol_name.to_owned()
            },
        },
    }
}

/// What is reported of raw text: nothing when it is switched off and empty.
pub open spec fn reported_original(mode: CapsuleOriginalMode, original: Seq<char>) -> Option<
    Seq<char>,
> {
    if mode == CapsuleOriginalMode::Off && original.len() == 0 {
        None
    } else {
        Some(original)
    }
}

/// What is reported of raw text: nothing when it is switched off and empty.
pub fn report_original(mode: CapsuleOriginalMode, original: String) -> (r: Option<String>)
    ensures
        text::opt_text(r) == reported_original(mode, original@),
{
    if mode == CapsuleOriginalMode::Off && original.as_str().is_empty() {
        None
    } else {
        Some(original)
    }
}

/// Whether a report tells of a capsule.
pub open spec fn reports_capsule(
    t: Option<BatchTelemetry>,
    about: Seq<char>,
    repo: Seq<char>,
    result: CapsuleResult,
    file: Seq<char>,
    original: Option<Seq<char>>,
    with_proof: bool,
) -> bool {
    t matches Some(
        BatchTelemetry::Capsule {
            symbol,
            repo: in_repo,
            file: in_file,
            capsule_tokens,
            file_tokens,
            original_text,
            optimized_text,
            proof_snapshot,
            provenance,
        },
    ) && {
        &&& symbol@ == about
        &&& in_repo@ == repo
        &&& in_file@ == file
        &&& capsule_tokens == text::bytes(result.optimized_text@) / 4
        &&& file_tokens == result.file_tokens
        &&& text::opt_text(original_text) == original
        &&& optimized_text@ == result.optimized_text@
        &&& (match proof_snapshot {
            Some(snap) => with_proof && result.proof_snapshot == Some(*snap),
            None => !with_proof || result.proof_snapshot is None,
        })
        &&& *provenance == result.provenance
    }
}

/// Whether a report tells of a list with this many lines.
pub open spec fn reports_lines(
    t: Option<BatchTelemetry>,
    about: Seq<char>,
    shown: Seq<char>,
    mark: Seq<char>,
) -> bool {
    t matches Some(BatchTelemetry::Skeleton { target_dir, node_count }) && target_dir@ == about
        && node_count == scan::marked_lines(
        scan::lines(shown),
        mark,
        scan::lines(shown).len() as int,
    )
}

/// Whether a report tells of an impact, or of nothing where the name was ambiguous.
pub open spec fn reports_impact(
    t: Option<BatchTelemetry>,
    about: Seq<char>,
    repo: Seq<char>,
    result: ImpactResult,
) -> bool {
    if scan::begins(result.pivot_id@, AMBIGUOUS@) {
        t is None
    } else {
        t matches Some(BatchTelemetry::Impact { symbol, repo: in_repo, affected_count })
            && symbol@ == about && in_repo@ == repo && affected_count == result.affected.len()
    }
}

/// The limit that a search applies.
pub open spec fn search_limit(q: BatchQuery) -> usize {
    match q.limit {
        Some(n) => n,
        None => FIND_SYMBOL_DEFAULT_LIMIT,
    }
}

/// The graph that a query asks for.
pub open spec fn query_graph(q: BatchQuery, limits: Settings) -> DependencyGraphOptions {
    DependencyGraphOptions {
        depth: match q.depth {
            Some(n) => n,
            None => 2,
        },
        direction: match q.direction {
            Some(d) => d,
            None => DependencyDirection::Both,
        },
        include_source: q.include_source,
        max_nodes: match q.max_nodes {
            Some(n) => n,
            None => limits.graph_max_nodes,
        },
        max_bytes: limits.graph_max_bytes,
    }
}

/// What a search for a fragment says.
pub open spec fn could_search(
    db: rusqlite::Connection,
    q: BatchQuery,
    repo: Seq<char>,
    shown: Seq<char>,
) -> bool {
    if scan::trimmed(q.target@).len() == 0 {
        shown == symbols::EMPTY_QUERY@
    } else {
        symbols::could_find(
            db,
            repo,
            scan::trimmed(q.target@),
            text::opt_text(q.kind),
            symbols::shown_limit(search_limit(q)),
            shown,
        )
    }
}

/// Whether a database could lead to this outcome of a query.
pub open spec fn could_execute(
    db: rusqlite::Connection,
    q: BatchQuery,
    repo: Seq<char>,
    files: Seq<SourceFile>,
    limits: Settings,
    out: ExecutedBatchQuery,
) -> bool {
    let path = text::opt_text(q.filepath);
    match q.intent {
        BatchIntent::FindSymbol => {
            &&& !out.ambiguous
            &&& could_search(db, q, repo, out.text@)
            &&& reports_lines(out.telemetry, "find:"@ + q.target@, out.text@, "- "@)
        },
        BatchIntent::ExploreSymbol | BatchIntent::ReadNode => exists|
            result: CapsuleResult,
            file: Seq<char>,
        |
            {
                &&& #[trigger] capsule::could_explore_as(
                    db,
                    q.target@,
                    repo,
                    path,
                    files,
                    limits,
                    out.ambiguous,
                    result,
                )
                &&& #[trigger] could_place(db, repo, q.target@, path, file)
                &&& out.text@ == result.optimized_text@
                &&& reports_capsule(
                    out.telemetry,
                    q.target@,
                    repo,
                    result,
                    file,
                    reported_original(limits.original_mode, result.original_text@),
                    true,
                )
            },
        BatchIntent::TraceFlow => exists|result: CapsuleResult, file: Seq<char>|
            {
                &&& #[trigger] trace::could_trace_as(
                    db,
                    q.target@,
                    repo,
                    path,
                    limits,
                    out.ambiguous,
                    result,
                )
                &&& #[trigger] could_place(db, repo, q.target@, path, file)
                &&& out.text@ == result.optimized_text@
                &&& reports_capsule(out.telemetry, q.target@, repo, result, file, None, false)
            },
        BatchIntent::RefactorSymbol => exists|result: ImpactResult|
            {
                &&& #[trigger] impact::could_affect_as(
                    db,
                    q.target@,
                    repo,
                    path,
                    limits.impact_max_rows,
                    out.ambiguous,
                    result,
                )
                &&& out.text@ == impact::impact_text(result, limits.impact_max_rows)
                &&& reports_impact(out.telemetry, q.target@, repo, result)
            },
        BatchIntent::DependencyGraph => {
            &&& !bad_depth(q)
            &&& graph::could_graph_as(
                db,
                q.target@,
                repo,
                path,
                query_graph(q, limits),
                limits,
                out.ambiguous,
                out.text@,
            )
            &&& reports_lines(
                out.telemetry,
                "dependency_graph:"@ + repo + ":"@ + q.target@,
                out.text@,
                "- [d"@,
            )
        },
    }
}

/// Whether a graph is asked for at a depth that none has.
pub open spec fn bad_depth(q: BatchQuery) -> bool {
    q.intent == BatchIntent::DependencyGraph && (q.depth matches Some(d) && (d == 0 || d > 5))
}

/// A graph is refused for its depth exactly when one is given that is not between one and
/// five.
pub proof fn law_graphs_have_one_to_five_steps(q: BatchQuery)
    ensures
        bad_depth(q) <==> q.intent == BatchIntent::DependencyGraph && (q.depth matches Some(d)
            && !(1 <= d <= 5)),
        graph::BAD_DEPTH@ == "dependency_graph depth must be between 1 and 5"@,
{
}

/// Whether a database could lead to this failure of a query: the depth of a graph is
/// out of range, the name is unknown, or a statement is refused.
pub open spec fn could_fail(
    db: rusqlite::Connection,
    q: BatchQuery,
    repo: Seq<char>,
    limits: Settings,
    e: MarrowError,
) -> bool {
    let path = text::opt_text(q.filepath);
    match q.intent {
        BatchIntent::FindSymbol => {
            &&& scan::trimmed(q.target@).len() > 0
            &&& e matches MarrowError::Store(why)
            &&& symbols::could_not_find(
                db,
                repo,
                scan::trimmed(q.target@),
                text::opt_text(q.kind),
                symbols::shown_limit(search_limit(q)),
                why,
            )
        },
        BatchIntent::ExploreSymbol | BatchIntent::ReadNode => capsule::could_not_explore(
            db,
            q.target@,
            repo,
            path,
            limits,
            e,
        ),
        BatchIntent::TraceFlow => trace::could_not_trace(db, q.target@, repo, path, limits, e),
        BatchIntent::RefactorSymbol => impact::could_not_affect(db, q.target@, repo, path, e),
        BatchIntent::DependencyGraph => if bad_depth(q) {
            e matches MarrowError::Message(m) && m@ == graph::BAD_DEPTH@
        } else {
            graph::could_not_graph(
                db,
                q.target@,
                repo,
                path,
                query_graph(q, limits),
                limits,
                e,
            )
        },
    }
}

pub(crate) fn opt_ref(v: &Option<String>) -> (r: Option<&str>)
    ensures
        text::opt_str(r) == text::opt_text(*v),
{
    match v {
        Some(s) => Some(s.as_str()),
        None => None,
    }
}

/// A capsule's report.
pub(crate) fn capsule_report(
    about: &str,
    repo_id: &str,
    result: CapsuleResult,
    file: String,
    original: Option<String>,
    with_proof: bool,
    ambiguous: bool,
) -> (r: ExecutedBatchQuery)
    ensures
        r.text@ == result.optimized_text@,
        r.ambiguous == ambiguous,
        reports_capsule(
            r.telemetry,
            about@,
            repo_id@,
            result,
            file@,
            text::opt_text(original),
            with_proof,
        ),
{
    let capsule_tokens = byte_len(&result.optimized_text) / 4;
    let proof_snapshot = match result.proof_snapshot {
        Some(snap) => if with_proof {
            Some(Box::new(snap))
        } else {
            None
        },
        None => None,
    };
    ExecutedBatchQuery {
        text: result.optimized_text.clone(),
        telemetry: Some(
            BatchTelemetry::Capsule {
                symbol: about.to_owned(),
                repo: repo_id.to_owned(),
                file,
                capsule_tokens,
                file_tokens: result.file_tokens,
                original_text: original,
                optimized_text: result.optimized_text,
                proof_snapshot,
                provenance: Box::new(result.provenance),
            },
        ),
        ambiguous,
    }
}

fn run_find(
    conn: &rusqlite::Connection,
    query: &BatchQuery,
    repo_id: &str,
    Ghost(limits): Ghost<Settings>,
) -> (r: Result<ExecutedBatchQuery, MarrowError>)
    requires
        query.intent == BatchIntent::FindSymbol,
    ensures
        match r {
            Ok(out) => !out.ambiguous && could_search(*conn, *query, repo_id@, out.text@)
                && reports_lines(out.telemetry, "find:"@ + query.target@, out.text@, "- "@),
            Err(e) => could_fail(*conn, *query, repo_id@, limits, e),
        },
{
    let limit: usize = match query.limit {
        Some(n) => n,
        None => FIND_SYMBOL_DEFAULT_LIMIT,
    };
    match find_symbols(conn, repo_id, &query.target, opt_ref(&query.kind), limit) {
        Ok(shown) => {
            let node_count = count_marked_lines(&shown, "- ");
            Ok(
                ExecutedBatchQuery {
                    text: shown,
                    telemetry: Some(
                        BatchTelemetry::Skeleton {
                            target_dir: "find:".to_owned().concat(&query.target),
                            node_count,
                        },
                    ),
                    ambiguous: false,
                },
            )
        },
        Err(e) => Err(e),
    }
}

fn run_graph(
    conn: &rusqlite::Connection,
    query: &BatchQuery,
    repo_id: &str,
    limits: &Settings,
    files: &Vec<SourceFile>,
) -> (r: Result<ExecutedBatchQuery, MarrowError>)
    requires
        query.intent == BatchIntent::DependencyGraph,
    ensures
        match r {
            Ok(out) => could_execute(*conn, *query, repo_id@, files@, *limits, out),
            Err(e) => could_fail(*conn, *query, repo_id@, *limits, e),
        },
{
    let options = DependencyGraphOptions {
        depth: match query.depth {
            Some(n) => n,
            None => 2,
        },
        direction: match query.direction {
            Some(d) => d,
            None => DependencyDirection::Both,
        },
        include_source: query.include_source,
        max_nodes: match query.max_nodes {
            Some(n) => n,
            None => limits.graph_max_nodes,
        },
        max_bytes: limits.graph_max_bytes,
    };
    assert(options == query_graph(*query, *limits));
    match draw_graph(
        conn,
        repo_id,
        &query.target,
        opt_ref(&query.filepath),
        options,
        limits,
    ) {
        Ok((shown, ambiguous)) => {
            let node_count = count_marked_lines(&shown, "- [d");
            let target_dir = "dependency_graph:".to_owned().concat(repo_id).concat(":").concat(
                &query.target,
            );
            Ok(
                ExecutedBatchQuery {
                    text: shown,
                    telemetry: Some(BatchTelemetry::Skeleton { target_dir, node_count }),
                    ambiguous,
                },
            )
        },
        Err(e) => Err(e),
    }
}

fn run_capsule(
    conn: &rusqlite::Connection,
    query: &BatchQuery,
    repo_id: &str,
    limits: &Settings,
    files: &Vec<SourceFile>,
) -> (r: Result<ExecutedBatchQuery, MarrowError>)
    requires
        query.intent == BatchIntent::ExploreSymbol || query.intent == BatchIntent::ReadNode,
    ensures
        match r {
            Ok(out) => could_execute(*conn, *query, repo_id@, files@, *limits, out),
            Err(e) => could_fail(*conn, *query, repo_id@, *limits, e),
        },
{
    let path = opt_ref(&query.filepath);
    match explore_symbol(conn, &query.target, repo_id, path, limits, files) {
        Ok((result, ambiguous)) => {
            let file = absolute_symbol_file_path(conn, repo_id, &query.target, path);
            let original = report_original(limits.original_mode, result.original_text.clone());
            let ghost whole = result;
            let ghost at = file@;
            let out = capsule_report(
                &query.target,
                repo_id,
                result,
                file,
                original,
                true,
                ambiguous,
            );
            assert(capsule::could_explore_as(
                *conn,
                query.target@,
                repo_id@,
                text::opt_text(query.filepath),
                files@,
                *limits,
                ambiguous,
                whole,
            ));
            assert(could_place(*conn, repo_id@, query.target@, text::opt_text(query.filepath), at));
            Ok(out)
        },
        Err(e) => Err(e),
    }
}

fn run_trace(
    conn: &rusqlite::Connection,
    query: &BatchQuery,
    repo_id: &str,
    limits: &Settings,
    files: &Vec<SourceFile>,
) -> (r: Result<ExecutedBatchQuery, MarrowError>)
    requires
        query.intent == BatchIntent::TraceFlow,
    ensures
        match r {
            Ok(out) => could_execute(*conn, *query, repo_id@, files@, *limits, out),
            Err(e) => could_fail(*conn, *query, repo_id@, *limits, e),
        },
{
    let path = opt_ref(&query.filepath);
    match trace_symbol(conn, &query.target, repo_id, path, limits) {
        Ok((result, ambiguous)) => {
            let file = absolute_symbol_file_path(conn, repo_id, &query.target, path);
            let ghost whole = result;
            let ghost at = file@;
            let out = capsule_report(
                &query.target,
                repo_id,
                result,
                file,
                None,
                false,
                ambiguous,
            );
            assert(trace::could_trace_as(
                *conn,
                query.target@,
                repo_id@,
                text::opt_text(query.filepath),
                *limits,
                ambiguous,
                whole,
            ));
            assert(could_place(*conn, repo_id@, query.target@, text::opt_text(query.filepath), at));
            Ok(out)
        },
        Err(e) => Err(e),
    }
}

/// An impact's report; none where the name was ambiguous.
pub(crate) fn impact_report(about: &str, repo_id: &str, result: &ImpactResult) -> (r: Option<
    BatchTelemetry,
>)
    ensures
        reports_impact(r, about@, repo_id@, *result),
{
    if starts_with(&result.pivot_id, AMBIGUOUS) {
        None
    } else {
        Some(
            BatchTelemetry::Impact {
                symbol: about.to_owned(),
                repo: repo_id.to_owned(),
                affected_count: result.affected.len(),
            },
        )
    }
}

fn run_impact(
    conn: &rusqlite::Connection,
    query: &BatchQuery,
    repo_id: &str,
    limits: &Settings,
    files: &Vec<SourceFile>,
) -> (r: Result<ExecutedBatchQuery, MarrowError>)
    requires
        query.intent == BatchIntent::RefactorSymbol,
    ensures
        match r {
            Ok(out) => could_execute(*conn, *query, repo_id@, files@, *limits, out),
            Err(e) => could_fail(*conn, *query, repo_id@, *limits, e),
        },
{
    match affected_by(conn, &query.target, repo_id, opt_ref(&query.filepath), limits) {
        Ok((result, ambiguous)) => {
            let shown = format_impact_result(&result, limits.impact_max_rows);
            let telemetry = impact_report(&query.target, repo_id, &result);
            let out = ExecutedBatchQuery { text: shown, telemetry, ambiguous };
            assert(impact::could_affect_as(
                *conn,
                query.target@,
                repo_id@,
                text::opt_text(query.filepath),
                limits.impact_max_rows,
                out.ambiguous,
                result,
            ));
            assert(reports_impact(out.telemetry, query.target@, repo_id@, result));
            Ok(out)
        },
        Err(e) => Err(e),
    }
}

/// Answers one query of a batch.
pub fn execute_one_batch_query(
    conn: &rusqlite::Connection,
    query: &BatchQuery,
    repo_id: &str,
    limits: &Settings,
    files: &Vec<SourceFile>,
) -> (r: Result<ExecutedBatchQuery, MarrowError>)
    ensures
        match r {
            Ok(out) => could_execute(*conn, *query, repo_id@, files@, *limits, out),
            Err(e) => could_fail(*conn, *query, repo_id@, *limits, e),
        },
{
    match query.intent {
        BatchIntent::FindSymbol => run_find(conn, query, repo_id, Ghost(*limits)),
        BatchIntent::ExploreSymbol | BatchIntent::ReadNode => run_capsule(
            conn,
            query,
            repo_id,
            limits,
            files,
        ),
        BatchIntent::TraceFlow => run_trace(conn, query, repo_id, limits, files),
        BatchIntent::RefactorSymbol => run_impact(conn, query, repo_id, limits, files),
        BatchIntent::DependencyGraph => run_graph(conn, query, repo_id, limits, files),
    }
}

// ── The batch ────────────────────────────────────────────────────────────────

/// The first of the queries, at or behind `from`, that has the key of the `i`th.
pub open spec fn first_like(repo: Seq<char>, queries: Seq<BatchQuery>, i: int, from: int) -> int
    decreases i - from,
{
    if from >= i {
        i
    } else if batch_key(repo, queries[from]) == batch_key(repo, queries[i]) {
        from
    } else {
        first_like(repo, queries, i, from + 1)
    }
}

/// Whether a query repeats an earlier one.
pub open spec fn repeats(repo: Seq<char>, queries: Seq<BatchQuery>, i: int) -> bool {
    first_like(repo, queries, i, 0) < i
}

/// What stands under a query's heading: for a repeated one where its answer is, else
/// its own answer.
pub open spec fn body_of(
    repo: Seq<char>,
    queries: Seq<BatchQuery>,
    bodies: Seq<Seq<char>>,
    i: int,
) -> Seq<char> {
    if repeats(repo, queries, i) {
        "Same as ["@ + text::decimal((first_like(repo, queries, i, 0) + 1) as nat) + "/"@
            + text::decimal(queries.len()) + "] above."@
    } else {
        bodies[i]
    }
}

/// The sections of a batch, given the answer of each query.
pub open spec fn sections_of(
    repo: Seq<char>,
    queries: Seq<BatchQuery>,
    bodies: Seq<Seq<char>>,
) -> Seq<Seq<char>> {
    Seq::new(
        queries.len(),
        |i: int|
            section_text(
                queries[i],
                (i + 1) as nat,
                queries.len(),
                body_of(repo, queries, bodies, i),
            ),
    )
}

proof fn lemma_first_like(repo: Seq<char>, queries: Seq<BatchQuery>, i: int, from: int)
    requires
        0 <= from <= i,
    ensures
        from <= first_like(repo, queries, i, from) <= i,
    decreases i - from,
{
    if from < i && batch_key(repo, queries[from]) != batch_key(repo, queries[i]) {
        lemma_first_like(repo, queries, i, from + 1);
    }
}

fn find_first_like(keys: &Vec<String>, key: &str, Ghost(repo): Ghost<Seq<char>>, Ghost(queries): Ghost<Seq<BatchQuery>>) -> (r: usize)
    requires
        keys.len() < queries.len(),
        key@ == batch_key(repo, queries[keys.len() as int]),
        forall|k: int| 0 <= k < keys.len() ==> (#[trigger] keys@[k])@ == batch_key(repo, queries[k]),
    ensures
        r == first_like(repo, queries, keys@.len() as int, 0),
        r <= keys.len(),
{
    let mut i: usize = 0;
    while i < keys.len() && !same(&keys[i], key)
        invariant
            i <= keys.len(),
            keys.len() < queries.len(),
            key@ == batch_key(repo, queries[keys.len() as int]),
            forall|k: int|
                0 <= k < keys.len() ==> (#[trigger] keys@[k])@ == batch_key(repo, queries[k]),
            first_like(repo, queries, keys@.len() as int, 0) == first_like(
                repo,
                queries,
                keys@.len() as int,
                i as int,
            ),
        decreases keys.len() - i,
    {
        i += 1;
    }
    i
}

/// The reports of the first `n` queries, in order.
pub open spec fn reports(outs: Seq<Option<ExecutedBatchQuery>>, n: int) -> Seq<BatchTelemetry>
    decreases n,
{
    if n <= 0 {
        Seq::empty()
    } else {
        let head = reports(outs, n - 1);
        match outs[n - 1] {
            Some(out) => match out.telemetry {
                Some(t) => head.push(t),
                None => head,
            },
            None => head,
        }
    }
}

/// How many of the first `n` queries named a symbol that several nodes have.
pub open spec fn ambiguities(outs: Seq<Option<ExecutedBatchQuery>>, n: int) -> int
    decreases n,
{
    if n <= 0 {
        0
    } else {
        let head = ambiguities(outs, n - 1);
        match outs[n - 1] {
            Some(out) => head + symbols::counted(out.ambiguous),
            None => head,
        }
    }
}

/// Whether a body tells of a failure that a database could lead to.
pub open spec fn is_failure(
    db: rusqlite::Connection,
    q: BatchQuery,
    repo: Seq<char>,
    limits: Settings,
    body: Seq<char>,
) -> bool {
    exists|e: MarrowError, m: Seq<char>|
        {
            &&& could_fail(db, q, repo, limits, e)
            &&& #[trigger] e.says(m)
            &&& body == "ERROR: "@ + m
        }
}

/// Every failed query is answered with a text that begins with a mark, and a graph at
/// a depth that none has is always answered the same.
pub proof fn law_failures_are_marked(
    db: rusqlite::Connection,
    q: BatchQuery,
    repo: Seq<char>,
    limits: Settings,
    body: Seq<char>,
)
    requires
        is_failure(db, q, repo, limits, body),
    ensures
        scan::begins(body, "ERROR: "@),
        bad_depth(q) ==> body == "ERROR: "@ + graph::BAD_DEPTH@,
{
    let mark = "ERROR: "@;
    assert(body.subrange(0, mark.len() as int) =~= mark);
}

/// Whether a database could lead to these outcomes and answers: a repeated query is
/// not run, one that fails is answered with its error.
pub open spec fn could_run(
    db: rusqlite::Connection,
    repo: Seq<char>,
    queries: Seq<BatchQuery>,
    files: Seq<SourceFile>,
    limits: Settings,
    outs: Seq<Option<ExecutedBatchQuery>>,
    bodies: Seq<Seq<char>>,
) -> bool {
    &&& outs.len() == queries.len()
    &&& bodies.len() == queries.len()
    &&& forall|i: int|
        0 <= i < queries.len() ==> match #[trigger] outs[i] {
            Some(out) => {
                &&& !repeats(repo, queries, i)
                &&& could_execute(db, queries[i], repo, files, limits, out)
                &&& bodies[i] == out.text@
            },
            None => repeats(repo, queries, i) || is_failure(
                db,
                queries[i],
                repo,
                limits,
                bodies[i],
            ),
        }
}

/// Whether a database could lead to this answer to a batch.
pub open spec fn could_batch(
    db: rusqlite::Connection,
    repo: Seq<char>,
    queries: Seq<BatchQuery>,
    max_bytes: usize,
    files: Seq<SourceFile>,
    limits: Settings,
    answer: BatchExecution,
) -> bool {
    &&& answer.query_count == queries.len()
    &&& text::bytes(answer.text@) <= max_bytes
    &&& exists|outs: Seq<Option<ExecutedBatchQuery>>, bodies: Seq<Seq<char>>|
        {
            &&& #[trigger] could_run(db, repo, queries, files, limits, outs, bodies)
            &&& answer.text@ == capped_sections(sections_of(repo, queries, bodies), max_bytes)
            &&& answer.truncated == overflows(sections_of(repo, queries, bodies), max_bytes)
            &&& answer.telemetry@ == reports(outs, queries.len() as int)
            &&& answer.ambiguous == ambiguities(outs, queries.len() as int)
        }
}

/// Answers a batch of queries, each repeated one with a pointer to the first.
pub fn execute_batch_queries(
    conn: &rusqlite::Connection,
    queries: &Vec<BatchQuery>,
    options: BatchOptions,
    limits: &Settings,
    files: &Vec<SourceFile>,
) -> (r: BatchExecution)
    requires
        queries.len() < usize::MAX,
    ensures
        could_batch(*conn, options.repo_id@, queries@, options.max_bytes, files@, *limits, r),
{
    let total = queries.len();
    let repo_id = options.repo_id.as_str();
    let mut keys: Vec<String> = Vec::new();
    let mut sections: Vec<String> = Vec::new();
    let mut telemetry: Vec<BatchTelemetry> = Vec::new();
    let mut ambiguous: usize = 0;
    let ghost mut outs: Seq<Option<ExecutedBatchQuery>> = Seq::empty();
    let ghost mut bodies: Seq<Seq<char>> = Seq::empty();
    let mut i: usize = 0;
    while i < total
        invariant
            i <= total,
            total == queries.len(),
            total < usize::MAX,
            repo_id@ == options.repo_id@,
            keys.len() == i,
            sections.len() == i,
            outs.len() == i,
            bodies.len() == i,
            forall|k: int|
                0 <= k < i ==> (#[trigger] keys@[k])@ == batch_key(repo_id@, queries@[k]),
            forall|k: int|
                0 <= k < i ==> (#[trigger] sections@[k])@ == section_text(
                    queries@[k],
                    (k + 1) as nat,
                    total as nat,
                    body_of(repo_id@, queries@, bodies, k),
                ),
            forall|k: int|
                0 <= k < i ==> match #[trigger] outs[k] {
                    Some(out) => {
                        &&& !repeats(repo_id@, queries@, k)
                        &&& could_execute(*conn, queries@[k], repo_id@, files@, *limits, out)
                        &&& bodies[k] == out.text@
                    },
                    None => repeats(repo_id@, queries@, k) || is_failure(
                        *conn,
                        queries@[k],
                        repo_id@,
                        *limits,
                        bodies[k],
                    ),
                },
            telemetry@ == reports(outs, i as int),
            ambiguous == ambiguities(outs, i as int),
            ambiguous <= i,
        decreases total - i,
    {
        let query = &queries[i];
        let key = canonical_batch_key(repo_id, query);
        let first = find_first_like(&keys, &key, Ghost(repo_id@), Ghost(queries@));
        let ghost outs0 = outs;
        let ghost bodies0 = bodies;
        let body: String;
        if first < i {
            body = "Same as [".to_owned().concat(&count_text(first + 1)).concat("/").concat(
                &count_text(total),
            ).concat("] above.");
            proof {
                outs = outs.push(None);
                bodies = bodies.push(body@);
            }
        } else {
            match execute_one_batch_query(conn, query, repo_id, limits, files) {
                Ok(executed) => {
                    proof {
                        outs = outs.push(Some(executed));
                        bodies = bodies.push(executed.text@);
                    }
                    body = executed.text;
                    if executed.ambiguous {
                        ambiguous += 1;
                    }
                    match executed.telemetry {
                        Some(event) => {
                            telemetry.push(event);
                        },
                        None => {},
                    }
                },
                Err(e) => {
                    let why = e.text();
                    body = "ERROR: ".to_owned().concat(&why);
                    proof {
                        outs = outs.push(None);
                        bodies = bodies.push(body@);
                        assert(e.says(why@));
                        assert(is_failure(*conn, *query, repo_id@, *limits, body@));
                    }
                },
            }
        }
        proof {
            lemma_reports_prefix(outs0, outs, i as int);
            assert(body@ == body_of(repo_id@, queries@, bodies, i as int));
            assert forall|k: int| 0 <= k < i implies body_of(repo_id@, queries@, bodies0, k)
                == #[trigger] body_of(repo_id@, queries@, bodies, k) by {
                assert(bodies0[k] == bodies[k]);
            }
        }
        let section = format_batch_section(query, i + 1, total, &body);
        let ghost sections0 = sections@;
        sections.push(section);
        keys.push(key);
        proof {
            assert forall|k: int| 0 <= k < i + 1 implies (#[trigger] sections@[k])@
                == section_text(
                queries@[k],
                (k + 1) as nat,
                total as nat,
                body_of(repo_id@, queries@, bodies, k),
            ) by {
                if k < i {
                    assert(sections@[k] == sections0[k]);
                    assert(body_of(repo_id@, queries@, bodies0, k) == body_of(
                        repo_id@,
                        queries@,
                        bodies,
                        k,
                    ));
                }
            }
            assert forall|k: int| 0 <= k < i + 1 implies match #[trigger] outs[k] {
                Some(out) => {
                    &&& !repeats(repo_id@, queries@, k)
                    &&& could_execute(*conn, queries@[k], repo_id@, files@, *limits, out)
                    &&& bodies[k] == out.text@
                },
                None => repeats(repo_id@, queries@, k) || is_failure(
                    *conn,
                    queries@[k],
                    repo_id@,
                    *limits,
                    bodies[k],
                ),
            } by {
                if k < i {
                    assert(outs[k] == outs0[k]);
                    assert(bodies[k] == bodies0[k]);
                }
            }
        }
        i += 1;
    }
    let (shown, truncated) = cap_batch_sections_fifo(&sections, options.max_bytes);
    proof {
        assert(text::texts(sections@) =~= sections_of(repo_id@, queries@, bodies));
        assert(could_run(*conn, options.repo_id@, queries@, files@, *limits, outs, bodies));
    }
    BatchExecution { text: shown, query_count: total, truncated, telemetry, ambiguous }
}

proof fn lemma_reports_prefix(
    a: Seq<Option<ExecutedBatchQuery>>,
    b: Seq<Option<ExecutedBatchQuery>>,
    n: int,
)
    requires
        0 <= n <= a.len(),
        n <= b.len(),
        forall|i: int| 0 <= i < n ==> #[trigger] a[i] == b[i],
    ensures
        reports(a, n) == reports(b, n),
        ambiguities(a, n) == ambiguities(b, n),
    decreases n,
{
    if n > 0 {
        lemma_reports_prefix(a, b, n - 1);
        assert(a[n - 1] == b[n - 1]);
    }
}

/// A batch has one section for every query, in order. Its heading says the query's place
/// among all, what it asks and about what, with the file where one is named. Under it
/// stands the query's answer, or where that is when an earlier query asked the same.
pub proof fn law_every_query_has_its_section(
    repo: Seq<char>,
    queries: Seq<BatchQuery>,
    bodies: Seq<Seq<char>>,
    i: int,
)
    requires
        0 <= i < queries.len(),
        bodies.len() == queries.len(),
    ensures
        sections_of(repo, queries, bodies).len() == queries.len(),
        sections_of(repo, queries, bodies)[i].len() > 0,
        ({
            let q = queries[i];
            let title = "## ["@ + text::decimal((i + 1) as nat) + "/"@ + text::decimal(
                queries.len(),
            ) + "] "@ + (match q.intent {
                BatchIntent::FindSymbol => "FIND"@,
                BatchIntent::ExploreSymbol | BatchIntent::ReadNode => "EXPLORE"@,
                BatchIntent::TraceFlow => "TRACE"@,
                BatchIntent::RefactorSymbol => "IMPACT"@,
                BatchIntent::DependencyGraph => "DEPENDENCY GRAPH"@,
            }) + " — "@ + q.target@;
            let heading = match q.filepath {
                Some(path) => title + " ("@ + path@ + ")"@,
                None => title,
            };
            &&& (forall|j: int|
                0 <= j < i ==> batch_key(repo, #[trigger] queries[j]) != batch_key(repo, q))
                ==> sections_of(repo, queries, bodies)[i] == heading + "\n"@ + bodies[i]
            &&& forall|j: int|
                0 <= j < i && batch_key(repo, #[trigger] queries[j]) == batch_key(repo, q) && (
                forall|k: int|
                    0 <= k < j ==> batch_key(repo, #[trigger] queries[k]) != batch_key(repo, q))
                    ==> sections_of(repo, queries, bodies)[i] == heading + "\n"@ + ("Same as ["@
                    + text::decimal((j + 1) as nat) + "/"@ + text::decimal(queries.len())
                    + "] above."@)
        }),
{
    reveal_strlit("## [");
    if forall|j: int|
        0 <= j < i ==> batch_key(repo, #[trigger] queries[j]) != batch_key(repo, queries[i]) {
        lemma_none_before(repo, queries, i, 0);
    }
    assert forall|j: int|
        0 <= j < i && batch_key(repo, #[trigger] queries[j]) == batch_key(repo, queries[i]) && (
        forall|k: int|
            0 <= k < j ==> batch_key(repo, #[trigger] queries[k]) != batch_key(repo, queries[i]))
        implies first_like(repo, queries, i, 0) == j by {
        lemma_first_like_is(repo, queries, i, 0, j);
    }
}

proof fn lemma_first_like_is(
    repo: Seq<char>,
    queries: Seq<BatchQuery>,
    i: int,
    from: int,
    j: int,
)
    requires
        0 <= from <= j < i < queries.len(),
        batch_key(repo, queries[j]) == batch_key(repo, queries[i]),
        forall|k: int|
            0 <= k < j ==> batch_key(repo, #[trigger] queries[k]) != batch_key(repo, queries[i]),
    ensures
        first_like(repo, queries, i, from) == j,
    decreases j - from,
{
    if from < j {
        assert(queries[from] == queries[from]);
        lemma_first_like_is(repo, queries, i, from + 1, j);
    }
}

/// What is reported of a batch is the report of every query that has one, in order, and
/// how many queries named a symbol that several nodes have.
pub proof fn law_every_report_is_handed_on(outs: Seq<Option<ExecutedBatchQuery>>)
    ensures
        reports(outs, outs.len() as int) == outs.filter_map(
            |out: Option<ExecutedBatchQuery>|
                match out {
                    Some(executed) => executed.telemetry,
                    None => None,
                },
        ),
        ambiguities(outs, outs.len() as int) == outs.filter(
            |out: Option<ExecutedBatchQuery>| out matches Some(executed) && executed.ambiguous,
        ).len(),
    decreases outs.len(),
{
    reveal(Seq::filter);
    if outs.len() > 0 {
        let n = outs.len() - 1;
        let front = outs.drop_last();
        law_every_report_is_handed_on(front);
        lemma_reports_prefix(front, outs, n);
        let head = reports(outs, n);
        assert forall|t: BatchTelemetry| head.push(t) == #[trigger] (head + seq![t]) by {
            assert(head.push(t) =~= head + seq![t]);
        }
    }
}

/// A query of a batch is answered as it would be alone: a search with its kind and its
/// number of matches, fifty where none is given; the capsule, the trace or the impact of
/// its symbol in its file; a graph with the depth, the direction, the sources and the
/// number of nodes that it names, else two steps both ways and as many nodes as are
/// allowed.
pub proof fn law_batched_queries_are_answered_as_alone(
    db: rusqlite::Connection,
    q: BatchQuery,
    repo: Seq<char>,
    files: Seq<SourceFile>,
    limits: Settings,
    out: ExecutedBatchQuery,
)
    requires
        could_execute(db, q, repo, files, limits, out),
    ensures
        q.intent == BatchIntent::FindSymbol && scan::trimmed(q.target@).len() > 0 ==> exists|
            limit: usize,
        |
            {
                &&& #[trigger] symbols::could_find(
                    db,
                    repo,
                    scan::trimmed(q.target@),
                    text::opt_text(q.kind),
                    limit,
                    out.text@,
                )
                &&& limit == (match q.limit {
                    Some(n) => if n == 0 {
                        1
                    } else {
                        n
                    },
                    None => 50,
                })
            },
        q.intent == BatchIntent::ExploreSymbol || q.intent == BatchIntent::ReadNode ==> exists|
            result: CapsuleResult,
        | #[trigger]
            capsule::could_explore_as(
                db,
                q.target@,
                repo,
                text::opt_text(q.filepath),
                files,
                limits,
                out.ambiguous,
                result,
            ) && out.text@ == result.optimized_text@,
        q.intent == BatchIntent::TraceFlow ==> exists|result: CapsuleResult| #[trigger]
            trace::could_trace_as(
                db,
                q.target@,
                repo,
                text::opt_text(q.filepath),
                limits,
                out.ambiguous,
                result,
            ) && out.text@ == result.optimized_text@,
        q.intent == BatchIntent::RefactorSymbol ==> exists|result: ImpactResult| #[trigger]
            impact::could_affect_as(
                db,
                q.target@,
                repo,
                text::opt_text(q.filepath),
                limits.impact_max_rows,
                out.ambiguous,
                result,
            ) && out.text@ == impact::impact_text(result, limits.impact_max_rows),
        q.intent == BatchIntent::DependencyGraph ==> exists|options: DependencyGraphOptions|
            {
                &&& #[trigger] graph::could_graph_as(
                    db,
                    q.target@,
                    repo,
                    text::opt_text(q.filepath),
                    options,
                    limits,
                    out.ambiguous,
                    out.text@,
                )
                &&& q.depth matches Some(n) ==> options.depth == n && 1 <= n <= 5
                &&& q.depth is None ==> options.depth == 2
                &&& q.direction matches Some(d) ==> options.direction == d
                &&& q.direction is None ==> options.direction == DependencyDirection::Both
                &&& options.include_source == q.include_source
                &&& q.max_nodes matches Some(n) ==> options.max_nodes == n
                &&& q.max_nodes is None ==> options.max_nodes == limits.graph_max_nodes
                &&& options.max_bytes == limits.graph_max_bytes
            },
{
    if q.intent == BatchIntent::DependencyGraph {
        assert(graph::could_graph_as(
            db,
            q.target@,
            repo,
            text::opt_text(q.filepath),
            query_graph(q, limits),
            limits,
            out.ambiguous,
            out.text@,
        ));
    }
    if q.intent == BatchIntent::FindSymbol && scan::trimmed(q.target@).len() > 0 {
        assert(symbols::could_find(
            db,
            repo,
            scan::trimmed(q.target@),
            text::opt_text(q.kind),
            symbols::shown_limit(search_limit(q)),
            out.text@,
        ));
    }
}

/// The answer to a batch is put together from what its queries gave, each of them run
/// unless an earlier one asks the same. It is said to be cut only when it takes more bytes
/// than it may.
pub proof fn law_batches_answer_every_query(
    db: rusqlite::Connection,
    repo: Seq<char>,
    queries: Seq<BatchQuery>,
    max_bytes: usize,
    files: Seq<SourceFile>,
    limits: Settings,
    answer: BatchExecution,
)
    requires
        could_batch(db, repo, queries, max_bytes, files, limits, answer),
    ensures
        answer.query_count == queries.len(),
        max_bytes == 0 ==> answer.text@.len() == 0,
        exists|bodies: Seq<Seq<char>>|
            {
                let sections = #[trigger] sections_of(repo, queries, bodies);
                &&& bodies.len() == queries.len()
                &&& forall|i: int|
                    0 <= i < queries.len() && (forall|j: int|
                        0 <= j < i ==> batch_key(repo, #[trigger] queries[j]) != batch_key(
                            repo,
                            queries[i],
                        )) ==> {
                        ||| exists|out: ExecutedBatchQuery| #[trigger]
                            could_execute(db, queries[i], repo, files, limits, out)
                                && out.text@ == #[trigger] bodies[i]
                        ||| is_failure(db, queries[i], repo, limits, bodies[i])
                    }
                &&& max_bytes > 0 && !answer.truncated ==> answer.text@ == first_sections(
                    sections,
                    sections.len() as int,
                )
                &&& max_bytes > 0 && answer.truncated ==> exists|k: int| #[trigger]
                    is_cut_batch(sections, max_bytes, k, answer.text@)
            },
{
    let (outs, bodies) = choose|
        outs: Seq<Option<ExecutedBatchQuery>>,
        bodies: Seq<Seq<char>>,
    |
        {
            &&& #[trigger] could_run(db, repo, queries, files, limits, outs, bodies)
            &&& answer.text@ == capped_sections(sections_of(repo, queries, bodies), max_bytes)
            &&& answer.truncated == overflows(sections_of(repo, queries, bodies), max_bytes)
            &&& answer.telemetry@ == reports(outs, queries.len() as int)
            &&& answer.ambiguous == ambiguities(outs, queries.len() as int)
        };
    let sections = sections_of(repo, queries, bodies);
    assert forall|i: int| 0 <= i < sections.len() implies (#[trigger] sections[i]).len() > 0 by {
        law_every_query_has_its_section(repo, queries, bodies, i);
    }
    if max_bytes > 0 {
        law_batches_hold_every_section(sections, max_bytes);
    }
    assert forall|i: int|
        0 <= i < queries.len() && (forall|j: int|
            0 <= j < i ==> batch_key(repo, #[trigger] queries[j]) != batch_key(
                repo,
                queries[i],
            )) implies {
        ||| exists|out: ExecutedBatchQuery| #[trigger]
            could_execute(db, queries[i], repo, files, limits, out) && out.text@
                == #[trigger] bodies[i]
        ||| is_failure(db, queries[i], repo, limits, bodies[i])
    } by {
        lemma_none_before(repo, queries, i, 0);
        match outs[i] {
            Some(out) => {
                assert(could_execute(db, queries[i], repo, files, limits, out));
            },
            None => {},
        }
    }
}

/// A section depends on the answer of its own query alone: what comes of the others, a
/// failure too, leaves it as it is.
pub proof fn law_sections_stand_alone(
    repo: Seq<char>,
    queries: Seq<BatchQuery>,
    bodies: Seq<Seq<char>>,
    others: Seq<Seq<char>>,
    i: int,
)
    requires
        0 <= i < queries.len(),
        bodies.len() == queries.len(),
        others.len() == queries.len(),
        bodies[i] == others[i],
    ensures
        sections_of(repo, queries, bodies)[i] == sections_of(repo, queries, others)[i],
{
}

/// A query that repeats an earlier one is answered with a pointer to the first query
/// of its kind, which is itself answered in full.
pub proof fn law_repeated_queries_point_back(repo: Seq<char>, queries: Seq<BatchQuery>, i: int)
    requires
        0 <= i < queries.len(),
        repeats(repo, queries, i),
    ensures
        ({
            let first = first_like(repo, queries, i, 0);
            &&& 0 <= first < i
            &&& batch_key(repo, queries[first]) == batch_key(repo, queries[i])
            &&& !repeats(repo, queries, first)
        }),
{
    lemma_first_like(repo, queries, i, 0);
    lemma_first_is_first(repo, queries, i, 0);
}

proof fn lemma_first_is_first(repo: Seq<char>, queries: Seq<BatchQuery>, i: int, from: int)
    requires
        0 <= from <= i < queries.len(),
        first_like(repo, queries, i, from) < i,
        forall|k: int|
            0 <= k < from ==> batch_key(repo, #[trigger] queries[k]) != batch_key(
                repo,
                queries[i],
            ),
    ensures
        ({
            let first = first_like(repo, queries, i, from);
            &&& batch_key(repo, queries[first]) == batch_key(repo, queries[i])
            &&& !repeats(repo, queries, first)
        }),
    decreases i - from,
{
    if batch_key(repo, queries[from]) == batch_key(repo, queries[i]) {
        lemma_none_before(repo, queries, from, 0);
    } else {
        lemma_first_is_first(repo, queries, i, from + 1);
    }
}

proof fn lemma_none_before(repo: Seq<char>, queries: Seq<BatchQuery>, i: int, from: int)
    requires
        0 <= from <= i < queries.len(),
        forall|k: int|
            0 <= k < i ==> batch_key(repo, #[trigger] queries[k]) != batch_key(repo, queries[i]),
    ensures
        first_like(repo, queries, i, from) == i,
    decreases i - from,
{
    if from < i {
        assert(queries[from] == queries[from]);
        lemma_none_before(repo, queries, i, from + 1);
    }
}

} // verus!
