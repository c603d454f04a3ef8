//! Source code with its outermost body replaced by a placeholder.
use crate::scan;
use crate::scan::{first_written_line, trim_start};
use crate::syntax;
use crate::syntax::{captured_ranges, Grammar};
use crate::text;
use crate::text::{byte_len, chars_before, chars_of, repeat, same, text_between};
use vstd::prelude::*;
use vstd::string::*;

verus! {

/// What stands for a body that is left out.
#[derive(Debug, Clone, Copy, PartialEq, Eq, Structural)]
pub enum Placeholder {
    Braces,
    Python,
    Ruby,
}

/// How the source of a language is condensed: the grammar, the query that captures
/// its bodies, and what stands for one.
pub open spec fn plan(lang: Seq<char>) -> Option<(Grammar, Seq<char>, Placeholder)> {
    if lang == "cpp"@ || lang == "cc"@ || lang == "cxx"@ || lang == "h"@ || lang == "hpp"@ {
        Some((Grammar::Cpp, CPP_BODIES@, Placeholder::Braces))
    } else if lang == "py"@ {
        Some((Grammar::Python, PYTHON_BODIES@, Placeholder::Python))
    } else if lang == "ts"@ {
        Some((Grammar::Typescript, SCRIPT_BODIES@, Placeholder::Braces))
    } else if lang == "tsx"@ {
        Some((Grammar::Tsx, SCRIPT_BODIES@, Placeholder::Braces))
    } else if lang == "rs"@ {
        Some((Grammar::Rust, RUST_BODIES@, Placeholder::Braces))
    } else if lang == "rb"@ {
        Some((Grammar::Ruby, RUBY_BODIES@, Placeholder::Ruby))
    } else {
        None
    }
}

/// Function bodies and class bodies.
pub const CPP_BODIES: &'static str = "[(compound_statement) @body (field_declaration_list) @body]";

pub const PYTHON_BODIES: &'static str = "(block) @body";

pub const SCRIPT_BODIES: &'static str = "[(statement_block) @body (class_body) @body]";

pub const RUST_BODIES: &'static str = "[(block) @body (field_declaration_list) @body (declaration_list) @body (enum_variant_list) @body]";

/// The closing keyword lies outside this node and stays.
pub const RUBY_BODIES: &'static str = "(body_statement) @body";

/// Whether one range is to be preferred to another: it starts earlier, or at the
/// same place and ends later.
pub open spec fn encloses_more(a: (usize, usize), b: (usize, usize)) -> bool {
    a.0 < b.0 || (a.0 == b.0 && a.1 > b.1)
}

/// The range that starts first, and among those the one that ends last.
pub open spec fn outermost(ranges: Seq<(usize, usize)>) -> Option<(usize, usize)>
    decreases ranges.len(),
{
    if ranges.len() == 0 {
        None
    } else {
        match outermost(ranges.drop_last()) {
            None => Some(ranges.last()),
            Some(best) => if encloses_more(ranges.last(), best) {
                Some(ranges.last())
            } else {
                Some(best)
            },
        }
    }
}

/// The outermost range is one of the ranges, and none is to be preferred to it.
pub proof fn law_outermost_is_best(ranges: Seq<(usize, usize)>)
    ensures
        outermost(ranges) is None <==> ranges.len() == 0,
        outermost(ranges) matches Some(best) ==> ranges.contains(best) && (forall|i: int|
            0 <= i < ranges.len() ==> !encloses_more(#[trigger] ranges[i], best)),
    decreases ranges.len(),
{
    if ranges.len() > 0 {
        let head = ranges.drop_last();
        law_outermost_is_best(head);
        let best = outermost(ranges)->0;
        assert(ranges.last() == ranges[ranges.len() - 1]);
        if let Some(b) = outermost(head) {
            let k = choose|k: int| 0 <= k < head.len() && head[k] == b;
            assert(ranges[k] == b);
        }
        assert forall|i: int| 0 <= i < ranges.len() implies !encloses_more(
            #[trigger] ranges[i],
            best,
        ) by {
            if i < ranges.len() - 1 {
                assert(head[i] == ranges[i]);
            }
        }
    }
}

/// The number of characters in front of a byte offset that falls between two.
pub open spec fn cut(s: Seq<char>, at: int) -> Option<int> {
    if exists|k: int| text::is_cut(s, at, k) {
        Some(choose|k: int| text::is_cut(s, at, k))
    } else {
        None
    }
}

/// What stands for a left out body.
pub open spec fn placeholder_text(style: Placeholder, body: Seq<char>) -> Seq<char> {
    match style {
        Placeholder::Braces => "{ /* ... */ }"@,
        Placeholder::Python => text::repeated(" "@, indentation(body)) + "pass"@,
        Placeholder::Ruby => "  # ..."@,
    }
}

/// How many bytes the first written line is indented by.
pub open spec fn indentation(body: Seq<char>) -> nat {
    match scan::first_written(scan::lines(body), 0) {
        Some(line) => (text::bytes(line) - text::bytes(scan::trimmed_start(line))) as nat,
        None => 0,
    }
}

/// A text with the characters from `a` to `b` replaced by the placeholder.
pub open spec fn spliced(raw: Seq<char>, a: int, b: int, style: Placeholder) -> Seq<char> {
    raw.take(a) + placeholder_text(style, raw.subrange(a, b)) + raw.skip(b)
}

/// A text with the body at a byte range replaced, unchanged where there is no body
/// or the range does not fall between characters.
pub open spec fn without_body(
    raw: Seq<char>,
    body: Option<(usize, usize)>,
    style: Placeholder,
) -> Seq<char> {
    match body {
        Some((start, end)) => match (cut(raw, start as int), cut(raw, end as int)) {
            (Some(a), Some(b)) => if a <= b {
                spliced(raw, a, b, style)
            } else {
                raw
            },
            _ => raw,
        },
        None => raw,
    }
}

/// The condensed form of a text in a language.
pub open spec fn condensed(raw: Seq<char>, lang: Seq<char>) -> Seq<char> {
    match plan(lang) {
        Some((grammar, query, style)) => match syntax::query_captures(grammar, raw, query) {
            Some(ranges) => without_body(raw, outermost(ranges), style),
            None => raw,
        },
        None => raw,
    }
}

/// Condensing changes nothing in front of the body and nothing behind it.
pub proof fn law_condensed_keeps_surroundings(
    raw: Seq<char>,
    body: Option<(usize, usize)>,
    style: Placeholder,
)
    ensures
        without_body(raw, body, style) == raw || exists|a: int, b: int|
            0 <= a <= b <= raw.len() && without_body(raw, body, style) == #[trigger] spliced(
                raw,
                a,
                b,
                style,
            ),
{
    if let Some((start, end)) = body {
        if let Some(a) = cut(raw, start as int) {
            if let Some(b) = cut(raw, end as int) {
                assert(text::is_cut(raw, start as int, a));
                assert(text::is_cut(raw, end as int, b));
            }
        }
    }
}

/// A body at a byte range that falls between characters is taken out whole and nothing
/// else is: what is in front of it and behind it stays, and in its place stand braces, a
/// `pass` as far to the right as the body's first written line, or a comment.
pub proof fn law_bodies_are_taken_out_whole(
    raw: Seq<char>,
    start: usize,
    end: usize,
    style: Placeholder,
    a: int,
    b: int,
)
    requires
        0 <= a <= b <= raw.len(),
        text::bytes(raw.take(a)) == start,
        text::bytes(raw.take(b)) == end,
    ensures
        without_body(raw, Some((start, end)), style) == raw.take(a) + (match style {
            Placeholder::Braces => "{ /* ... */ }"@,
            Placeholder::Ruby => "  # ..."@,
            Placeholder::Python => text::repeated(
                " "@,
                match scan::first_written(scan::lines(raw.subrange(a, b)), 0) {
                    Some(line) => (text::bytes(line) - text::bytes(
                        scan::trimmed_start(line),
                    )) as nat,
                    None => 0,
                },
            ) + "pass"@,
        }) + raw.skip(b),
        without_body(raw, None, style) == raw,
{
    lemma_cut(raw, start as int, a);
    lemma_cut(raw, end as int, b);
}

/// What is condensed is the outermost body that the parser finds; a text in which it finds
/// none, or which it refuses, stays as it is.
pub proof fn law_the_outermost_body_is_condensed(raw: Seq<char>, lang: Seq<char>)
    ensures
        plan(lang) matches Some((grammar, query, style)) ==> match syntax::query_captures(
            grammar,
            raw,
            query,
        ) {
            None => condensed(raw, lang) == raw,
            Some(ranges) => if ranges.len() == 0 {
                condensed(raw, lang) == raw
            } else {
                exists|i: int|
                    {
                        &&& 0 <= i < ranges.len()
                        &&& condensed(raw, lang) == without_body(
                            raw,
                            Some(#[trigger] ranges[i]),
                            style,
                        )
                        &&& forall|j: int|
                            0 <= j < ranges.len() ==> {
                                ||| ranges[i].0 < (#[trigger] ranges[j]).0
                                ||| ranges[i].0 == ranges[j].0 && ranges[i].1 >= ranges[j].1
                            }
                    }
            },
        },
{
    if let Some((grammar, query, style)) = plan(lang) {
        if let Some(ranges) = syntax::query_captures(grammar, raw, query) {
            law_outermost_is_best(ranges);
            if ranges.len() > 0 {
                let best = outermost(ranges)->Some_0;
                let i = choose|i: int| 0 <= i < ranges.len() && ranges[i] == best;
                assert forall|j: int| 0 <= j < ranges.len() implies {
                    ||| ranges[i].0 < (#[trigger] ranges[j]).0
                    ||| ranges[i].0 == ranges[j].0 && ranges[i].1 >= ranges[j].1
                } by {
                    assert(!encloses_more(ranges[j], best));
                }
            }
        }
    }
}

/// Which languages are condensed, and how.
pub proof fn law_languages_have_their_plans(lang: Seq<char>)
    ensures
        lang == "cpp"@ || lang == "cc"@ || lang == "cxx"@ || lang == "h"@ || lang == "hpp"@
            ==> plan(lang) == Some(
            (
                Grammar::Cpp,
                "[(compound_statement) @body (field_declaration_list) @body]"@,
                Placeholder::Braces,
            ),
        ),
        lang == "py"@ ==> plan(lang) == Some(
            (Grammar::Python, "(block) @body"@, Placeholder::Python),
        ),
        lang == "ts"@ ==> plan(lang) == Some(
            (
                Grammar::Typescript,
                "[(statement_block) @body (class_body) @body]"@,
                Placeholder::Braces,
            ),
        ),
        lang == "tsx"@ ==> plan(lang) == Some(
            (
                Grammar::Tsx,
                "[(statement_block) @body (class_body) @body]"@,
                Placeholder::Braces,
            ),
        ),
        lang == "rs"@ ==> plan(lang) == Some(
            (
                Grammar::Rust,
                "[(block) @body (field_declaration_list) @body (declaration_list) @body (enum_variant_list) @body]"@,
                Placeholder::Braces,
            ),
        ),
        lang == "rb"@ ==> plan(lang) == Some(
            (Grammar::Ruby, "(body_statement) @body"@, Placeholder::Ruby),
        ),
        plan(lang) is Some ==> lang == "cpp"@ || lang == "cc"@ || lang == "cxx"@ || lang == "h"@
            || lang == "hpp"@ || lang == "py"@ || lang == "ts"@ || lang == "tsx"@ || lang == "rs"@
            || lang == "rb"@,
{
    reveal_strlit("cpp");
    reveal_strlit("cc");
    reveal_strlit("cxx");
    reveal_strlit("h");
    reveal_strlit("hpp");
    reveal_strlit("py");
    reveal_strlit("ts");
    reveal_strlit("tsx");
    reveal_strlit("rs");
    reveal_strlit("rb");
    assert("cpp"@.len() == 3 && "cpp"@[0] == 'c');
    assert("cc"@.len() == 2 && "cc"@[0] == 'c');
    assert("cxx"@.len() == 3 && "cxx"@[0] == 'c');
    assert("h"@.len() == 1 && "h"@[0] == 'h');
    assert("hpp"@.len() == 3 && "hpp"@[0] == 'h');
    assert("py"@.len() == 2 && "py"@[0] == 'p');
    assert("ts"@.len() == 2 && "ts"@[0] == 't');
    assert("tsx"@.len() == 3 && "tsx"@[0] == 't');
    assert("rs"@.len() == 2 && "rs"@[0] == 'r' && "rs"@[1] == 's');
    assert("rb"@.len() == 2 && "rb"@[0] == 'r' && "rb"@[1] == 'b');
}

/// A language without a plan is left as it is.
pub proof fn law_unknown_language_is_unchanged(raw: Seq<char>, lang: Seq<char>)
    requires
        plan(lang) is None,
    ensures
        condensed(raw, lang) == raw,
{
}

proof fn lemma_cut(s: Seq<char>, at: int, k: int)
    requires
        text::is_cut(s, at, k),
    ensures
        cut(s, at) == Some(k),
{
    text::lemma_cut_unique(s, at, k, cut(s, at)->0);
}

proof fn lemma_trimmed_start_bytes(s: Seq<char>)
    ensures
        text::bytes(scan::trimmed_start(s)) <= text::bytes(s),
{
    let k = scan::white_until(s, 0);
    lemma_white_until(s, 0);
    assert(s =~= s.take(k) + s.skip(k));
    text::lemma_bytes_concat(s.take(k), s.skip(k));
}

proof fn lemma_white_until(s: Seq<char>, from: int)
    requires
        0 <= from <= s.len(),
    ensures
        from <= scan::white_until(s, from) <= s.len(),
    decreases s.len() - from,
{
    if from < s.len() && scan::is_white(s[from]) {
        lemma_white_until(s, from + 1);
    }
}

/// The range that starts first, and among those the one that ends last.
pub fn outermost_range(ranges: &Vec<(usize, usize)>) -> (r: Option<(usize, usize)>)
    ensures
        r == outermost(ranges@),
{
    let mut best: Option<(usize, usize)> = None;
    let mut i: usize = 0;
    while i < ranges.len()
        invariant
            i <= ranges.len(),
            best == outermost(ranges@.take(i as int)),
        decreases ranges.len() - i,
    {
        let next: (usize, usize) = ranges[i];
        assert(ranges@.take(i + 1).drop_last() =~= ranges@.take(i as int));
        match best {
            None => {
                best = Some(next);
            },
            Some(b) => {
                if next.0 < b.0 || (next.0 == b.0 && next.1 > b.1) {
                    best = Some(next);
                }
            },
        }
        i += 1;
    }
    assert(ranges@.take(ranges@.len() as int) =~= ranges@);
    best
}

/// What stands for a left out body.
pub fn placeholder(style: Placeholder, body: &str) -> (r: String)
    ensures
        r@ == placeholder_text(style, body@),
{
    match style {
        Placeholder::Braces => "{ /* ... */ }".to_owned(),
        Placeholder::Ruby => "  # ...".to_owned(),
        Placeholder::Python => {
            let width: usize = match first_written_line(body) {
                Some(line) => {
                    let rest = trim_start(&line);
                    proof {
                        lemma_trimmed_start_bytes(line@);
                    }
                    byte_len(&line) - byte_len(&rest)
                },
                None => 0,
            };
            repeat(" ", width).concat("pass")
        },
    }
}

/// A text with the outermost of the byte ranges replaced by a placeholder.
pub fn replace_body(raw_text: &str, ranges: &Vec<(usize, usize)>, style: Placeholder) -> (r: String)
    ensures
        r@ == without_body(raw_text@, outermost(ranges@), style),
{
    match outermost_range(ranges) {
        Some((start, end)) => {
            let chars = chars_of(raw_text);
            match (chars_before(&chars, start), chars_before(&chars, end)) {
                (Some(a), Some(b)) => {
                    proof {
                        lemma_cut(raw_text@, start as int, a as int);
                        lemma_cut(raw_text@, end as int, b as int);
                    }
                    if a <= b {
                        let body = text_between(&chars, a, b);
                        let head = text_between(&chars, 0, a);
                        let tail = text_between(&chars, b, chars.len());
                        assert(head@ =~= raw_text@.take(a as int));
                        assert(tail@ =~= raw_text@.skip(b as int));
                        head.concat(&placeholder(style, &body)).concat(&tail)
                    } else {
                        raw_text.to_owned()
                    }
                },
                _ => raw_text.to_owned(),
            }
        },
        None => raw_text.to_owned(),
    }
}

fn plan_for(lang: &str) -> (r: Option<(Grammar, &'static str, Placeholder)>)
    ensures
        r is Some <==> plan(lang@) is Some,
        r matches Some((g, q, p)) ==> plan(lang@) == Some((g, q@, p)),
{
    if same(lang, "cpp") || same(lang, "cc") || same(lang, "cxx") || same(lang, "h") || same(
        lang,
        "hpp",
    ) {
        Some((Grammar::Cpp, CPP_BODIES, Placeholder::Braces))
    } else if same(lang, "py") {
        Some((Grammar::Python, PYTHON_BODIES, Placeholder::Python))
    } else if same(lang, "ts") {
        Some((Grammar::Typescript, SCRIPT_BODIES, Placeholder::Braces))
    } else if same(lang, "tsx") {
        Some((Grammar::Tsx, SCRIPT_BODIES, Placeholder::Braces))
    } else if same(lang, "rs") {
        Some((Grammar::Rust, RUST_BODIES, Placeholder::Braces))
    } else if same(lang, "rb") {
        Some((Grammar::Ruby, RUBY_BODIES, Placeholder::Ruby))
    } else {
        None
    }
}

/// Condenses `raw_text`, written in `lang`, by replacing its outermost body; a text
/// in which no body is found stays as it is.
pub fn condense(raw_text: &str, lang: &str) -> (r: String)
    ensures
        r@ == condensed(raw_text@, lang@),
{
    match plan_for(lang) {
        Some((grammar, query, style)) => match captured_ranges(grammar, raw_text, query) {
            Some(ranges) => replace_body(raw_text, &ranges, style),
            None => raw_text.to_owned(),
        },
        None => raw_text.to_owned(),
    }
}

} // verus!
