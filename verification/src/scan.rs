//! Searching and splitting text, and ordered lists of texts.
use crate::text;
use crate::text::{chars_of, text_between};
use vstd::prelude::*;
use vstd::string::*;

verus! {

// ── Characters ───────────────────────────────────────────────────────────────

/// The characters that Unicode counts as white space.
pub open spec fn is_white(c: char) -> bool {
    let n = c as u32;
    ||| 0x9 <= n <= 0xD
    ||| n == 0x20
    ||| n == 0x85
    ||| n == 0xA0
    ||| n == 0x1680
    ||| 0x2000 <= n <= 0x200A
    ||| n == 0x2028
    ||| n == 0x2029
    ||| n == 0x202F
    ||| n == 0x205F
    ||| n == 0x3000
}

/// Whether a character is white space.
pub fn white(c: char) -> (r: bool)
    ensures
        r == is_white(c),
{
    let n: u32 = c as u32;
    (0x9 <= n && n <= 0xD) || n == 0x20 || n == 0x85 || n == 0xA0 || n == 0x1680 || (0x2000 <= n
        && n <= 0x200A) || n == 0x2028 || n == 0x2029 || n == 0x202F || n == 0x205F || n == 0x3000
}

/// An ASCII letter or digit.
pub open spec fn is_ascii_alnum(c: char) -> bool {
    ('a' <= c <= 'z') || ('A' <= c <= 'Z') || ('0' <= c <= '9')
}

/// A character with ASCII capitals made small.
pub open spec fn lower_char(c: char) -> char {
    if 'A' <= c <= 'Z' {
        (c as u32 + 32) as char
    } else {
        c
    }
}

/// A text with its ASCII capitals made small.
pub open spec fn lowered(s: Seq<char>) -> Seq<char> {
    s.map_values(|c: char| lower_char(c))
}

/// A character with ASCII capitals made small.
pub fn lower(c: char) -> (r: char)
    ensures
        r == lower_char(c),
{
    if 'A' <= c && c <= 'Z' {
        (c as u8 + 32) as char
    } else {
        c
    }
}

/// A text with its ASCII capitals made small.
pub fn lower_text(s: &str) -> (r: String)
    ensures
        r@ == lowered(s@),
{
    let chars = chars_of(s);
    let mut out = String::new();
    let mut i: usize = 0;
    while i < chars.len()
        invariant
            i <= chars.len(),
            chars@ == s@,
            out@ == lowered(s@).take(i as int),
        decreases chars.len() - i,
    {
        out.push(lower(chars[i]));
        assert(lowered(s@).take(i as int).push(lower_char(s@[i as int])) =~= lowered(s@).take(
            i + 1,
        ));
        i += 1;
    }
    assert(lowered(s@).take(s@.len() as int) =~= lowered(s@));
    out
}

/// A text in small letters, as Unicode has them.
pub uninterp spec fn lowercase(s: Seq<char>) -> Seq<char>;

/// `str::to_lowercase`: the text in small letters, which depends on the text alone.
#[verifier::external_body]
pub(crate) fn to_lowercase(s: &str) -> (r: String)
    ensures
        r@ == lowercase(s@),
{
    s.to_lowercase()
}

// ── Prefixes and parts ───────────────────────────────────────────────────────

/// Whether the characters from `at` on begin with `part`.
pub open spec fn has_at(s: Seq<char>, part: Seq<char>, at: int) -> bool {
    0 <= at && at + part.len() <= s.len() && s.subrange(at, at + part.len()) == part
}

/// Whether a text begins with another.
pub open spec fn begins(s: Seq<char>, part: Seq<char>) -> bool {
    has_at(s, part, 0)
}

/// Whether a text holds another somewhere.
pub open spec fn holds(s: Seq<char>, part: Seq<char>) -> bool {
    exists|at: int| has_at(s, part, at)
}

/// Whether the characters from `at` on begin with `part`.
pub fn part_at(s: &Vec<char>, part: &Vec<char>, at: usize) -> (r: bool)
    ensures
        r == has_at(s@, part@, at as int),
{
    if at > s.len() || part.len() > s.len() - at {
        return false;
    }
    let mut i: usize = 0;
    while i < part.len()
        invariant
            i <= part.len(),
            at + part.len() <= s.len(),
            forall|k: int| 0 <= k < i ==> s@[at + k] == part@[k],
        decreases part.len() - i,
    {
        if s[at + i] != part[i] {
            assert(s@.subrange(at as int, at + part@.len())[i as int] != part@[i as int]);
            return false;
        }
        i += 1;
    }
    assert(s@.subrange(at as int, at + part@.len()) =~= part@);
    true
}

/// Whether `s` begins with `part`.
pub fn starts_with(s: &str, part: &str) -> (r: bool)
    ensures
        r == begins(s@, part@),
{
    part_at(&chars_of(s), &chars_of(part), 0)
}

/// Whether `part` occurs in `s`.
pub fn contains(s: &str, part: &str) -> (r: bool)
    ensures
        r == holds(s@, part@),
{
    let a = chars_of(s);
    let b = chars_of(part);
    let mut i: usize = 0;
    while i < a.len()
        invariant
            i <= a.len(),
            a@ == s@,
            b@ == part@,
            forall|k: int| 0 <= k < i ==> !has_at(s@, part@, k),
        decreases a.len() - i,
    {
        if part_at(&a, &b, i) {
            return true;
        }
        i += 1;
    }
    let last = part_at(&a, &b, a.len());
    assert(last ==> has_at(s@, part@, s@.len() as int));
    last
}

/// What follows `part` in a text that begins with it.
pub open spec fn after_prefix(s: Seq<char>, part: Seq<char>) -> Option<Seq<char>> {
    if begins(s, part) {
        Some(s.skip(part.len() as int))
    } else {
        None
    }
}

/// What follows `part` in a text that begins with it.
pub fn strip_prefix(s: &str, part: &str) -> (r: Option<String>)
    ensures
        text::opt_text(r) == after_prefix(s@, part@),
{
    let a = chars_of(s);
    let b = chars_of(part);
    if part_at(&a, &b, 0) {
        assert(s@.subrange(part@.len() as int, s@.len() as int) =~= s@.skip(part@.len() as int));
        Some(text_between(&a, b.len(), a.len()))
    } else {
        None
    }
}

// ── Positions ────────────────────────────────────────────────────────────────

/// The first position from `from` on that holds `c`, or the length.
pub open spec fn index_from(s: Seq<char>, c: char, from: int) -> int
    decreases s.len() - from,
{
    if from >= s.len() {
        s.len() as int
    } else if s[from] == c {
        from
    } else {
        index_from(s, c, from + 1)
    }
}

/// The position found is not before the start, and the first one.
pub proof fn lemma_index_from(s: Seq<char>, c: char, from: int)
    requires
        0 <= from <= s.len(),
    ensures
        from <= index_from(s, c, from) <= s.len(),
        index_from(s, c, from) < s.len() ==> s[index_from(s, c, from)] == c,
        forall|i: int| from <= i < index_from(s, c, from) ==> s[i] != c,
    decreases s.len() - from,
{
    if from < s.len() && s[from] != c {
        lemma_index_from(s, c, from + 1);
    }
}

/// The first position from `from` on that holds `c`, or the length.
pub fn find_char(s: &Vec<char>, c: char, from: usize) -> (r: usize)
    requires
        from <= s.len(),
    ensures
        r == index_from(s@, c, from as int),
        from <= r <= s.len(),
{
    let mut i: usize = from;
    while i < s.len() && s[i] != c
        invariant
            from <= i <= s.len(),
            index_from(s@, c, from as int) == index_from(s@, c, i as int),
        decreases s.len() - i,
    {
        i += 1;
    }
    i
}

/// The pieces of a text from `from` on that the character `c` sets apart.
pub open spec fn pieces_from(s: Seq<char>, c: char, from: int) -> Seq<Seq<char>>
    decreases s.len() - from,
{
    let k = index_from(s, c, from);
    if k < from || k >= s.len() {
        seq![s.skip(from)]
    } else {
        seq![s.subrange(from, k)] + pieces_from(s, c, k + 1)
    }
}

/// The pieces of a text that the character `c` sets apart.
pub open spec fn pieces(s: Seq<char>, c: char) -> Seq<Seq<char>> {
    pieces_from(s, c, 0)
}

/// Pieces make up the text again when the character that set them apart is put back
/// between them, and none of them holds it.
pub proof fn law_pieces_make_up_the_text(s: Seq<char>, c: char)
    ensures
        pieces(s, c).len() > 0,
        text::joined(pieces(s, c), seq![c]) == s,
        forall|i: int| 0 <= i < pieces(s, c).len() ==> !(#[trigger] pieces(s, c)[i]).contains(c),
{
    lemma_pieces_from(s, c, 0);
    assert(s.skip(0) =~= s);
}

proof fn lemma_pieces_from(s: Seq<char>, c: char, from: int)
    requires
        0 <= from <= s.len(),
    ensures
        pieces_from(s, c, from).len() > 0,
        text::joined(pieces_from(s, c, from), seq![c]) == s.skip(from),
        forall|i: int|
            0 <= i < pieces_from(s, c, from).len() ==> !(#[trigger] pieces_from(
                s,
                c,
                from,
            )[i]).contains(c),
    decreases s.len() - from,
{
    lemma_index_from(s, c, from);
    let k = index_from(s, c, from);
    let all = pieces_from(s, c, from);
    if k >= s.len() {
        assert(all =~= seq![s.skip(from)]);
        assert(!all[0].contains(c)) by {
            if all[0].contains(c) {
                let i = choose|i: int| 0 <= i < all[0].len() && all[0][i] == c;
                assert(s[from + i] == c);
            }
        }
    } else {
        lemma_pieces_from(s, c, k + 1);
        let rest = pieces_from(s, c, k + 1);
        let first = s.subrange(from, k);
        assert(!first.contains(c)) by {
            if first.contains(c) {
                let i = choose|i: int| 0 <= i < first.len() && first[i] == c;
                assert(s[from + i] == c);
            }
        }
        assert forall|i: int| 0 <= i < all.len() implies !(#[trigger] all[i]).contains(c) by {
            if i > 0 {
                assert(all[i] == rest[i - 1]);
            }
        }
        text::law_joining_keeps_every_text(all, seq![c]);
        text::law_joining_keeps_every_text(rest, seq![c]);
        let f = |p: Seq<char>| seq![c] + p;
        assert(all.skip(1) =~= rest);
        assert(rest =~= seq![rest[0]] + rest.skip(1));
        lemma_flat_map_first(rest, f);
        assert(text::joined(all, seq![c]) =~= first + seq![c] + s.skip(k + 1));
        assert(first + seq![c] + s.skip(k + 1) =~= s.skip(from));
    }
}

proof fn lemma_flat_map_first(v: Seq<Seq<char>>, f: spec_fn(Seq<char>) -> Seq<char>)
    requires
        v.len() > 0,
    ensures
        v.flat_map(f) == f(v[0]) + v.skip(1).flat_map(f),
{
    assert(v.map_values(f).drop_first() =~= v.skip(1).map_values(f));
    assert(v.map_values(f).first() == f(v[0]));
}

/// The pieces of `s` that the character `c` sets apart.
pub fn split_on(s: &str, c: char) -> (r: Vec<String>)
    ensures
        text::texts(r@) == pieces(s@, c),
{
    let chars = chars_of(s);
    let mut out: Vec<String> = Vec::new();
    let mut pos: usize = 0;
    assert(text::texts(out@) + pieces_from(s@, c, 0) =~= pieces(s@, c));
    loop
        invariant
            chars@ == s@,
            pos <= chars.len(),
            text::texts(out@) + pieces_from(s@, c, pos as int) == pieces(s@, c),
        decreases chars.len() - pos,
    {
        let k = find_char(&chars, c, pos);
        let piece = text_between(&chars, pos, k);
        let ghost before = out@;
        out.push(piece);
        proof {
            text::lemma_texts_push(before, piece);
        }
        if k >= chars.len() {
            proof {
                assert(s@.subrange(pos as int, k as int) =~= s@.skip(pos as int));
                assert(text::texts(out@) =~= text::texts(before) + pieces_from(s@, c, pos as int));
            }
            return out;
        }
        proof {
            assert(text::texts(before) + pieces_from(s@, c, pos as int) =~= text::texts(out@) + pieces_from(
                s@,
                c,
                k + 1,
            ));
        }
        pos = k + 1;
    }
}

/// A line without the carriage return in front of its line feed.
pub open spec fn without_return(s: Seq<char>) -> Seq<char> {
    if s.len() > 0 && s.last() == '\r' {
        s.drop_last()
    } else {
        s
    }
}

/// The lines of a text from `from` on.
pub open spec fn lines_from(s: Seq<char>, from: int) -> Seq<Seq<char>>
    decreases s.len() - from,
{
    let k = index_from(s, '\n', from);
    if from >= s.len() {
        Seq::empty()
    } else if k < from || k >= s.len() {
        seq![s.skip(from)]
    } else {
        seq![without_return(s.subrange(from, k))] + lines_from(s, k + 1)
    }
}

/// The lines of a text: what line feeds end, the last one possibly unended, each
/// without the carriage return in front of its line feed.
pub open spec fn lines(s: Seq<char>) -> Seq<Seq<char>> {
    lines_from(s, 0)
}

/// A line feed ends a line, with the carriage return in front of it where there is one;
/// the lines behind it are those of the rest. What stands behind the last line feed is a
/// line too, unless it is empty.
pub proof fn law_line_feeds_end_lines(line: Seq<char>, rest: Seq<char>)
    requires
        !line.contains('\n'),
    ensures
        lines(Seq::empty()) == Seq::<Seq<char>>::empty(),
        line.len() > 0 ==> lines(line) == seq![line],
        !(line.len() > 0 && line.last() == '\r') ==> lines(line + seq!['\n'] + rest) == seq![line]
            + lines(rest),
        lines(line + seq!['\r', '\n'] + rest) == seq![line] + lines(rest),
{
    lemma_index_from(line, '\n', 0);
    assert(line.skip(0) =~= line);
    let k = index_from(line, '\n', 0);
    if k < line.len() {
        assert(line.contains(line[k]));
    }
    lemma_line(line, seq!['\n'], rest);
    assert(line.push('\r') =~= line + seq!['\r']);
    assert(!line.push('\r').contains('\n')) by {
        if line.push('\r').contains('\n') {
            let i = choose|i: int| 0 <= i < line.len() + 1 && line.push('\r')[i] == '\n';
            assert(line[i] == '\n');
        }
    }
    lemma_line(line.push('\r'), seq!['\n'], rest);
    assert(line.push('\r') + seq!['\n'] + rest =~= line + seq!['\r', '\n'] + rest);
    assert(line.push('\r').drop_last() =~= line);
}

proof fn lemma_line(line: Seq<char>, feed: Seq<char>, rest: Seq<char>)
    requires
        !line.contains('\n'),
        feed == seq!['\n'],
    ensures
        lines(line + feed + rest) == seq![without_return(line)] + lines(rest),
{
    let s = line + feed + rest;
    let k = index_from(s, '\n', 0);
    lemma_index_from(s, '\n', 0);
    assert(s[line.len() as int] == '\n');
    if k < line.len() {
        assert(line[k] == '\n');
        assert(line.contains('\n'));
    }
    assert(k == line.len());
    assert(s.subrange(0, k) =~= line);
    lemma_lines_behind(line + feed, rest, 0);
}

/// What stands before a text does not change its lines.
proof fn lemma_lines_behind(front: Seq<char>, rest: Seq<char>, from: int)
    requires
        0 <= from,
    ensures
        lines_from(front + rest, front.len() + from) == lines_from(rest, from),
    decreases rest.len() - from,
{
    let s = front + rest;
    if from < rest.len() {
        lemma_index_behind(front, rest, '\n', from);
        lemma_index_from(rest, '\n', from);
        let k = index_from(rest, '\n', from);
        if k < rest.len() {
            lemma_lines_behind(front, rest, k + 1);
            assert(s.subrange(front.len() + from, front.len() + k) =~= rest.subrange(from, k));
        } else {
            assert(s.skip(front.len() + from) =~= rest.skip(from));
        }
    }
}

proof fn lemma_index_behind(front: Seq<char>, rest: Seq<char>, c: char, from: int)
    requires
        0 <= from,
    ensures
        from <= rest.len() ==> index_from(front + rest, c, front.len() + from) == front.len()
            + index_from(rest, c, from),
    decreases rest.len() - from,
{
    if from < rest.len() {
        assert((front + rest)[front.len() + from] == rest[from]);
        lemma_index_behind(front, rest, c, from + 1);
    }
}

/// The lines of `s`.
pub fn lines_of(s: &str) -> (r: Vec<String>)
    ensures
        text::texts(r@) == lines(s@),
{
    let chars = chars_of(s);
    let mut out: Vec<String> = Vec::new();
    let mut pos: usize = 0;
    assert(text::texts(out@) + lines_from(s@, 0) =~= lines(s@));
    while pos < chars.len()
        invariant
            chars@ == s@,
            pos <= chars.len(),
            text::texts(out@) + lines_from(s@, pos as int) == lines(s@),
        decreases chars.len() - pos,
    {
        let k = find_char(&chars, '\n', pos);
        let ghost before = out@;
        if k >= chars.len() {
            let piece = text_between(&chars, pos, k);
            out.push(piece);
            proof {
                text::lemma_texts_push(before, piece);
                assert(s@.subrange(pos as int, k as int) =~= s@.skip(pos as int));
                assert(text::texts(out@) =~= text::texts(before) + lines_from(s@, pos as int));
            }
            return out;
        }
        let end: usize = if k > pos && chars[k - 1] == '\r' {
            k - 1
        } else {
            k
        };
        let piece = text_between(&chars, pos, end);
        out.push(piece);
        proof {
            text::lemma_texts_push(before, piece);
            assert(piece@ =~= without_return(s@.subrange(pos as int, k as int)));
            assert(text::texts(before) + lines_from(s@, pos as int) =~= text::texts(out@) + lines_from(
                s@,
                k + 1,
            ));
        }
        pos = k + 1;
    }
    assert(text::texts(out@) + lines_from(s@, pos as int) =~= text::texts(out@));
    out
}

// ── White space ──────────────────────────────────────────────────────────────

/// The first position from `from` on that is not white space, or the length.
pub open spec fn white_until(s: Seq<char>, from: int) -> int
    decreases s.len() - from,
{
    if from >= s.len() {
        s.len() as int
    } else if is_white(s[from]) {
        white_until(s, from + 1)
    } else {
        from
    }
}

/// The first position from `from` on that is white space, or the length.
pub open spec fn word_until(s: Seq<char>, from: int) -> int
    decreases s.len() - from,
{
    if from >= s.len() {
        s.len() as int
    } else if is_white(s[from]) {
        from
    } else {
        word_until(s, from + 1)
    }
}

/// A text without the white space at its start.
pub open spec fn trimmed_start(s: Seq<char>) -> Seq<char> {
    s.skip(white_until(s, 0))
}

/// A text without the white space at its end.
pub open spec fn trimmed_end(s: Seq<char>) -> Seq<char>
    decreases s.len(),
{
    if s.len() > 0 && is_white(s.last()) {
        trimmed_end(s.drop_last())
    } else {
        s
    }
}

/// A text without the white space at both ends.
pub open spec fn trimmed(s: Seq<char>) -> Seq<char> {
    trimmed_end(trimmed_start(s))
}

/// Trimming takes white space off both ends, all of it and nothing else.
pub proof fn law_trimming_takes_white_space_only(s: Seq<char>)
    ensures
        exists|a: int, b: int|
            {
                &&& 0 <= a <= b <= s.len()
                &&& trimmed(s) == #[trigger] s.subrange(a, b)
                &&& forall|i: int| 0 <= i < a || b <= i < s.len() ==> is_white(#[trigger] s[i])
            },
        trimmed(s).len() > 0 ==> !is_white(trimmed(s)[0]) && !is_white(trimmed(s).last()),
{
    lemma_white_until(s, 0);
    let a = white_until(s, 0);
    let rest = trimmed_start(s);
    let k = lemma_trimmed_end(rest);
    assert(trimmed(s) =~= s.subrange(a, a + k));
    assert forall|i: int| 0 <= i < a || a + k <= i < s.len() implies is_white(#[trigger] s[i]) by {
        if i >= a {
            assert(rest[i - a] == s[i]);
        }
    }
    if trimmed(s).len() > 0 {
        assert(trimmed(s)[0] == s[a]);
    }
}

proof fn lemma_white_until(s: Seq<char>, from: int)
    requires
        0 <= from <= s.len(),
    ensures
        from <= white_until(s, from) <= s.len(),
        forall|i: int| from <= i < white_until(s, from) ==> is_white(#[trigger] s[i]),
        white_until(s, from) < s.len() ==> !is_white(s[white_until(s, from)]),
    decreases s.len() - from,
{
    if from < s.len() && is_white(s[from]) {
        lemma_white_until(s, from + 1);
    }
}

proof fn lemma_trimmed_end(s: Seq<char>) -> (k: int)
    ensures
        0 <= k <= s.len(),
        trimmed_end(s) == s.take(k),
        k > 0 ==> !is_white(s[k - 1]),
        forall|i: int| k <= i < s.len() ==> is_white(#[trigger] s[i]),
    decreases s.len(),
{
    if s.len() > 0 && is_white(s.last()) {
        let k = lemma_trimmed_end(s.drop_last());
        assert(s.drop_last().take(k) =~= s.take(k));
        assert forall|i: int| k <= i < s.len() implies is_white(#[trigger] s[i]) by {
            if i < s.len() - 1 {
                assert(s.drop_last()[i] == s[i]);
            }
        }
        k
    } else {
        assert(s.take(s.len() as int) =~= s);
        s.len() as int
    }
}

fn skip_white(s: &Vec<char>, from: usize) -> (r: usize)
    requires
        from <= s.len(),
    ensures
        r == white_until(s@, from as int),
        from <= r <= s.len(),
        r < s.len() ==> !is_white(s@[r as int]),
{
    let mut i: usize = from;
    while i < s.len() && white(s[i])
        invariant
            from <= i <= s.len(),
            white_until(s@, from as int) == white_until(s@, i as int),
        decreases s.len() - i,
    {
        i += 1;
    }
    i
}

fn skip_word(s: &Vec<char>, from: usize) -> (r: usize)
    requires
        from <= s.len(),
    ensures
        r == word_until(s@, from as int),
        from <= r <= s.len(),
        from < s.len() && !is_white(s@[from as int]) ==> from < r,
{
    let mut i: usize = from;
    while i < s.len() && !white(s[i])
        invariant
            from <= i <= s.len(),
            word_until(s@, from as int) == word_until(s@, i as int),
            i == from || from < i,
        decreases s.len() - i,
    {
        i += 1;
    }
    i
}

/// `s` without the white space at its start.
pub fn trim_start(s: &str) -> (r: String)
    ensures
        r@ == trimmed_start(s@),
{
    let chars = chars_of(s);
    let a = skip_white(&chars, 0);
    assert(s@.subrange(a as int, s@.len() as int) =~= s@.skip(a as int));
    text_between(&chars, a, chars.len())
}

/// `s` without the white space at both ends.
pub fn trim(s: &str) -> (r: String)
    ensures
        r@ == trimmed(s@),
{
    let chars = chars_of(s);
    let a = skip_white(&chars, 0);
    let mut b: usize = chars.len();
    assert(s@.subrange(a as int, s@.len() as int) =~= trimmed_start(s@));
    while b > a && white(chars[b - 1])
        invariant
            chars@ == s@,
            a <= b <= chars.len(),
            trimmed_end(trimmed_start(s@)) == trimmed_end(s@.subrange(a as int, b as int)),
        decreases b,
    {
        assert(s@.subrange(a as int, b as int).drop_last() =~= s@.subrange(a as int, b - 1));
        assert(s@.subrange(a as int, b as int).last() == s@[b - 1]);
        b -= 1;
    }
    assert(b > a ==> s@.subrange(a as int, b as int).last() == s@[b - 1]);
    text_between(&chars, a, b)
}

/// The words of a text from `from` on, set apart by white space.
pub open spec fn words_from(s: Seq<char>, from: int) -> Seq<Seq<char>>
    decreases s.len() - from,
{
    let a = white_until(s, from);
    let b = word_until(s, a);
    if from < 0 || a < from || a >= s.len() || b <= a || b > s.len() {
        Seq::empty()
    } else {
        seq![s.subrange(a, b)] + words_from(s, b)
    }
}

/// The words of a text, set apart by white space.
pub open spec fn words(s: Seq<char>) -> Seq<Seq<char>> {
    words_from(s, 0)
}

/// The words of a text are all of it but the white space, in order; none is empty and none
/// holds white space.
pub proof fn law_words_are_all_but_white_space(s: Seq<char>)
    ensures
        words(s).flatten() == s.filter(|c: char| !is_white(c)),
        forall|i: int|
            0 <= i < words(s).len() ==> (#[trigger] words(s)[i]).len() > 0 && forall|j: int|
                0 <= j < words(s)[i].len() ==> !is_white(#[trigger] words(s)[i][j]),
{
    let solid = |c: char| !is_white(c);
    lemma_words_from(s, 0, solid);
    assert(s.skip(0) =~= s);
}

proof fn lemma_all_or_nothing(s: Seq<char>, solid: spec_fn(char) -> bool)
    ensures
        (forall|i: int| 0 <= i < s.len() ==> solid(#[trigger] s[i])) ==> s.filter(solid) == s,
        (forall|i: int| 0 <= i < s.len() ==> !solid(#[trigger] s[i])) ==> s.filter(solid)
            == Seq::<char>::empty(),
    decreases s.len(),
{
    reveal(Seq::filter);
    if s.len() > 0 {
        lemma_all_or_nothing(s.drop_last(), solid);
        assert forall|i: int| 0 <= i < s.drop_last().len() implies s.drop_last()[i] == s[i] by {}
        if forall|i: int| 0 <= i < s.len() ==> solid(#[trigger] s[i]) {
            assert(forall|i: int| 0 <= i < s.drop_last().len() ==> solid(#[trigger] s.drop_last()[i]));
            assert(s.drop_last().push(s.last()) =~= s);
            assert(solid(s[s.len() - 1]));
        }
        if forall|i: int| 0 <= i < s.len() ==> !solid(#[trigger] s[i]) {
            assert(forall|i: int| 0 <= i < s.drop_last().len() ==> !solid(#[trigger] s.drop_last()[i]));
            assert(!solid(s[s.len() - 1]));
        }
    }
}

proof fn lemma_word_until(s: Seq<char>, from: int)
    requires
        0 <= from <= s.len(),
    ensures
        from <= word_until(s, from) <= s.len(),
        forall|i: int| from <= i < word_until(s, from) ==> !is_white(#[trigger] s[i]),
        from < s.len() && !is_white(s[from]) ==> from < word_until(s, from),
    decreases s.len() - from,
{
    if from < s.len() && !is_white(s[from]) {
        lemma_word_until(s, from + 1);
    }
}

proof fn lemma_words_from(s: Seq<char>, from: int, solid: spec_fn(char) -> bool)
    requires
        0 <= from <= s.len(),
        forall|c: char| #[trigger] solid(c) == !is_white(c),
    ensures
        words_from(s, from).flatten() == s.skip(from).filter(solid),
        forall|i: int|
            0 <= i < words_from(s, from).len() ==> (#[trigger] words_from(s, from)[i]).len() > 0
                && forall|j: int|
                0 <= j < words_from(s, from)[i].len() ==> !is_white(
                    #[trigger] words_from(s, from)[i][j],
                ),
    decreases s.len() - from,
{
    lemma_white_until(s, from);
    let a = white_until(s, from);
    lemma_word_until(s, a);
    let b = word_until(s, a);
    let gap = s.subrange(from, a);
    assert forall|i: int| 0 <= i < gap.len() implies !solid(#[trigger] gap[i]) by {
        assert(gap[i] == s[from + i]);
    }
    lemma_all_or_nothing(gap, solid);
    if a >= s.len() {
        assert(s.skip(from) =~= gap);
    } else {
        let word = s.subrange(a, b);
        assert forall|i: int| 0 <= i < word.len() implies solid(#[trigger] word[i]) by {
            assert(word[i] == s[a + i]);
        }
        lemma_all_or_nothing(word, solid);
        lemma_words_from(s, b, solid);
        let rest = words_from(s, b);
        let all = words_from(s, from);
        assert(all =~= seq![word] + rest);
        assert(s.skip(from) =~= gap + (word + s.skip(b)));
        Seq::filter_distributes_over_add(gap, word + s.skip(b), solid);
        Seq::filter_distributes_over_add(word, s.skip(b), solid);
        assert(all.drop_first() =~= rest);
        assert(all.first() == word);
        assert(all.flatten() =~= s.skip(from).filter(solid));
        assert forall|i: int| 0 <= i < all.len() implies (#[trigger] all[i]).len() > 0 && forall|
            j: int,
        |
            0 <= j < all[i].len() ==> !is_white(#[trigger] all[i][j]) by {
            if i == 0 {
                assert forall|j: int| 0 <= j < all[0].len() implies !is_white(
                    #[trigger] all[0][j],
                ) by {
                    assert(all[0][j] == s[a + j]);
                }
            } else {
                assert(all[i] == rest[i - 1]);
            }
        }
    }
}

/// The words of `s`.
pub fn words_of(s: &str) -> (r: Vec<String>)
    ensures
        text::texts(r@) == words(s@),
{
    let chars = chars_of(s);
    let mut out: Vec<String> = Vec::new();
    let mut pos: usize = 0;
    assert(text::texts(out@) + words_from(s@, 0) =~= words(s@));
    loop
        invariant
            chars@ == s@,
            pos <= chars.len(),
            text::texts(out@) + words_from(s@, pos as int) == words(s@),
        decreases chars.len() - pos,
    {
        let a = skip_white(&chars, pos);
        if a >= chars.len() {
            assert(text::texts(out@) + words_from(s@, pos as int) =~= text::texts(out@));
            return out;
        }
        let b = skip_word(&chars, a);
        let piece = text_between(&chars, a, b);
        let ghost before = out@;
        out.push(piece);
        proof {
            text::lemma_texts_push(before, piece);
            assert(text::texts(before) + words_from(s@, pos as int) =~= text::texts(out@) + words_from(
                s@,
                b as int,
            ));
        }
        pos = b;
    }
}

/// The first line that holds more than white space, at or behind `from`.
pub open spec fn first_written(ls: Seq<Seq<char>>, from: int) -> Option<Seq<char>>
    decreases ls.len() - from,
{
    if from >= ls.len() {
        None
    } else if trimmed(ls[from]).len() > 0 {
        Some(ls[from])
    } else {
        first_written(ls, from + 1)
    }
}

/// The first line of `s` that holds more than white space.
pub fn first_written_line(s: &str) -> (r: Option<String>)
    ensures
        text::opt_text(r) == first_written(lines(s@), 0),
{
    let ls = lines_of(s);
    let mut i: usize = 0;
    while i < ls.len()
        invariant
            i <= ls.len(),
            text::texts(ls@) == lines(s@),
            first_written(lines(s@), 0) == first_written(lines(s@), i as int),
        decreases ls.len() - i,
    {
        assert(text::texts(ls@)[i as int] == ls@[i as int]@);
        let t = trim(&ls[i]);
        if !t.as_str().is_empty() {
            return Some(ls[i].clone());
        }
        i += 1;
    }
    None
}

/// How many of the lines, up to `n`, begin with `mark` behind their indentation.
pub open spec fn marked_lines(ls: Seq<Seq<char>>, mark: Seq<char>, n: int) -> nat
    decreases n,
{
    if n <= 0 {
        0
    } else {
        marked_lines(ls, mark, n - 1) + if begins(trimmed_start(ls[n - 1]), mark) {
            1nat
        } else {
            0nat
        }
    }
}

/// Every line that begins with the mark behind its indentation is counted, and no other.
pub proof fn law_marked_lines_are_counted(ls: Seq<Seq<char>>, mark: Seq<char>)
    ensures
        marked_lines(ls, mark, ls.len() as int) == ls.filter(
            |l: Seq<char>| mark.is_prefix_of(trimmed_start(l)),
        ).len(),
{
    let marked = |l: Seq<char>| mark.is_prefix_of(trimmed_start(l));
    lemma_marked_lines(ls, mark, ls.len() as int, marked);
    assert(ls.take(ls.len() as int) =~= ls);
}

proof fn lemma_marked_lines(
    ls: Seq<Seq<char>>,
    mark: Seq<char>,
    n: int,
    marked: spec_fn(Seq<char>) -> bool,
)
    requires
        0 <= n <= ls.len(),
        forall|l: Seq<char>| #[trigger] marked(l) == mark.is_prefix_of(trimmed_start(l)),
    ensures
        marked_lines(ls, mark, n) == ls.take(n).filter(marked).len(),
    decreases n,
{
    reveal(Seq::filter);
    if n > 0 {
        lemma_marked_lines(ls, mark, n - 1, marked);
        assert(ls.take(n).drop_last() =~= ls.take(n - 1));
        let l = trimmed_start(ls[n - 1]);
        assert(begins(l, mark) <==> mark.is_prefix_of(l));
    } else {
        assert(ls.take(0) =~= Seq::empty());
    }
}

/// How many lines of `s` begin with `mark` behind their indentation.
pub fn count_marked_lines(s: &str, mark: &str) -> (r: usize)
    ensures
        r == marked_lines(lines(s@), mark@, lines(s@).len() as int),
{
    let ls = lines_of(s);
    let mut count: usize = 0;
    let mut i: usize = 0;
    while i < ls.len()
        invariant
            i <= ls.len(),
            text::texts(ls@) == lines(s@),
            count <= i,
            count == marked_lines(lines(s@), mark@, i as int),
        decreases ls.len() - i,
    {
        assert(text::texts(ls@)[i as int] == ls@[i as int]@);
        if starts_with(&trim_start(&ls[i]), mark) {
            count += 1;
        }
        i += 1;
    }
    count
}

} // verus!
