//! Text as sequences of characters: measuring, cutting, searching and rendering.
use vstd::prelude::*;
use vstd::string::*;
use vstd::utf8::*;

verus! {

/// `String::push` puts the character behind the ones that the text already holds.
pub assume_specification[ String::push ](s: &mut String, c: char)
    ensures
        final(s)@ == old(s)@.push(c),
;

// ── Views ────────────────────────────────────────────────────────────────────

/// The texts of a list of strings.
pub open spec fn texts(v: Seq<String>) -> Seq<Seq<char>> {
    Seq::new(v.len(), |i: int| v[i]@)
}

/// The text of an optional string.
pub open spec fn opt_text(v: Option<String>) -> Option<Seq<char>> {
    match v {
        Some(s) => Some(s@),
        None => None,
    }
}

/// The text of an optional borrowed string.
pub open spec fn opt_str(v: Option<&str>) -> Option<Seq<char>> {
    match v {
        Some(s) => Some(s@),
        None => None,
    }
}

/// The text of an optional string, with the empty text for `None`.
pub open spec fn text_or_empty(v: Option<Seq<char>>) -> Seq<char> {
    match v {
        Some(s) => s,
        None => Seq::empty(),
    }
}

/// Texts can be put together from either end.
pub proof fn lemma_put_together(a: Seq<char>, b: Seq<char>, c: Seq<char>)
    ensures
        a + (b + c) == a + b + c,
        a + Seq::<char>::empty() == a,
        Seq::<char>::empty() + a == a,
{
    assert(a + (b + c) =~= a + b + c);
    assert(a + Seq::<char>::empty() =~= a);
    assert(Seq::<char>::empty() + a =~= a);
}

/// Pushing a string onto a list pushes its text onto the list's texts.
pub proof fn lemma_texts_push(v: Seq<String>, s: String)
    ensures
        texts(v.push(s)) == texts(v).push(s@),
{
    assert(texts(v.push(s)) =~= texts(v).push(s@));
}

// ── Bytes ────────────────────────────────────────────────────────────────────

/// The number of bytes of a text's UTF-8 encoding.
pub open spec fn bytes(s: Seq<char>) -> nat {
    encode_utf8(s).len()
}

/// The number of bytes of one character's UTF-8 encoding.
pub open spec fn width(c: char) -> nat {
    if c as u32 <= 0x7F {
        1
    } else if c as u32 <= 0x7FF {
        2
    } else if c as u32 <= 0xFFFF {
        3
    } else {
        4
    }
}

/// The encoding of a concatenation is the concatenation of the encodings.
pub proof fn lemma_encode_concat(a: Seq<char>, b: Seq<char>)
    ensures
        encode_utf8(a + b) == encode_utf8(a) + encode_utf8(b),
    decreases a.len(),
{
    if a.len() == 0 {
        assert(a + b =~= b);
        assert(encode_utf8(a) + encode_utf8(b) =~= encode_utf8(b));
    } else {
        assert((a + b).drop_first() =~= a.drop_first() + b);
        lemma_encode_concat(a.drop_first(), b);
        assert(encode_utf8(a + b) =~= encode_utf8(a) + encode_utf8(b));
    }
}

/// A concatenation has the bytes of both parts.
pub proof fn lemma_bytes_concat(a: Seq<char>, b: Seq<char>)
    ensures
        bytes(a + b) == bytes(a) + bytes(b),
{
    lemma_encode_concat(a, b);
}

/// One more character adds its width.
pub proof fn lemma_bytes_push(s: Seq<char>, c: char)
    ensures
        bytes(s.push(c)) == bytes(s) + width(c),
        1 <= width(c) <= 4,
{
    let one = seq![c];
    assert(s.push(c) =~= s + one);
    lemma_bytes_concat(s, one);
    char_is_scalar(c);
    reveal_with_fuel(encode_utf8, 2);
    assert(one.drop_first() =~= Seq::<char>::empty());
    assert(encode_utf8(one) =~= encode_scalar(c as u32));
}

/// The first character's width, and the bytes of what follows it.
pub proof fn lemma_bytes_first(s: Seq<char>)
    requires
        s.len() > 0,
    ensures
        bytes(s) == width(s[0]) + bytes(s.skip(1)),
        1 <= width(s[0]) <= 4,
{
    let one = Seq::<char>::empty().push(s[0]);
    lemma_bytes_push(Seq::<char>::empty(), s[0]);
    assert(s =~= one + s.skip(1));
    lemma_bytes_concat(one, s.skip(1));
}

/// A text is at most as many characters as it has bytes.
pub proof fn lemma_bytes_at_least_chars(s: Seq<char>)
    ensures
        s.len() <= bytes(s),
    decreases s.len(),
{
    if s.len() > 0 {
        lemma_bytes_first(s);
        lemma_bytes_at_least_chars(s.skip(1));
    }
}

/// Longer prefixes have at least as many bytes.
pub proof fn lemma_bytes_prefix(s: Seq<char>, i: int, j: int)
    requires
        0 <= i <= j <= s.len(),
    ensures
        bytes(s.take(i)) <= bytes(s.take(j)),
        i < j ==> bytes(s.take(i)) < bytes(s.take(j)),
{
    assert(s.take(j) =~= s.take(i) + s.subrange(i, j));
    lemma_bytes_concat(s.take(i), s.subrange(i, j));
    lemma_bytes_at_least_chars(s.subrange(i, j));
}

/// The number of bytes of a text.
pub fn byte_len(s: &str) -> (n: usize)
    ensures
        n == bytes(s@),
{
    s.as_bytes().len()
}

/// The number of bytes of one character.
pub fn char_width(c: char) -> (n: usize)
    ensures
        n == width(c),
{
    let code: u32 = c as u32;
    if code <= 0x7F {
        1
    } else if code <= 0x7FF {
        2
    } else if code <= 0xFFFF {
        3
    } else {
        4
    }
}

/// How many leading characters fit into `max` bytes.
pub open spec fn fitting(s: Seq<char>, max: int) -> nat
    decreases s.len(),
{
    if s.len() == 0 || width(s[0]) > max {
        0
    } else {
        1 + fitting(s.skip(1), max - width(s[0]))
    }
}

/// The longest prefix of a text that fits into `max` bytes.
pub open spec fn byte_prefix(s: Seq<char>, max: int) -> Seq<char> {
    s.take(fitting(s, max) as int)
}

/// The byte prefix is a prefix of the text, takes no more than `max` bytes, holds
/// the whole text when that fits, and otherwise could not take one character more.
pub proof fn lemma_byte_prefix(s: Seq<char>, max: int)
    requires
        0 <= max,
    ensures
        fitting(s, max) <= s.len(),
        byte_prefix(s, max).is_prefix_of(s),
        bytes(byte_prefix(s, max)) <= max,
        bytes(s) <= max ==> byte_prefix(s, max) == s,
        bytes(s) > max ==> fitting(s, max) < s.len() && bytes(
            s.take(fitting(s, max) as int + 1),
        ) > max,
    decreases s.len(),
{
    if s.len() == 0 {
        assert(byte_prefix(s, max) =~= s);
    } else {
        lemma_bytes_first(s);
        let w = width(s[0]) as int;
        if w > max {
            assert(s.take(0) =~= Seq::<char>::empty());
            let one = s.take(1);
            lemma_bytes_first(one);
            assert(one.skip(1) =~= Seq::<char>::empty());
        } else {
            let rest = s.skip(1);
            lemma_byte_prefix(rest, max - w);
            let n = fitting(rest, max - w) as int;
            let cut = s.take(n + 1);
            assert(cut.skip(1) =~= rest.take(n));
            lemma_bytes_first(cut);
            if bytes(s) <= max {
                assert(cut =~= s);
            } else {
                let more = s.take(n + 2);
                assert(more.skip(1) =~= rest.take(n + 1));
                lemma_bytes_first(more);
            }
        }
    }
}

/// Cutting to more bytes never keeps fewer characters.
pub proof fn lemma_fitting_monotone(s: Seq<char>, less: int, more: int)
    requires
        less <= more,
    ensures
        fitting(s, less) <= fitting(s, more),
    decreases s.len(),
{
    if s.len() > 0 && width(s[0]) <= less {
        lemma_fitting_monotone(s.skip(1), less - width(s[0]), more - width(s[0]));
    }
}

/// The longest prefix of `text` that fits into `max_bytes` bytes.
pub fn prefix_by_bytes(text: &str, max_bytes: usize) -> (r: String)
    ensures
        r@ == byte_prefix(text@, max_bytes as int),
        bytes(r@) <= max_bytes,
{
    proof {
        lemma_byte_prefix(text@, max_bytes as int);
    }
    if byte_len(text) <= max_bytes {
        return text.to_owned();
    }
    let chars = chars_of(text);
    let mut out = String::new();
    let mut left: usize = max_bytes;
    let mut i: usize = 0;
    assert(text@.skip(0) =~= text@);
    while i < chars.len() && char_width(chars[i]) <= left
        invariant
            chars@ == text@,
            i <= chars.len(),
            out@ == text@.take(i as int),
            fitting(text@, max_bytes as int) == i + fitting(text@.skip(i as int), left as int),
        decreases chars.len() - i,
    {
        let c = chars[i];
        out.push(c);
        assert(text@.take(i as int).push(c) =~= text@.take(i + 1));
        assert(text@.skip(i as int).skip(1) =~= text@.skip(i + 1));
        left = left - char_width(c);
        i += 1;
    }
    out
}

/// Whether a byte offset falls between two characters, and behind how many.
pub open spec fn is_cut(s: Seq<char>, at: int, k: int) -> bool {
    0 <= k <= s.len() && bytes(s.take(k)) == at
}

/// A byte offset falls behind at most one number of characters.
pub proof fn lemma_cut_unique(s: Seq<char>, at: int, j: int, k: int)
    requires
        is_cut(s, at, j),
        is_cut(s, at, k),
    ensures
        j == k,
{
    if j < k {
        lemma_bytes_prefix(s, j, k);
    } else if k < j {
        lemma_bytes_prefix(s, k, j);
    }
}

/// The number of characters in front of a byte offset, if it falls between two.
pub fn chars_before(chars: &Vec<char>, at: usize) -> (r: Option<usize>)
    ensures
        r matches Some(k) ==> is_cut(chars@, at as int, k as int),
        r is None ==> forall|k: int| !is_cut(chars@, at as int, k),
{
    let mut i: usize = 0;
    let mut used: usize = 0;
    proof {
        assert(chars@.take(0) =~= Seq::<char>::empty());
    }
    while i < chars.len() && used < at
        invariant
            i <= chars.len(),
            used == bytes(chars@.take(i as int)),
            used <= at,
        decreases chars.len() - i,
    {
        let w = char_width(chars[i]);
        proof {
            assert(chars@.take(i as int).push(chars@[i as int]) =~= chars@.take(i + 1));
            lemma_bytes_push(chars@.take(i as int), chars@[i as int]);
        }
        if w > at - used {
            proof {
                assert forall|k: int| !is_cut(chars@, at as int, k) by {
                    if is_cut(chars@, at as int, k) {
                        if k <= i {
                            lemma_bytes_prefix(chars@, k, i as int);
                        } else {
                            lemma_bytes_prefix(chars@, i + 1, k);
                        }
                    }
                }
            }
            return None;
        }
        used = used + w;
        i += 1;
    }
    if used == at {
        Some(i)
    } else {
        proof {
            assert forall|k: int| !is_cut(chars@, at as int, k) by {
                if is_cut(chars@, at as int, k) {
                    lemma_bytes_prefix(chars@, k, chars@.len() as int);
                }
            }
        }
        None
    }
}

// ── Building and comparing ───────────────────────────────────────────────────

/// Whether two texts hold the same characters.
pub fn same(a: &str, b: &str) -> (r: bool)
    ensures
        r == (a@ == b@),
{
    let x = a.as_bytes();
    let y = b.as_bytes();
    proof {
        encode_utf8_decode_utf8(a@);
        encode_utf8_decode_utf8(b@);
    }
    if x.len() != y.len() {
        return false;
    }
    let mut i: usize = 0;
    while i < x.len()
        invariant
            i <= x.len(),
            x.len() == y.len(),
            x@ == encode_utf8(a@),
            y@ == encode_utf8(b@),
            forall|k: int| 0 <= k < i ==> x@[k] == y@[k],
        decreases x.len() - i,
    {
        if x[i] != y[i] {
            return false;
        }
        i += 1;
    }
    proof {
        assert(x@ =~= y@);
    }
    true
}

/// The characters of a text.
pub fn chars_of(s: &str) -> (r: Vec<char>)
    ensures
        r@ == s@,
{
    let mut out: Vec<char> = Vec::new();
    for c in it: s.chars()
        invariant
            out@ == it.seq().take(it.index() as int),
            it.seq() == s@,
    {
        out.push(c);
        assert(it.seq().take(it.index() as int).push(c) =~= it.seq().take(it.index() + 1));
    }
    assert(s@.take(s@.len() as int) =~= s@);
    out
}

/// The text that a range of characters spells.
pub fn text_between(chars: &Vec<char>, from: usize, to: usize) -> (r: String)
    requires
        from <= to <= chars.len(),
    ensures
        r@ == chars@.subrange(from as int, to as int),
{
    let mut out = String::new();
    let mut i: usize = from;
    while i < to
        invariant
            from <= i <= to <= chars.len(),
            out@ == chars@.subrange(from as int, i as int),
        decreases to - i,
    {
        out.push(chars[i]);
        assert(chars@.subrange(from as int, i as int).push(chars@[i as int]) =~= chars@.subrange(
            from as int,
            i + 1,
        ));
        i += 1;
    }
    out
}

/// `n` copies of a text, one behind the other.
pub open spec fn repeated(s: Seq<char>, n: nat) -> Seq<char>
    decreases n,
{
    if n == 0 {
        Seq::empty()
    } else {
        repeated(s, (n - 1) as nat) + s
    }
}

/// `n` copies of a text, one behind the other.
pub fn repeat(s: &str, n: usize) -> (r: String)
    ensures
        r@ == repeated(s@, n as nat),
{
    let mut out = String::new();
    let mut i: usize = 0;
    while i < n
        invariant
            i <= n,
            out@ == repeated(s@, i as nat),
        decreases n - i,
    {
        out.append(s);
        i += 1;
    }
    out
}

/// A text followed by spaces up to `w` characters.
pub open spec fn padded_right(s: Seq<char>, w: nat) -> Seq<char> {
    if s.len() >= w {
        s
    } else {
        s + repeated(" "@, (w - s.len()) as nat)
    }
}

/// A text behind spaces that fill it up to `w` characters.
pub open spec fn padded_left(s: Seq<char>, w: nat) -> Seq<char> {
    if s.len() >= w {
        s
    } else {
        repeated(" "@, (w - s.len()) as nat) + s
    }
}

/// Copies stand one behind the other, nothing between them.
pub proof fn law_copies_stand_in_a_row(s: Seq<char>, n: nat)
    ensures
        repeated(s, n) == Seq::new(n, |i: int| s).flatten(),
        repeated(s, n).len() == n * s.len(),
    decreases n,
{
    if n > 0 {
        let fewer = Seq::new((n - 1) as nat, |i: int| s);
        law_copies_stand_in_a_row(s, (n - 1) as nat);
        assert(Seq::new(n, |i: int| s) =~= fewer.push(s));
        fewer.lemma_flatten_push(s);
        assert(n * s.len() == (n - 1) * s.len() + s.len()) by (nonlinear_arith)
            requires
                n > 0,
        ;
    } else {
        assert(Seq::new(0, |i: int| s) =~= Seq::<Seq<char>>::empty());
    }
}

proof fn lemma_spaces(n: nat)
    ensures
        repeated(" "@, n).len() == n,
        forall|i: int| 0 <= i < n ==> #[trigger] repeated(" "@, n)[i] == ' ',
    decreases n,
{
    reveal_strlit(" ");
    if n > 0 {
        lemma_spaces((n - 1) as nat);
    }
}

/// Padding keeps the text whole and adds just as many spaces as are missing, behind it or
/// in front of it.
pub proof fn law_padding_adds_spaces_only(s: Seq<char>, w: nat)
    ensures
        s.len() >= w ==> padded_right(s, w) == s && padded_left(s, w) == s,
        s.len() < w ==> {
            &&& padded_right(s, w).len() == w
            &&& padded_left(s, w).len() == w
            &&& padded_right(s, w).take(s.len() as int) == s
            &&& padded_left(s, w).skip(w - s.len()) == s
            &&& forall|i: int| s.len() <= i < w ==> #[trigger] padded_right(s, w)[i] == ' '
            &&& forall|i: int| 0 <= i < w - s.len() ==> #[trigger] padded_left(s, w)[i] == ' '
        },
{
    if s.len() < w {
        lemma_spaces((w - s.len()) as nat);
        assert(padded_right(s, w).take(s.len() as int) =~= s);
        assert(padded_left(s, w).skip(w - s.len()) =~= s);
    }
}

/// A text followed by spaces up to `w` characters.
pub fn pad_right(s: &str, w: usize) -> (r: String)
    ensures
        r@ == padded_right(s@, w as nat),
{
    let n = s.unicode_len();
    if n >= w {
        s.to_owned()
    } else {
        let fill = repeat(" ", w - n);
        s.to_owned().concat(&fill)
    }
}

/// A text behind spaces that fill it up to `w` characters.
pub fn pad_left(s: &str, w: usize) -> (r: String)
    ensures
        r@ == padded_left(s@, w as nat),
{
    let n = s.unicode_len();
    if n >= w {
        s.to_owned()
    } else {
        repeat(" ", w - n).concat(s)
    }
}

/// The texts in order, with `sep` between any two.
pub open spec fn joined(parts: Seq<Seq<char>>, sep: Seq<char>) -> Seq<char>
    decreases parts.len(),
{
    if parts.len() == 0 {
        Seq::empty()
    } else if parts.len() == 1 {
        parts[0]
    } else {
        joined(parts.drop_last(), sep) + sep + parts.last()
    }
}

/// Joining keeps every text, in order, with the separator in front of each but the first.
pub proof fn law_joining_keeps_every_text(parts: Seq<Seq<char>>, sep: Seq<char>)
    ensures
        parts.len() == 0 ==> joined(parts, sep).len() == 0,
        parts.len() > 0 ==> joined(parts, sep) == parts[0] + parts.skip(1).flat_map(
            |p: Seq<char>| sep + p,
        ),
{
    let f = |p: Seq<char>| sep + p;
    if parts.len() > 0 {
        lemma_joined_flat(parts, sep, f);
    }
}

proof fn lemma_joined_flat(
    parts: Seq<Seq<char>>,
    sep: Seq<char>,
    f: spec_fn(Seq<char>) -> Seq<char>,
)
    requires
        parts.len() > 0,
        forall|p: Seq<char>| #[trigger] f(p) == sep + p,
    ensures
        joined(parts, sep) == parts[0] + parts.skip(1).flat_map(f),
    decreases parts.len(),
{
    if parts.len() == 1 {
        assert(parts.skip(1) =~= Seq::empty());
        assert(parts.skip(1).flat_map(f) =~= Seq::empty());
        assert(joined(parts, sep) =~= parts[0] + parts.skip(1).flat_map(f));
    } else {
        let front = parts.drop_last();
        lemma_joined_flat(front, sep, f);
        assert(parts.skip(1) =~= front.skip(1).push(parts.last()));
        front.skip(1).lemma_flat_map_push(f, parts.last());
        lemma_put_together(parts[0], front.skip(1).flat_map(f), f(parts.last()));
        lemma_put_together(joined(front, sep), sep, parts.last());
    }
}

/// The texts in order, with `sep` between any two.
pub fn join(parts: &Vec<String>, sep: &str) -> (r: String)
    ensures
        r@ == joined(texts(parts@), sep@),
{
    join_first(parts, parts.len(), sep)
}

/// The first `n` texts in order, with `sep` between any two.
pub fn join_first(parts: &Vec<String>, n: usize, sep: &str) -> (r: String)
    requires
        n <= parts.len(),
    ensures
        r@ == joined(texts(parts@).take(n as int), sep@),
        n == parts.len() ==> r@ == joined(texts(parts@), sep@),
{
    let ghost all = texts(parts@);
    proof {
        assert(all.take(all.len() as int) =~= all);
    }
    if n == 0 {
        assert(all.take(0) =~= Seq::<Seq<char>>::empty());
        return String::new();
    }
    let mut out = parts[0].clone();
    let mut i: usize = 1;
    proof {
        assert(all.take(1)[0] == parts@[0]@);
    }
    while i < n
        invariant
            1 <= i <= n <= parts.len(),
            all == texts(parts@),
            out@ == joined(all.take(i as int), sep@),
        decreases n - i,
    {
        out.append(sep);
        out.append(&parts[i]);
        proof {
            let next = all.take(i + 1);
            assert(next.drop_last() =~= all.take(i as int));
            assert(next.last() == parts@[i as int]@);
        }
        i += 1;
    }
    out
}

// ── Numbers ──────────────────────────────────────────────────────────────────

/// The decimal digit of a value below ten.
pub open spec fn digit(d: int) -> char {
    (48 + d) as char
}

/// A number in decimal, without leading zeros.
pub open spec fn decimal(n: nat) -> Seq<char>
    decreases n,
{
    if n < 10 {
        seq![digit(n as int)]
    } else {
        decimal(n / 10).push(digit((n % 10) as int))
    }
}

/// A possibly negative number in decimal.
pub open spec fn signed_decimal(n: int) -> Seq<char> {
    if n < 0 {
        "-"@ + decimal((-n) as nat)
    } else {
        decimal(n as nat)
    }
}

/// A number is written with its digits, the last one behind those of its tenth, and a
/// negative one behind a minus sign.
pub proof fn law_numbers_are_written_in_digits(n: nat, d: nat)
    requires
        d < 10,
    ensures
        decimal(d) == seq![(48 + d) as char],
        n > 0 ==> decimal(n * 10 + d) == decimal(n).push((48 + d) as char),
        signed_decimal(n as int) == decimal(n),
        n > 0 ==> signed_decimal(-n) == "-"@ + decimal(n),
{
    assert((n * 10 + d) / 10 == n && (n * 10 + d) % 10 == d);
}

fn digit_char(d: u8) -> (c: char)
    requires
        d < 10,
    ensures
        c == digit(d as int),
{
    (48u8 + d) as char
}

/// A number in decimal.
pub fn decimal_text(n: u64) -> (r: String)
    ensures
        r@ == decimal(n as nat),
    decreases n,
{
    if n < 10 {
        let mut out = String::new();
        out.push(digit_char(n as u8));
        assert(out@ =~= seq![digit(n as int)]);
        out
    } else {
        let mut out = decimal_text(n / 10);
        out.push(digit_char((n % 10) as u8));
        out
    }
}

/// A size or count in decimal.
pub fn count_text(n: usize) -> (r: String)
    ensures
        r@ == decimal(n as nat),
{
    decimal_text(n as u64)
}

/// A possibly negative number in decimal.
pub fn signed_text(n: i64) -> (r: String)
    ensures
        r@ == signed_decimal(n as int),
{
    if n < 0 {
        let magnitude: u64 = (0i128 - n as i128) as u64;
        "-".to_owned().concat(&decimal_text(magnitude))
    } else {
        decimal_text(n as u64)
    }
}

/// Decimal digits tell their number.
pub proof fn lemma_decimal_injective(a: nat, b: nat)
    requires
        decimal(a) == decimal(b),
    ensures
        a == b,
    decreases a,
{
    lemma_decimal_len(a);
    lemma_decimal_len(b);
    assert(decimal(a).last() == digit((a % 10) as int));
    assert(decimal(b).last() == digit((b % 10) as int));
    assert(a % 10 == b % 10);
    if a >= 10 && b >= 10 {
        assert(decimal(a).drop_last() =~= decimal(a / 10));
        assert(decimal(b).drop_last() =~= decimal(b / 10));
        lemma_decimal_injective(a / 10, b / 10);
    }
}

/// A number has two or more digits exactly from ten on.
proof fn lemma_decimal_len(n: nat)
    ensures
        decimal(n).len() >= 1,
        n >= 10 ==> decimal(n).len() >= 2,
        n < 10 ==> decimal(n).len() == 1,
    decreases n,
{
    if n >= 10 {
        lemma_decimal_len(n / 10);
    }
}

/// The digits of a number are decimal digits.
pub proof fn lemma_decimal_digits(n: nat, i: int)
    requires
        0 <= i < decimal(n).len(),
    ensures
        '0' <= decimal(n)[i] <= '9',
    decreases n,
{
    if n >= 10 && i < decimal(n).len() - 1 {
        lemma_decimal_digits(n / 10, i);
    }
}

/// The value of a run of decimal digits, if it is one.
pub open spec fn digits_value(s: Seq<char>) -> Option<nat>
    decreases s.len(),
{
    if s.len() == 0 {
        Some(0)
    } else {
        match digits_value(s.drop_last()) {
            Some(head) => if '0' <= s.last() <= '9' {
                Some((head * 10 + (s.last() as int - 48)) as nat)
            } else {
                None
            },
            None => None,
        }
    }
}

/// What an unsigned size is parsed from: decimal digits, optionally behind a plus
/// sign, whose value fits.
pub open spec fn parsed_size(s: Seq<char>) -> Option<usize> {
    let body = if s.len() > 0 && s[0] == '+' {
        s.skip(1)
    } else {
        s
    };
    if body.len() == 0 {
        None
    } else {
        match digits_value(body) {
            Some(n) => if n <= usize::MAX {
                Some(n as usize)
            } else {
                None
            },
            None => None,
        }
    }
}

/// Once a run of digits holds something else, it has no value; once it is too
/// large, it stays too large.
proof fn lemma_digits_prefix(s: Seq<char>, k: int)
    requires
        0 <= k <= s.len(),
    ensures
        digits_value(s.take(k)) is None ==> digits_value(s) is None,
        digits_value(s) matches Some(n) ==> digits_value(s.take(k)) is Some && digits_value(
            s.take(k),
        )->0 <= n,
    decreases s.len() - k,
{
    if k == s.len() {
        assert(s.take(k) =~= s);
    } else {
        lemma_digits_prefix(s, k + 1);
        assert(s.take(k + 1).drop_last() =~= s.take(k));
    }
}

/// Parses an unsigned size.
pub fn parse_size(s: &str) -> (r: Option<usize>)
    ensures
        r == parsed_size(s@),
{
    let chars = chars_of(s);
    let mut i: usize = 0;
    if chars.len() > 0 && chars[0] == '+' {
        i = 1;
    }
    if i >= chars.len() {
        return None;
    }
    let ghost from = i as int;
    let ghost body = s@.skip(from);
    assert(from == 0 ==> body =~= s@);
    assert(body.take(0) =~= Seq::<char>::empty());
    let mut value: usize = 0;
    while i < chars.len()
        invariant
            chars@ == s@,
            from <= i <= chars.len(),
            0 <= from,
            body == s@.skip(from),
            digits_value(body.take(i - from)) == Some(value as nat),
            from < s@.len(),
            parsed_size(s@) == (match digits_value(body) {
                Some(n) => if n <= usize::MAX {
                    Some(n as usize)
                } else {
                    None
                },
                None => None,
            }),
        decreases chars.len() - i,
    {
        let c = chars[i];
        proof {
            assert(body.take(i + 1 - from).drop_last() =~= body.take(i - from));
            assert(body.take(i + 1 - from).last() == c);
            lemma_digits_prefix(body, i + 1 - from);
        }
        if c < '0' || c > '9' {
            return None;
        }
        let d: usize = (c as u32 - 48) as usize;
        if value > (usize::MAX - d) / 10 {
            assert(value * 10 + d > usize::MAX) by {
                assert(value >= (usize::MAX - d) / 10 + 1);
            }
            return None;
        }
        value = value * 10 + d;
        i += 1;
    }
    assert(body.take(body.len() as int) =~= body);
    Some(value)
}

/// A number is read back from how it is written, with a plus sign or without.
pub proof fn law_numbers_are_read_as_written(n: usize)
    ensures
        parsed_size(decimal(n as nat)) == Some(n),
        parsed_size("+"@ + decimal(n as nat)) == Some(n),
{
    let digits = decimal(n as nat);
    reveal_strlit("+");
    lemma_decimal_value(n as nat);
    assert(digits[0] != '+') by {
        lemma_decimal_digits(n as nat, 0);
    }
    assert(("+"@ + digits)[0] == '+');
    assert(("+"@ + digits).skip(1) =~= digits);
}

proof fn lemma_decimal_value(n: nat)
    ensures
        digits_value(decimal(n)) == Some(n),
        decimal(n).len() > 0,
    decreases n,
{
    let none = Seq::<char>::empty();
    if n < 10 {
        assert(decimal(n).drop_last() =~= none);
        assert(digits_value(none) == Some(0nat));
    } else {
        lemma_decimal_value(n / 10);
        assert(decimal(n).drop_last() =~= decimal(n / 10));
        assert(n / 10 * 10 + n % 10 == n);
    }
}

} // verus!
