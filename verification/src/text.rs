//! Character-level text handling shared by every parser in the crate.
//!
//! Strings are modelled by their `Seq<char>` view. The spec functions here
//! describe, once, what std's `trim`, `split_whitespace`, `lines`,
//! `split_once`, `starts_with` and friends compute, and the executable
//! functions below are proved against them.
use vstd::prelude::*;

verus! {

// ---------------------------------------------------------------------------
// Spec vocabulary
// ---------------------------------------------------------------------------

/// Unicode `White_Space`, the property `char::is_whitespace` (and therefore
/// `str::trim` / `str::split_whitespace`) is defined by.
pub open spec fn is_ws(c: char) -> bool {
    let u = c as u32;
    ||| 9 <= u <= 13
    ||| u == 32
    ||| u == 0x85
    ||| u == 0xa0
    ||| u == 0x1680
    ||| 0x2000 <= u <= 0x200a
    ||| u == 0x2028
    ||| u == 0x2029
    ||| u == 0x202f
    ||| u == 0x205f
    ||| u == 0x3000
}

/// `s` with leading whitespace removed.
pub open spec fn trim_start(s: Seq<char>) -> Seq<char>
    decreases s.len(),
{
    if s.len() > 0 && is_ws(s[0]) {
        trim_start(s.drop_first())
    } else {
        s
    }
}

/// `s` with trailing whitespace removed.
pub open spec fn trim_end(s: Seq<char>) -> Seq<char>
    decreases s.len(),
{
    if s.len() > 0 && is_ws(s.last()) {
        trim_end(s.drop_last())
    } else {
        s
    }
}

/// `str::trim`.
pub open spec fn trim(s: Seq<char>) -> Seq<char> {
    trim_end(trim_start(s))
}

/// `p` is a prefix of `s` (`str::starts_with`).
pub open spec fn starts_with(s: Seq<char>, p: Seq<char>) -> bool {
    p.len() <= s.len() && s.take(p.len() as int) == p
}

/// `p` is a suffix of `s` (`str::ends_with`).
pub open spec fn ends_with(s: Seq<char>, p: Seq<char>) -> bool {
    p.len() <= s.len() && s.skip(s.len() - p.len()) == p
}

/// `str::strip_prefix`.
pub open spec fn strip_prefix(s: Seq<char>, p: Seq<char>) -> Option<Seq<char>> {
    if starts_with(s, p) {
        Some(s.skip(p.len() as int))
    } else {
        None
    }
}

/// The whitespace-separated tokens of `s` that come after the partial
/// token `cur` (`str::split_whitespace` is `ws_split(s, seq![])`).
pub open spec fn ws_split(s: Seq<char>, cur: Seq<char>) -> Seq<Seq<char>>
    decreases s.len(),
{
    if s.len() == 0 {
        if cur.len() > 0 { seq![cur] } else { seq![] }
    } else if is_ws(s[0]) {
        (if cur.len() > 0 { seq![cur] } else { seq![] }) + ws_split(s.drop_first(), seq![])
    } else {
        ws_split(s.drop_first(), cur.push(s[0]))
    }
}

/// `str::split_whitespace`.
pub open spec fn ws_tokens(s: Seq<char>) -> Seq<Seq<char>> {
    ws_split(s, seq![])
}

/// A line as `str::lines` yields it: the text before a `\n`, without a
/// `\r` that ends it.
pub open spec fn strip_cr(l: Seq<char>) -> Seq<char> {
    if l.len() > 0 && l.last() == '\r' {
        l.drop_last()
    } else {
        l
    }
}

/// The lines of `s` that come after the partial line `cur`
/// (`str::lines` is `lines_from(s, seq![])`): every `\n` ends a line, and a
/// last line without a `\n` counts only when it is not empty.
pub open spec fn lines_from(s: Seq<char>, cur: Seq<char>) -> Seq<Seq<char>>
    decreases s.len(),
{
    if s.len() == 0 {
        if cur.len() > 0 { seq![cur] } else { seq![] }
    } else if s[0] == '\n' {
        seq![strip_cr(cur)] + lines_from(s.drop_first(), seq![])
    } else {
        lines_from(s.drop_first(), cur.push(s[0]))
    }
}

/// `str::lines`.
pub open spec fn lines(s: Seq<char>) -> Seq<Seq<char>> {
    lines_from(s, seq![])
}

/// Index of the first `c` in `s`, if any.
pub open spec fn find_char(s: Seq<char>, c: char) -> Option<int>
    decreases s.len(),
{
    if s.len() == 0 {
        None
    } else if s[0] == c {
        Some(0)
    } else {
        match find_char(s.drop_first(), c) {
            Some(i) => Some(i + 1),
            None => None,
        }
    }
}

/// `str::split_once(c)`.
pub open spec fn split_once(s: Seq<char>, c: char) -> Option<(Seq<char>, Seq<char>)> {
    match find_char(s, c) {
        Some(i) => Some((s.take(i), s.skip(i + 1))),
        None => None,
    }
}

/// ASCII lower-casing of one character (`char::to_ascii_lowercase`).
pub open spec fn ascii_lower(c: char) -> char {
    if 'A' <= c && c <= 'Z' {
        ((c as u32) + 32) as char
    } else {
        c
    }
}

/// `str::to_ascii_lowercase`.
pub open spec fn lower_ascii(s: Seq<char>) -> Seq<char> {
    s.map_values(|c: char| ascii_lower(c))
}

/// `str::eq_ignore_ascii_case`.
pub open spec fn eq_ignore_case(a: Seq<char>, b: Seq<char>) -> bool {
    lower_ascii(a) == lower_ascii(b)
}

/// The character sequences held by a vector of character vectors.
pub open spec fn views(v: Seq<Vec<char>>) -> Seq<Seq<char>> {
    v.map_values(|x: Vec<char>| x@)
}

/// ASCII digit.
pub open spec fn is_digit(c: char) -> bool {
    '0' <= c && c <= '9'
}

/// ASCII lower-case letter.
pub open spec fn is_lower(c: char) -> bool {
    'a' <= c && c <= 'z'
}

/// The `c`-separated fields of `s` after the partial field `cur`
/// (`str::split(c)` is `split_from(s, c, seq![])`; it always yields at least
/// one field).
pub open spec fn split_from(s: Seq<char>, c: char, cur: Seq<char>) -> Seq<Seq<char>>
    decreases s.len(),
{
    if s.len() == 0 {
        seq![cur]
    } else if s[0] == c {
        seq![cur] + split_from(s.drop_first(), c, seq![])
    } else {
        split_from(s.drop_first(), c, cur.push(s[0]))
    }
}

/// `str::split(c)`.
pub open spec fn split_char(s: Seq<char>, c: char) -> Seq<Seq<char>> {
    split_from(s, c, seq![])
}

/// Lexicographic order of code points; for strings it is the order of
/// their UTF-8 bytes, which is how `String` compares.
pub open spec fn lex_lt(a: Seq<char>, b: Seq<char>) -> bool
    decreases a.len(),
{
    if a.len() == 0 {
        b.len() > 0
    } else if b.len() == 0 {
        false
    } else if a[0] != b[0] {
        (a[0] as u32) < (b[0] as u32)
    } else {
        lex_lt(a.drop_first(), b.drop_first())
    }
}

/// `l` with `x` inserted before the first element it precedes, unless it is
/// already there.
pub open spec fn insert_sorted(l: Seq<Seq<char>>, x: Seq<char>) -> Seq<Seq<char>>
    decreases l.len(),
{
    if l.len() == 0 {
        seq![x]
    } else if l[0] == x {
        l
    } else if lex_lt(x, l[0]) {
        seq![x] + l
    } else {
        seq![l[0]] + insert_sorted(l.drop_first(), x)
    }
}

/// The distinct elements of `xs` in ascending order (`sort` then `dedup`).
pub open spec fn sorted_unique(xs: Seq<Seq<char>>) -> Seq<Seq<char>>
    decreases xs.len(),
{
    if xs.len() == 0 {
        seq![]
    } else {
        insert_sorted(sorted_unique(xs.drop_last()), xs.last())
    }
}

/// The characters of `s` joined by `sep` (`[..].join(sep)`).
pub open spec fn join(parts: Seq<Seq<char>>, sep: Seq<char>) -> Seq<char>
    decreases parts.len(),
{
    if parts.len() == 0 {
        seq![]
    } else if parts.len() == 1 {
        parts[0]
    } else {
        join(parts.drop_last(), sep) + sep + parts.last()
    }
}

/// `Path::join` of `rel` onto `base`: an absolute `rel` replaces `base`;
/// otherwise a `/` goes between them unless `base` is empty or already
/// ends with one.
pub open spec fn join_path(base: Seq<char>, rel: Seq<char>) -> Seq<char> {
    if rel.len() > 0 && rel[0] == '/' {
        rel
    } else if base.len() > 0 && base.last() != '/' {
        base + seq!['/'] + rel
    } else {
        base + rel
    }
}

// ---------------------------------------------------------------------------
// Lemmas
// ---------------------------------------------------------------------------

/// A word: at least one character, none of them whitespace.
pub open spec fn is_word(t: Seq<char>) -> bool {
    t.len() > 0 && forall|j: int| 0 <= j < t.len() ==> !is_ws(#[trigger] t[j])
}

/// Every element is a word.
pub open spec fn all_words(ts: Seq<Seq<char>>) -> bool {
    forall|i: int| 0 <= i < ts.len() ==> is_word(#[trigger] ts[i])
}

proof fn lemma_ws_split_word(w: Seq<char>, rest: Seq<char>, cur: Seq<char>)
    requires
        forall|j: int| 0 <= j < w.len() ==> !is_ws(#[trigger] w[j]),
    ensures
        ws_split(w + rest, cur) == ws_split(rest, cur + w),
    decreases w.len(),
{
    if w.len() == 0 {
        assert(w + rest =~= rest);
        assert(cur + w =~= cur);
    } else {
        let s = w + rest;
        assert(s[0] == w[0]);
        assert(s.drop_first() =~= w.drop_first() + rest);
        assert(cur.push(w[0]) + w.drop_first() =~= cur + w);
        lemma_ws_split_word(w.drop_first(), rest, cur.push(w[0]));
    }
}

/// `join` seen from the front.
pub proof fn lemma_join_front(ts: Seq<Seq<char>>, sep: Seq<char>)
    requires
        ts.len() >= 2,
    ensures
        join(ts, sep) == ts[0] + sep + join(ts.drop_first(), sep),
    decreases ts.len(),
{
    if ts.len() == 2 {
        assert(ts.drop_last().len() == 1);
        assert(join(ts.drop_last(), sep) == ts[0]);
        assert(ts.drop_first().len() == 1);
        assert(join(ts.drop_first(), sep) == ts[1]);
    } else {
        lemma_join_front(ts.drop_last(), sep);
        let a = ts[0];
        let b = join(ts.drop_last().drop_first(), sep);
        let c = ts.last();
        assert(ts.drop_last().drop_first() =~= ts.drop_first().drop_last());
        assert(ts.drop_first().last() == ts.last());
        assert(ts.drop_last()[0] == ts[0]);
        assert(join(ts.drop_first(), sep) == b + sep + c);
        assert((a + sep + b) + sep + c =~= a + sep + (b + sep + c));
    }
}

proof fn lemma_ws_split_join(ts: Seq<Seq<char>>, cur: Seq<char>)
    requires
        ts.len() >= 1,
        all_words(ts),
    ensures
        ws_split(join(ts, " "@), cur) == seq![cur + ts[0]] + ts.drop_first(),
    decreases ts.len(),
{
    reveal_strlit(" ");
    assert(is_word(ts[0]));
    if ts.len() == 1 {
        assert(join(ts, " "@) == ts[0]);
        lemma_ws_split_word(ts[0], seq![], cur);
        assert(ts[0] + Seq::<char>::empty() =~= ts[0]);
        assert(ts.drop_first() =~= Seq::<Seq<char>>::empty());
    } else {
        lemma_join_front(ts, " "@);
        let jr = join(ts.drop_first(), " "@);
        let rest = " "@ + jr;
        assert(ts[0] + " "@ + jr =~= ts[0] + rest);
        lemma_ws_split_word(ts[0], rest, cur);
        assert(rest[0] == ' ');
        assert(rest.drop_first() =~= jr);
        assert(all_words(ts.drop_first())) by {
            assert forall|i: int| 0 <= i < ts.drop_first().len() implies is_word(#[trigger] ts.drop_first()[i]) by {
                assert(ts.drop_first()[i] == ts[i + 1]);
            }
        }
        lemma_ws_split_join(ts.drop_first(), seq![]);
        assert(Seq::<char>::empty() + ts.drop_first()[0] =~= ts.drop_first()[0]);
        assert(seq![ts.drop_first()[0]] + ts.drop_first().drop_first() =~= ts.drop_first());
        assert(seq![cur + ts[0]] + (seq![ts.drop_first()[0]] + ts.drop_first().drop_first())
            =~= seq![cur + ts[0]] + ts.drop_first());
    }
}

/// Words joined by single spaces split back into the same words.
pub proof fn lemma_ws_tokens_of_join(ts: Seq<Seq<char>>)
    requires
        all_words(ts),
    ensures
        ws_tokens(join(ts, " "@)) == ts,
{
    if ts.len() == 0 {
    } else {
        lemma_ws_split_join(ts, seq![]);
        assert(Seq::<char>::empty() + ts[0] =~= ts[0]);
        assert(seq![ts[0]] + ts.drop_first() =~= ts);
    }
}

/// The tokens of a text are words.
pub proof fn lemma_ws_split_words(s: Seq<char>, cur: Seq<char>)
    requires
        forall|j: int| 0 <= j < cur.len() ==> !is_ws(#[trigger] cur[j]),
    ensures
        all_words(ws_split(s, cur)),
    decreases s.len(),
{
    if s.len() == 0 {
    } else if is_ws(s[0]) {
        lemma_ws_split_words(s.drop_first(), seq![]);
        let head: Seq<Seq<char>> = if cur.len() > 0 { seq![cur] } else { seq![] };
        let r = ws_split(s.drop_first(), seq![]);
        assert forall|i: int| 0 <= i < (head + r).len() implies is_word(#[trigger] (head + r)[i]) by {
            if i < head.len() {
                assert((head + r)[i] == cur);
            } else {
                assert((head + r)[i] == r[i - head.len()]);
            }
        }
    } else {
        let c2 = cur.push(s[0]);
        assert forall|j: int| 0 <= j < c2.len() implies !is_ws(#[trigger] c2[j]) by {
            if j < cur.len() {
                assert(c2[j] == cur[j]);
            }
        }
        lemma_ws_split_words(s.drop_first(), c2);
    }
}

/// No text sorts before itself.
pub proof fn lemma_lex_irreflexive(a: Seq<char>)
    ensures
        !lex_lt(a, a),
    decreases a.len(),
{
    if a.len() > 0 {
        lemma_lex_irreflexive(a.drop_first());
    }
}

/// Of two different texts one sorts before the other.
pub proof fn lemma_lex_total(a: Seq<char>, b: Seq<char>)
    requires
        a != b,
    ensures
        lex_lt(a, b) || lex_lt(b, a),
    decreases a.len(),
{
    if a.len() > 0 && b.len() > 0 {
        if a[0] == b[0] {
            if a.drop_first() == b.drop_first() {
                assert(a =~= seq![a[0]] + a.drop_first());
                assert(b =~= seq![b[0]] + b.drop_first());
            }
            lemma_lex_total(a.drop_first(), b.drop_first());
        } else {
            let x = a[0];
            let y = b[0];
            vstd::utf8::char_u32_cast(x, x as u32);
            vstd::utf8::char_u32_cast(y, y as u32);
            assert((x as u32) != (y as u32));
        }
    } else if a.len() == 0 && b.len() == 0 {
        assert(a =~= b);
    }
}

/// Sorting before is transitive.
pub proof fn lemma_lex_transitive(a: Seq<char>, b: Seq<char>, c: Seq<char>)
    requires
        lex_lt(a, b),
        lex_lt(b, c),
    ensures
        lex_lt(a, c),
    decreases a.len(),
{
    if a.len() > 0 && b.len() > 0 && c.len() > 0 && a[0] == b[0] && b[0] == c[0] {
        lemma_lex_transitive(a.drop_first(), b.drop_first(), c.drop_first());
    }
}

/// Strictly ascending: every element sorts before every later one.
pub open spec fn strictly_sorted(l: Seq<Seq<char>>) -> bool {
    forall|i: int, j: int| 0 <= i < j < l.len() ==> lex_lt(#[trigger] l[i], #[trigger] l[j])
}

proof fn lemma_insert_sorted_elems(l: Seq<Seq<char>>, x: Seq<char>, k: int)
    requires
        0 <= k < insert_sorted(l, x).len(),
    ensures
        insert_sorted(l, x)[k] == x || l.contains(insert_sorted(l, x)[k]),
        insert_sorted(l, x).contains(x),
        forall|j: int| 0 <= j < l.len() ==> #[trigger] insert_sorted(l, x).contains(l[j]),
    decreases l.len(),
{
    let r = insert_sorted(l, x);
    if l.len() == 0 {
        assert(r[0] == x);
    } else if l[0] == x {
        assert(r[0] == x);
        assert forall|j: int| 0 <= j < l.len() implies #[trigger] r.contains(l[j]) by {
            assert(r[j] == l[j]);
        }
        assert(l.contains(r[k]) || r[k] == x) by {
            assert(r[k] == l[k]);
        }
    } else if lex_lt(x, l[0]) {
        assert(r[0] == x);
        assert forall|j: int| 0 <= j < l.len() implies #[trigger] r.contains(l[j]) by {
            assert(r[j + 1] == l[j]);
        }
        if k > 0 {
            assert(r[k] == l[k - 1]);
        }
    } else {
        let t = insert_sorted(l.drop_first(), x);
        assert(r =~= seq![l[0]] + t);
        if k > 0 {
            lemma_insert_sorted_elems(l.drop_first(), x, k - 1);
            assert(r[k] == t[k - 1]);
            if l.drop_first().contains(t[k - 1]) {
                let m = choose|m: int| 0 <= m < l.drop_first().len() && l.drop_first()[m] == t[k - 1];
                assert(l[m + 1] == t[k - 1]);
            }
        } else {
            assert(r[0] == l[0]);
        }
        if t.len() > 0 {
            lemma_insert_sorted_elems(l.drop_first(), x, 0);
        }
        let w = choose|m: int| 0 <= m < t.len() && t[m] == x;
        assert(r[w + 1] == x);
        assert forall|j: int| 0 <= j < l.len() implies #[trigger] r.contains(l[j]) by {
            if j == 0 {
                assert(r[0] == l[0]);
            } else {
                assert(l.drop_first()[j - 1] == l[j]);
                assert(t.contains(l.drop_first()[j - 1]));
                let m = choose|m: int| 0 <= m < t.len() && t[m] == l.drop_first()[j - 1];
                assert(r[m + 1] == l[j]);
            }
        }
    }
}

proof fn lemma_insert_sorted_sorted(l: Seq<Seq<char>>, x: Seq<char>)
    requires
        strictly_sorted(l),
    ensures
        strictly_sorted(insert_sorted(l, x)),
    decreases l.len(),
{
    let r = insert_sorted(l, x);
    if l.len() == 0 {
    } else if l[0] == x {
    } else if lex_lt(x, l[0]) {
        assert forall|i: int, j: int| 0 <= i < j < r.len() implies lex_lt(#[trigger] r[i], #[trigger] r[j]) by {
            if i == 0 {
                if j > 1 {
                    lemma_lex_transitive(x, l[0], l[j - 1]);
                }
            } else {
                assert(r[i] == l[i - 1] && r[j] == l[j - 1]);
            }
        }
    } else {
        lemma_lex_total(x, l[0]);
        let t = insert_sorted(l.drop_first(), x);
        assert(strictly_sorted(l.drop_first())) by {
            assert forall|i: int, j: int| 0 <= i < j < l.drop_first().len() implies lex_lt(
                #[trigger] l.drop_first()[i],
                #[trigger] l.drop_first()[j],
            ) by {
                assert(l.drop_first()[i] == l[i + 1] && l.drop_first()[j] == l[j + 1]);
            }
        }
        lemma_insert_sorted_sorted(l.drop_first(), x);
        assert(r =~= seq![l[0]] + t);
        assert forall|i: int, j: int| 0 <= i < j < r.len() implies lex_lt(#[trigger] r[i], #[trigger] r[j]) by {
            if i == 0 {
                lemma_insert_sorted_elems(l.drop_first(), x, j - 1);
                assert(r[j] == t[j - 1]);
                if t[j - 1] != x {
                    let m = choose|m: int| 0 <= m < l.drop_first().len() && l.drop_first()[m] == t[j - 1];
                    assert(l[m + 1] == t[j - 1]);
                }
            } else {
                assert(r[i] == t[i - 1] && r[j] == t[j - 1]);
            }
        }
    }
}

/// The distinct elements, sorted: strictly ascending, nothing lost and
/// nothing added.
pub proof fn lemma_sorted_unique(xs: Seq<Seq<char>>)
    ensures
        strictly_sorted(sorted_unique(xs)),
        forall|i: int| 0 <= i < xs.len() ==> #[trigger] sorted_unique(xs).contains(xs[i]),
        forall|k: int| 0 <= k < sorted_unique(xs).len() ==> #[trigger] xs.contains(sorted_unique(xs)[k]),
    decreases xs.len(),
{
    if xs.len() > 0 {
        let p = sorted_unique(xs.drop_last());
        lemma_sorted_unique(xs.drop_last());
        lemma_insert_sorted_sorted(p, xs.last());
        let r = insert_sorted(p, xs.last());
        if r.len() > 0 {
            lemma_insert_sorted_elems(p, xs.last(), 0);
        }
        assert forall|i: int| 0 <= i < xs.len() implies #[trigger] r.contains(xs[i]) by {
            if i < xs.len() - 1 {
                assert(xs.drop_last()[i] == xs[i]);
                assert(p.contains(xs.drop_last()[i]));
                let m = choose|m: int| 0 <= m < p.len() && p[m] == xs[i];
                assert(r.contains(p[m]));
            }
        }
        assert forall|k: int| 0 <= k < r.len() implies #[trigger] xs.contains(r[k]) by {
            lemma_insert_sorted_elems(p, xs.last(), k);
            if r[k] == xs.last() {
                assert(xs[xs.len() - 1] == r[k]);
            } else {
                let m = choose|m: int| 0 <= m < p.len() && p[m] == r[k];
                assert(xs.drop_last().contains(p[m]));
                let n = choose|n: int| 0 <= n < xs.drop_last().len() && xs.drop_last()[n] == p[m];
                assert(xs[n] == r[k]);
            }
        }
    }
}

pub proof fn lemma_trim_start_skip(s: Seq<char>, i: int)
    requires
        0 <= i < s.len(),
        is_ws(s[i]),
    ensures
        trim_start(s.skip(i)) == trim_start(s.skip(i + 1)),
{
    assert(s.skip(i).drop_first() =~= s.skip(i + 1));
}

pub proof fn lemma_trim_end_take(s: Seq<char>, j: int)
    requires
        0 < j <= s.len(),
        is_ws(s[j - 1]),
    ensures
        trim_end(s.take(j)) == trim_end(s.take(j - 1)),
{
    assert(s.take(j).drop_last() =~= s.take(j - 1));
}

pub proof fn lemma_find_char_first(s: Seq<char>, c: char, k: int)
    requires
        0 <= k <= s.len(),
        forall|j: int| 0 <= j < k ==> s[j] != c,
        k < s.len() ==> s[k] == c,
    ensures
        find_char(s, c) == (if k < s.len() { Some(k) } else { None::<int> }),
    decreases k,
{
    if k > 0 {
        lemma_find_char_first(s.drop_first(), c, k - 1);
    }
}

// ---------------------------------------------------------------------------
// Executable helpers
// ---------------------------------------------------------------------------

/// Appends one character to a `String` with `String::push`; the contract
/// claims what std documents: the character is added at the end.
#[verifier::external_body]
pub(crate) fn push_char(s: &mut String, c: char)
    ensures
        final(s)@ == old(s)@.push(c),
{
    s.push(c);
}

/// The characters of `s`.
pub fn chars_of(s: &str) -> (v: Vec<char>)
    ensures
        v@ == s@,
{
    let mut v: Vec<char> = Vec::new();
    for c in it: s.chars()
        invariant
            v@ == it.seq().take(it.index() as int),
            it.seq() == s@,
    {
        v.push(c);
    }
    v
}

/// The string made of `v[lo..hi]`.
pub fn string_of(v: &Vec<char>, lo: usize, hi: usize) -> (s: String)
    requires
        lo <= hi <= v.len(),
    ensures
        s@ == v@.subrange(lo as int, hi as int),
{
    let mut s = String::new();
    let mut i = lo;
    while i < hi
        invariant
            lo <= i <= hi <= v.len(),
            s@ == v@.subrange(lo as int, i as int),
        decreases hi - i,
    {
        push_char(&mut s, v[i]);
        assert(v@.subrange(lo as int, i + 1) =~= v@.subrange(lo as int, i as int).push(v@[i as int]));
        i = i + 1;
    }
    s
}

/// The string made of all of `v`.
pub fn string_from(v: &Vec<char>) -> (s: String)
    ensures
        s@ == v@,
{
    let s = string_of(v, 0, v.len());
    assert(v@.subrange(0, v@.len() as int) =~= v@);
    s
}

/// `v[lo..hi]` as a new vector.
pub fn slice(v: &Vec<char>, lo: usize, hi: usize) -> (r: Vec<char>)
    requires
        lo <= hi <= v.len(),
    ensures
        r@ == v@.subrange(lo as int, hi as int),
{
    let mut r: Vec<char> = Vec::new();
    let mut i = lo;
    while i < hi
        invariant
            lo <= i <= hi <= v.len(),
            r@ == v@.subrange(lo as int, i as int),
        decreases hi - i,
    {
        r.push(v[i]);
        assert(v@.subrange(lo as int, i + 1) =~= v@.subrange(lo as int, i as int).push(v@[i as int]));
        i = i + 1;
    }
    r
}

/// `char::is_whitespace`.
pub fn is_whitespace(c: char) -> (b: bool)
    ensures
        b == is_ws(c),
{
    let u = c as u32;
    (9 <= u && u <= 13) || u == 32 || u == 0x85 || u == 0xa0 || u == 0x1680 || (0x2000 <= u && u
        <= 0x200a) || u == 0x2028 || u == 0x2029 || u == 0x202f || u == 0x205f || u == 0x3000
}

/// Bounds `(a, b)` with `v[a..b]` the trimmed `v`.
pub fn trim_bounds(v: &Vec<char>) -> (r: (usize, usize))
    ensures
        r.0 <= r.1 <= v.len(),
        v@.subrange(r.0 as int, r.1 as int) == trim(v@),
{
    let n = v.len();
    let mut i: usize = 0;
    assert(v@.skip(0) =~= v@);
    while i < n && is_whitespace(v[i])
        invariant
            i <= n == v.len(),
            trim_start(v@) == trim_start(v@.skip(i as int)),
        decreases n - i,
    {
        proof {
            lemma_trim_start_skip(v@, i as int);
        }
        i = i + 1;
    }
    assert(trim_start(v@) == v@.skip(i as int)) by {
        assert(v@.skip(n as int) =~= Seq::<char>::empty());
    }
    let ghost t = v@.skip(i as int);
    let mut j: usize = n;
    assert(t.take(n - i) =~= t);
    while j > i && is_whitespace(v[j - 1])
        invariant
            i <= j <= n == v.len(),
            t == v@.skip(i as int),
            trim_end(t) == trim_end(t.take(j - i)),
        decreases j,
    {
        proof {
            lemma_trim_end_take(t, j - i);
        }
        j = j - 1;
    }
    assert(trim_end(t.take(j - i)) == t.take(j - i));
    assert(t.take(j - i) =~= v@.subrange(i as int, j as int));
    assert(t.take(n - i) =~= t);
    (i, j)
}

/// Index of the first character of `v` that is not whitespace (its length
/// when there is none): `v[i..]` is `trim_start(v)`.
pub fn trim_start_index(v: &Vec<char>) -> (i: usize)
    ensures
        i <= v.len(),
        v@.skip(i as int) == trim_start(v@),
{
    let n = v.len();
    let mut i: usize = 0;
    assert(v@.skip(0) =~= v@);
    while i < n && is_whitespace(v[i])
        invariant
            i <= n == v.len(),
            trim_start(v@) == trim_start(v@.skip(i as int)),
        decreases n - i,
    {
        proof {
            lemma_trim_start_skip(v@, i as int);
        }
        i = i + 1;
    }
    assert(trim_start(v@) == v@.skip(i as int)) by {
        assert(v@.skip(n as int) =~= Seq::<char>::empty());
    }
    i
}

/// `trim` of a character vector.
pub fn trim_vec(v: &Vec<char>) -> (r: Vec<char>)
    ensures
        r@ == trim(v@),
{
    let (a, b) = trim_bounds(v);
    slice(v, a, b)
}

/// `str::trim` into a new `String`.
pub fn trim_str(s: &str) -> (r: String)
    ensures
        r@ == trim(s@),
{
    let v = chars_of(s);
    let (a, b) = trim_bounds(&v);
    string_of(&v, a, b)
}

/// `starts_with` on character vectors.
pub fn vec_starts_with(v: &Vec<char>, p: &Vec<char>) -> (b: bool)
    ensures
        b == starts_with(v@, p@),
{
    if p.len() > v.len() {
        return false;
    }
    let mut i: usize = 0;
    while i < p.len()
        invariant
            i <= p.len() <= v.len(),
            forall|k: int| 0 <= k < i ==> v@[k] == p@[k],
        decreases p.len() - i,
    {
        if v[i] != p[i] {
            assert(v@.take(p.len() as int)[i as int] != p@[i as int]);
            return false;
        }
        i = i + 1;
    }
    assert(v@.take(p.len() as int) =~= p@);
    true
}

/// `ends_with` on character vectors.
pub fn vec_ends_with(v: &Vec<char>, p: &Vec<char>) -> (b: bool)
    ensures
        b == ends_with(v@, p@),
{
    if p.len() > v.len() {
        return false;
    }
    let off = v.len() - p.len();
    let mut i: usize = 0;
    while i < p.len()
        invariant
            i <= p.len() <= v.len(),
            off == v.len() - p.len(),
            forall|k: int| 0 <= k < i ==> v@[off + k] == p@[k],
        decreases p.len() - i,
    {
        if v[off + i] != p[i] {
            assert(v@.skip(off as int)[i as int] != p@[i as int]);
            return false;
        }
        i = i + 1;
    }
    assert(v@.skip(off as int) =~= p@);
    true
}

/// Vector equality on characters.
pub fn vec_eq(a: &Vec<char>, b: &Vec<char>) -> (r: bool)
    ensures
        r == (a@ == b@),
{
    if a.len() != b.len() {
        return false;
    }
    let mut i: usize = 0;
    while i < a.len()
        invariant
            i <= a.len() == b.len(),
            forall|k: int| 0 <= k < i ==> a@[k] == b@[k],
        decreases a.len() - i,
    {
        if a[i] != b[i] {
            return false;
        }
        i = i + 1;
    }
    assert(a@ =~= b@);
    true
}

/// `str::split_whitespace` on a character vector.
pub fn ws_tokens_vec(v: &Vec<char>) -> (r: Vec<Vec<char>>)
    ensures
        views(r@) == ws_tokens(v@),
{
    let mut out: Vec<Vec<char>> = Vec::new();
    let mut cur: Vec<char> = Vec::new();
    let mut i: usize = 0;
    let n = v.len();
    assert(v@.skip(0) =~= v@);
    assert(views(out@) =~= Seq::<Seq<char>>::empty());
    while i < n
        invariant
            i <= n == v.len(),
            ws_tokens(v@) == views(out@) + ws_split(v@.skip(i as int), cur@),
        decreases n - i,
    {
        let ghost rest = v@.skip(i as int);
        assert(rest.drop_first() =~= v@.skip(i + 1));
        let c = v[i];
        if is_whitespace(c) {
            if cur.len() > 0 {
                let ghost before = out@;
                out.push(cur);
                assert(views(out@) =~= views(before) + seq![cur@]);
            }
            cur = Vec::new();
            assert(ws_split(rest, cur@) =~= ws_split(rest, cur@));
        } else {
            cur.push(c);
        }
        i = i + 1;
    }
    assert(v@.skip(n as int) =~= Seq::<char>::empty());
    if cur.len() > 0 {
        let ghost before = out@;
        out.push(cur);
        assert(views(out@) =~= views(before) + seq![cur@]);
    }
    assert(views(out@) + seq![] =~= views(out@));
    out
}

/// `str::lines` on a character vector.
pub fn lines_vec(v: &Vec<char>) -> (r: Vec<Vec<char>>)
    ensures
        views(r@) == lines(v@),
{
    let mut out: Vec<Vec<char>> = Vec::new();
    let mut cur: Vec<char> = Vec::new();
    let mut i: usize = 0;
    let n = v.len();
    assert(v@.skip(0) =~= v@);
    assert(views(out@) =~= Seq::<Seq<char>>::empty());
    while i < n
        invariant
            i <= n == v.len(),
            lines(v@) == views(out@) + lines_from(v@.skip(i as int), cur@),
        decreases n - i,
    {
        let ghost rest = v@.skip(i as int);
        assert(rest.drop_first() =~= v@.skip(i + 1));
        let c = v[i];
        if c == '\n' {
            let k = cur.len();
            let line = if k > 0 && cur[k - 1] == '\r' {
                slice(&cur, 0, k - 1)
            } else {
                slice(&cur, 0, k)
            };
            assert(line@ == strip_cr(cur@)) by {
                assert(cur@.subrange(0, k as int) =~= cur@);
                if k > 0 {
                    assert(cur@.subrange(0, k - 1) =~= cur@.drop_last());
                }
            }
            let ghost before = out@;
            out.push(line);
            assert(views(out@) =~= views(before) + seq![strip_cr(cur@)]);
            cur = Vec::new();
        } else {
            cur.push(c);
        }
        i = i + 1;
    }
    assert(v@.skip(n as int) =~= Seq::<char>::empty());
    if cur.len() > 0 {
        let ghost before = out@;
        out.push(cur);
        assert(views(out@) =~= views(before) + seq![cur@]);
    }
    assert(views(out@) + seq![] =~= views(out@));
    out
}

/// Index of the first `c` in `v`.
pub fn find_char_vec(v: &Vec<char>, c: char) -> (r: Option<usize>)
    ensures
        match r {
            Some(i) => find_char(v@, c) == Some(i as int) && i < v.len(),
            None => find_char(v@, c) is None,
        },
{
    let n = v.len();
    let mut i: usize = 0;
    assert(v@.skip(0) =~= v@);
    while i < n
        invariant
            i <= n == v.len(),
            find_char(v@, c) == match find_char(v@.skip(i as int), c) {
                Some(j) => Some(j + i),
                None => None,
            },
        decreases n - i,
    {
        assert(v@.skip(i as int).drop_first() =~= v@.skip(i + 1));
        if v[i] == c {
            return Some(i);
        }
        i = i + 1;
    }
    assert(v@.skip(n as int) =~= Seq::<char>::empty());
    None
}

/// `split_once(c)` on a character vector.
pub fn split_once_vec(v: &Vec<char>, c: char) -> (r: Option<(Vec<char>, Vec<char>)>)
    ensures
        match r {
            Some((a, b)) => split_once(v@, c) == Some((a@, b@)),
            None => split_once(v@, c) is None,
        },
{
    match find_char_vec(v, c) {
        Some(i) => {
            let a = slice(v, 0, i);
            let b = slice(v, i + 1, v.len());
            assert(a@ =~= v@.take(i as int));
            assert(b@ =~= v@.skip(i + 1));
            Some((a, b))
        },
        None => None,
    }
}

/// `char::to_ascii_lowercase`.
pub fn lower_char(c: char) -> (r: char)
    ensures
        r == ascii_lower(c),
{
    if 'A' <= c && c <= 'Z' {
        let u = (c as u32) + 32;
        assert(u < 0xD800);
        char_from_ascii(u)
    } else {
        c
    }
}

/// An ASCII code point as a `char`.
fn char_from_ascii(u: u32) -> (c: char)
    requires
        u < 128,
    ensures
        c as u32 == u,
        c == u as char,
{
    // `u as u8 as char` is the lossless conversion for ASCII.
    let b = u as u8;
    b as char
}

/// `eq_ignore_ascii_case` on character vectors.
pub fn eq_ignore_case_vec(a: &Vec<char>, b: &Vec<char>) -> (r: bool)
    ensures
        r == eq_ignore_case(a@, b@),
{
    if a.len() != b.len() {
        assert(lower_ascii(a@).len() != lower_ascii(b@).len());
        return false;
    }
    let mut i: usize = 0;
    while i < a.len()
        invariant
            i <= a.len() == b.len(),
            forall|k: int| 0 <= k < i ==> ascii_lower(a@[k]) == ascii_lower(b@[k]),
        decreases a.len() - i,
    {
        if lower_char(a[i]) != lower_char(b[i]) {
            assert(lower_ascii(a@)[i as int] != lower_ascii(b@)[i as int]);
            return false;
        }
        i = i + 1;
    }
    assert(lower_ascii(a@) =~= lower_ascii(b@));
    true
}

/// `to_ascii_lowercase` of a character vector.
pub fn lower_vec(v: &Vec<char>) -> (r: Vec<char>)
    ensures
        r@ == lower_ascii(v@),
{
    let mut r: Vec<char> = Vec::new();
    let mut i: usize = 0;
    while i < v.len()
        invariant
            i <= v.len(),
            r@ =~= lower_ascii(v@.take(i as int)),
        decreases v.len() - i,
    {
        r.push(lower_char(v[i]));
        assert(lower_ascii(v@.take(i + 1)) =~= lower_ascii(v@.take(i as int)).push(ascii_lower(v@[i as int])));
        i = i + 1;
    }
    assert(v@.take(v.len() as int) =~= v@);
    r
}

/// Concatenation of two character vectors.
pub fn concat(a: &Vec<char>, b: &Vec<char>) -> (r: Vec<char>)
    ensures
        r@ == a@ + b@,
{
    let mut r = slice(a, 0, a.len());
    assert(r@ =~= a@);
    let mut i: usize = 0;
    while i < b.len()
        invariant
            i <= b.len(),
            r@ =~= a@ + b@.take(i as int),
        decreases b.len() - i,
    {
        r.push(b[i]);
        assert(b@.take(i + 1) =~= b@.take(i as int).push(b@[i as int]));
        i = i + 1;
    }
    assert(b@.take(b.len() as int) =~= b@);
    r
}

/// Appends `b` to the end of `a`.
pub fn extend(a: &mut Vec<char>, b: &Vec<char>)
    ensures
        final(a)@ == old(a)@ + b@,
{
    let mut i: usize = 0;
    let ghost a0 = a@;
    while i < b.len()
        invariant
            i <= b.len(),
            a@ =~= a0 + b@.take(i as int),
        decreases b.len() - i,
    {
        a.push(b[i]);
        assert(b@.take(i + 1) =~= b@.take(i as int).push(b@[i as int]));
        i = i + 1;
    }
    assert(b@.take(b.len() as int) =~= b@);
}

/// Appends the characters of a string to a character vector.
pub fn extend_str(a: &mut Vec<char>, s: &str)
    ensures
        final(a)@ == old(a)@ + s@,
{
    let v = chars_of(s);
    extend(a, &v);
}

/// `str::split(c)` on a character vector.
pub fn split_char_vec(v: &Vec<char>, c: char) -> (r: Vec<Vec<char>>)
    ensures
        views(r@) == split_char(v@, c),
        r.len() >= 1,
{
    let mut out: Vec<Vec<char>> = Vec::new();
    let mut cur: Vec<char> = Vec::new();
    let mut i: usize = 0;
    let n = v.len();
    assert(v@.skip(0) =~= v@);
    assert(views(out@) =~= Seq::<Seq<char>>::empty());
    while i < n
        invariant
            i <= n == v.len(),
            split_char(v@, c) == views(out@) + split_from(v@.skip(i as int), c, cur@),
        decreases n - i,
    {
        let ghost rest = v@.skip(i as int);
        assert(rest.drop_first() =~= v@.skip(i + 1));
        let x = v[i];
        if x == c {
            let ghost before = out@;
            out.push(cur);
            assert(views(out@) =~= views(before) + seq![cur@]);
            cur = Vec::new();
        } else {
            cur.push(x);
        }
        i = i + 1;
    }
    assert(v@.skip(n as int) =~= Seq::<char>::empty());
    let ghost before = out@;
    out.push(cur);
    assert(views(out@) =~= views(before) + seq![cur@]);
    out
}

/// Lexicographic `<` on character vectors.
pub fn vec_lex_lt(a: &Vec<char>, b: &Vec<char>) -> (r: bool)
    ensures
        r == lex_lt(a@, b@),
{
    let mut i: usize = 0;
    assert(a@.skip(0) =~= a@);
    assert(b@.skip(0) =~= b@);
    while i < a.len() && i < b.len() && a[i] == b[i]
        invariant
            i <= a.len(),
            i <= b.len(),
            lex_lt(a@, b@) == lex_lt(a@.skip(i as int), b@.skip(i as int)),
        decreases a.len() - i,
    {
        assert(a@.skip(i as int).drop_first() =~= a@.skip(i + 1));
        assert(b@.skip(i as int).drop_first() =~= b@.skip(i + 1));
        i = i + 1;
    }
    if i == a.len() {
        i < b.len()
    } else if i == b.len() {
        false
    } else {
        (a[i] as u32) < (b[i] as u32)
    }
}

/// Inserts `x` into the ascending list `l` unless it is already there.
pub fn insert_sorted_vec(l: &mut Vec<Vec<char>>, x: Vec<char>)
    ensures
        views(final(l)@) == insert_sorted(views(old(l)@), x@),
{
    let ghost big = views(l@);
    let mut i: usize = 0;
    assert(big.take(0) + big.skip(0) =~= big);
    assert(big.take(0) + insert_sorted(big.skip(0), x@) =~= insert_sorted(big, x@));
    while i < l.len()
        invariant
            i <= l.len(),
            big == views(l@),
            big == views(old(l)@),
            insert_sorted(big, x@) == big.take(i as int) + insert_sorted(big.skip(i as int), x@),
        decreases l.len() - i,
    {
        let ghost rest = big.skip(i as int);
        assert(rest[0] == l@[i as int]@);
        if vec_eq(&l[i], &x) {
            assert(insert_sorted(rest, x@) == rest);
            assert(big.take(i as int) + rest =~= big);
            return;
        }
        if vec_lex_lt(&x, &l[i]) {
            l.insert(i, x);
            assert(insert_sorted(rest, x@) == seq![x@] + rest);
            assert(views(l@) =~= big.take(i as int) + (seq![x@] + rest));
            return;
        }
        assert(rest.drop_first() =~= big.skip(i + 1));
        assert(big.take(i as int) + (seq![rest[0]] + insert_sorted(rest.drop_first(), x@)) =~= big.take(i + 1) + insert_sorted(big.skip(i + 1), x@));
        i = i + 1;
    }
    assert(big.skip(l.len() as int) =~= Seq::<Seq<char>>::empty());
    let ghost before = l@;
    l.push(x);
    assert(views(l@) =~= views(before) + seq![x@]);
    assert(big.take(big.len() as int) =~= big);
}

/// Joins character vectors with a separator.
pub fn join_vecs(parts: &Vec<Vec<char>>, sep: &Vec<char>) -> (r: Vec<char>)
    ensures
        r@ == join(views(parts@), sep@),
{
    let ghost ps = views(parts@);
    let mut out: Vec<char> = Vec::new();
    let mut i: usize = 0;
    assert(ps.take(0) =~= Seq::<Seq<char>>::empty());
    while i < parts.len()
        invariant
            i <= parts.len(),
            ps == views(parts@),
            out@ == join(ps.take(i as int), sep@),
        decreases parts.len() - i,
    {
        if i > 0 {
            extend(&mut out, sep);
        }
        extend(&mut out, &parts[i]);
        assert(ps.take(i + 1).drop_last() =~= ps.take(i as int));
        assert(i == 0 ==> out@ =~= join(ps.take(i + 1), sep@));
        i = i + 1;
    }
    assert(ps.take(parts.len() as int) =~= ps);
    out
}

/// `Path::join` on texts, as [`join_path`] says.
pub fn join_path_str(base: &str, rel: &str) -> (r: String)
    ensures
        r@ == join_path(base@, rel@),
{
    let b = chars_of(base);
    let r = chars_of(rel);
    if r.len() > 0 && r[0] == '/' {
        return String::from_str(rel);
    }
    let mut out = slice(&b, 0, b.len());
    assert(b@.subrange(0, b@.len() as int) =~= b@);
    if b.len() > 0 && b[b.len() - 1] != '/' {
        out.push('/');
    }
    extend(&mut out, &r);
    string_from(&out)
}

} // verus!
