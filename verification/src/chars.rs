//! Text as sequences of characters.
//!
//! Contracts in this crate speak of texts as `Seq<char>`. This module says what
//! trimming, splitting, joining and searching mean on such sequences, and gives the
//! executable counterparts, which scan a `Vec<char>`.

use vstd::prelude::*;
use vstd::string::*;

verus! {

/// `String::push` appends one character.
pub assume_specification[ String::push ](s: &mut String, c: char)
    ensures
        final(s)@ == old(s)@.push(c),
;

/// The characters with the Unicode `White_Space` property.
pub open spec fn is_space(c: char) -> bool {
    ||| ('\u{9}' <= c && c <= '\u{d}')
    ||| c == ' '
    ||| c == '\u{85}'
    ||| c == '\u{a0}'
    ||| c == '\u{1680}'
    ||| ('\u{2000}' <= c && c <= '\u{200a}')
    ||| c == '\u{2028}'
    ||| c == '\u{2029}'
    ||| c == '\u{202f}'
    ||| c == '\u{205f}'
    ||| c == '\u{3000}'
}

pub fn is_whitespace(c: char) -> (r: bool)
    ensures
        r == is_space(c),
{
    ('\u{9}' <= c && c <= '\u{d}') || c == ' ' || c == '\u{85}' || c == '\u{a0}' || c == '\u{1680}'
        || ('\u{2000}' <= c && c <= '\u{200a}') || c == '\u{2028}' || c == '\u{2029}' || c
        == '\u{202f}' || c == '\u{205f}' || c == '\u{3000}'
}

/// The characters of `s`.
pub fn chars_of(s: &str) -> (r: Vec<char>)
    ensures
        r@ == s@,
{
    let mut v: Vec<char> = Vec::new();
    for c in it: s.chars()
        invariant
            it.seq() == s@,
            v@ == it.seq().take(it.index()),
    {
        v.push(c);
        assert(it.seq().take(it.index() + 1) =~= it.seq().take(it.index()).push(c));
    }
    assert(s@.take(s@.len() as int) =~= s@);
    v
}

/// The characters `from..to` of `v` as a `String`.
pub fn text_of(v: &Vec<char>, from: usize, to: usize) -> (r: String)
    requires
        from <= to <= v@.len(),
    ensures
        r@ == v@.subrange(from as int, to as int),
{
    let mut s = String::new();
    let mut i: usize = from;
    while i < to
        invariant
            from <= i <= to <= v@.len(),
            s@ == v@.subrange(from as int, i as int),
        decreases to - i,
    {
        s.push(v[i]);
        assert(v@.subrange(from as int, i + 1) =~= v@.subrange(from as int, i as int).push(v@[i as int]));
        i += 1;
    }
    s
}

/// Whether two texts are the same.
pub fn same_text(a: &str, b: &str) -> (r: bool)
    ensures
        r == (a@ == b@),
{
    let x = chars_of(a);
    let y = chars_of(b);
    if x.len() != y.len() {
        return false;
    }
    let mut i: usize = 0;
    while i < x.len()
        invariant
            x@ == a@,
            y@ == b@,
            x@.len() == y@.len(),
            i <= x@.len(),
            forall|k: int| 0 <= k < i ==> x@[k] == y@[k],
        decreases x@.len() - i,
    {
        if x[i] != y[i] {
            assert(x@[i as int] != y@[i as int]);
            return false;
        }
        i += 1;
    }
    assert(x@ =~= y@);
    true
}

/// The view of a text that may be absent.
pub open spec fn opt_text(o: Option<String>) -> Option<Seq<char>> {
    match o {
        Some(s) => Some(s@),
        None => None,
    }
}

/// A copy of a text that may be absent.
pub fn clone_opt(o: &Option<String>) -> (r: Option<String>)
    ensures
        r == *o,
{
    match o {
        Some(s) => Some(s.clone()),
        None => None,
    }
}

/// Whether two texts that may be absent are the same.
pub fn same_opt(a: &Option<String>, b: &Option<String>) -> (r: bool)
    ensures
        r == (opt_text(*a) == opt_text(*b)),
{
    match (a, b) {
        (Some(x), Some(y)) => same_text(x, y),
        (None, None) => true,
        _ => false,
    }
}

/// `s`, unless it is empty.
pub fn non_empty(s: &String) -> (r: Option<String>)
    ensures
        opt_text(r) == text_or_none(s@),
{
    if s.as_str().is_empty() {
        None
    } else {
        Some(s.clone())
    }
}

/// A text stands for itself, the empty text for none.
pub open spec fn text_or_none(t: Seq<char>) -> Option<Seq<char>> {
    if t.len() == 0 {
        None
    } else {
        Some(t)
    }
}

// ---- Trimming ----

/// `t` without its leading white space.
pub open spec fn trim_start(t: Seq<char>) -> Seq<char>
    decreases t.len(),
{
    if t.len() > 0 && is_space(t.first()) {
        trim_start(t.drop_first())
    } else {
        t
    }
}

/// `t` without its trailing white space.
pub open spec fn trim_end(t: Seq<char>) -> Seq<char>
    decreases t.len(),
{
    if t.len() > 0 && is_space(t.last()) {
        trim_end(t.drop_last())
    } else {
        t
    }
}

/// `t` without the white space at either end.
pub open spec fn trimmed(t: Seq<char>) -> Seq<char> {
    trim_end(trim_start(t))
}

/// Where `v` starts and ends once the white space at either end is left out.
pub fn trim_bounds(v: &Vec<char>) -> (r: (usize, usize))
    ensures
        r.0 <= r.1 <= v@.len(),
        v@.subrange(r.0 as int, r.1 as int) == trimmed(v@),
{
    let mut i: usize = 0;
    assert(v@.skip(0) =~= v@);
    while i < v.len() && is_whitespace(v[i])
        invariant
            i <= v@.len(),
            trim_start(v@.skip(i as int)) == trim_start(v@),
        decreases v@.len() - i,
    {
        assert(v@.skip(i as int).drop_first() =~= v@.skip(i + 1));
        i += 1;
    }
    let ghost body = v@.skip(i as int);
    assert(trim_start(v@) == body);
    let mut j: usize = v.len();
    assert(v@.subrange(i as int, j as int) =~= body);
    while j > i && is_whitespace(v[j - 1])
        invariant
            i <= j <= v@.len(),
            trim_end(v@.subrange(i as int, j as int)) == trim_end(body),
        decreases j,
    {
        assert(v@.subrange(i as int, j as int).drop_last() =~= v@.subrange(i as int, j - 1));
        j -= 1;
    }
    (i, j)
}

/// A copy of `s` without the white space at either end.
pub fn trim(s: &str) -> (r: String)
    ensures
        r@ == trimmed(s@),
{
    let v = chars_of(s);
    let (i, j) = trim_bounds(&v);
    text_of(&v, i, j)
}

/// Whether `s` holds nothing but white space.
pub fn is_blank(s: &str) -> (r: bool)
    ensures
        r == (trimmed(s@).len() == 0),
{
    let v = chars_of(s);
    let (i, j) = trim_bounds(&v);
    assert(v@.subrange(i as int, j as int).len() == j - i);
    i == j
}

// ---- Searching ----

/// Whether `pat` stands in `t` at position `i`.
pub open spec fn occurs_at(t: Seq<char>, pat: Seq<char>, i: int) -> bool {
    &&& 0 <= i
    &&& i + pat.len() <= t.len()
    &&& t.subrange(i, i + pat.len()) == pat
}

/// The first position at or after `from` at which `pat` stands in `t`.
pub open spec fn find_from(t: Seq<char>, pat: Seq<char>, from: int) -> Option<int>
    decreases t.len() + 1 - from,
{
    if from < 0 || from > t.len() {
        None
    } else if occurs_at(t, pat, from) {
        Some(from)
    } else {
        find_from(t, pat, from + 1)
    }
}

pub open spec fn contains_text(t: Seq<char>, pat: Seq<char>) -> bool {
    find_from(t, pat, 0) is Some
}

pub open spec fn starts_with(t: Seq<char>, pat: Seq<char>) -> bool {
    occurs_at(t, pat, 0)
}

pub open spec fn ends_with(t: Seq<char>, pat: Seq<char>) -> bool {
    occurs_at(t, pat, t.len() - pat.len())
}

/// `contains_text` says what its name says.
pub proof fn lemma_find_from(t: Seq<char>, pat: Seq<char>, from: int)
    requires
        0 <= from <= t.len() + 1,
    ensures
        find_from(t, pat, from) matches Some(i) ==> from <= i && occurs_at(t, pat, i),
        find_from(t, pat, from) is None ==> forall|i: int| from <= i ==> !occurs_at(t, pat, i),
        find_from(t, pat, from) matches Some(i) ==> forall|k: int|
            from <= k < i ==> !occurs_at(t, pat, k),
    decreases t.len() + 1 - from,
{
    if from <= t.len() && !occurs_at(t, pat, from) {
        lemma_find_from(t, pat, from + 1);
        assert forall|i: int| from <= i && find_from(t, pat, from) is None implies !occurs_at(
            t,
            pat,
            i,
        ) by {
            if i > from {
                assert(from + 1 <= i);
            }
        }
    }
}

/// Whether `p` stands in `v` at position `i`.
pub fn matches_at(v: &Vec<char>, p: &Vec<char>, i: usize) -> (r: bool)
    ensures
        r == occurs_at(v@, p@, i as int),
{
    if p.len() > v.len() || i > v.len() - p.len() {
        return false;
    }
    let n: usize = v.len();
    let mut k: usize = 0;
    while k < p.len()
        invariant
            n == v@.len(),
            i + p@.len() <= v@.len(),
            k <= p@.len(),
            forall|m: int| 0 <= m < k ==> v@[i + m] == p@[m],
        decreases p@.len() - k,
    {
        if v[i + k] != p[k] {
            assert(v@.subrange(i as int, i + p@.len())[k as int] != p@[k as int]);
            return false;
        }
        k += 1;
    }
    assert(v@.subrange(i as int, i + p@.len()) =~= p@);
    true
}

/// The first position at or after `from` at which `p` stands in `v`.
pub fn find_in(v: &Vec<char>, p: &Vec<char>, from: usize) -> (r: Option<usize>)
    ensures
        r matches Some(i) ==> find_from(v@, p@, from as int) == Some(i as int) && from <= i
            && i + p@.len() <= v@.len(),
        r is None ==> find_from(v@, p@, from as int) is None,
{
    if from > v.len() {
        return None;
    }
    let mut i: usize = from;
    loop
        invariant
            from <= i <= v@.len(),
            find_from(v@, p@, from as int) == find_from(v@, p@, i as int),
        decreases v@.len() - i,
    {
        if matches_at(v, p, i) {
            return Some(i);
        }
        if i == v.len() {
            assert(find_from(v@, p@, i + 1) is None);
            return None;
        }
        i += 1;
    }
}

/// Whether `pat` stands anywhere in `s`.
pub fn contains(s: &str, pat: &str) -> (r: bool)
    ensures
        r == contains_text(s@, pat@),
{
    let v = chars_of(s);
    let p = chars_of(pat);
    find_in(&v, &p, 0).is_some()
}

/// Whether `s` starts with `pat`.
pub fn has_prefix(s: &str, pat: &str) -> (r: bool)
    ensures
        r == starts_with(s@, pat@),
{
    let v = chars_of(s);
    let p = chars_of(pat);
    matches_at(&v, &p, 0)
}

/// Whether `s` ends with `pat`.
pub fn has_suffix(s: &str, pat: &str) -> (r: bool)
    ensures
        r == ends_with(s@, pat@),
{
    let v = chars_of(s);
    let p = chars_of(pat);
    if p.len() > v.len() {
        return false;
    }
    matches_at(&v, &p, v.len() - p.len())
}

// ---- Words, lines and joining ----

/// `parts` one after the other, with `sep` between neighbours.
pub open spec fn joined(parts: Seq<Seq<char>>, sep: Seq<char>) -> Seq<char>
    decreases parts.len(),
{
    if parts.len() == 0 {
        Seq::empty()
    } else if parts.len() == 1 {
        parts[0]
    } else {
        joined(parts.drop_last(), sep) + sep + parts.last()
    }
}

/// The views of some texts.
pub open spec fn texts(v: Seq<String>) -> Seq<Seq<char>> {
    v.map_values(|s: String| s@)
}

/// How many characters of `t` come before the first white space.
pub open spec fn word_len(t: Seq<char>) -> nat
    decreases t.len(),
{
    if t.len() == 0 || is_space(t.first()) {
        0
    } else {
        1 + word_len(t.drop_first())
    }
}

proof fn lemma_word_len(t: Seq<char>)
    ensures
        word_len(t) <= t.len(),
        forall|i: int| 0 <= i < word_len(t) ==> !is_space(#[trigger] t[i]),
        word_len(t) < t.len() ==> is_space(t[word_len(t) as int]),
        t.len() > 0 && !is_space(t.first()) ==> word_len(t) > 0,
    decreases t.len(),
{
    if t.len() > 0 && !is_space(t.first()) {
        lemma_word_len(t.drop_first());
        assert forall|i: int| 0 <= i < word_len(t) implies !is_space(#[trigger] t[i]) by {
            if i > 0 {
                assert(t.drop_first()[i - 1] == t[i]);
            }
        }
    }
}

proof fn lemma_trim_start(t: Seq<char>)
    ensures
        trim_start(t).len() <= t.len(),
        trim_start(t).len() > 0 ==> !is_space(trim_start(t).first()),
    decreases t.len(),
{
    if t.len() > 0 && is_space(t.first()) {
        lemma_trim_start(t.drop_first());
    }
}

/// The maximal runs of `t` without white space, in order.
pub open spec fn words(t: Seq<char>) -> Seq<Seq<char>>
    decreases t.len(),
    via words_decreases
{
    let u = trim_start(t);
    if u.len() == 0 {
        Seq::empty()
    } else {
        seq![u.take(word_len(u) as int)] + words(u.skip(word_len(u) as int))
    }
}

#[via_fn]
proof fn words_decreases(t: Seq<char>) {
    lemma_trim_start(t);
    lemma_word_len(trim_start(t));
}

/// Whether `t` is a word: not empty, and without white space.
pub open spec fn is_word(t: Seq<char>) -> bool {
    t.len() > 0 && forall|i: int| 0 <= i < t.len() ==> !is_space(#[trigger] t[i])
}

/// The words of a text are words.
pub proof fn lemma_words_are_words(t: Seq<char>)
    ensures
        forall|i: int| 0 <= i < words(t).len() ==> is_word(#[trigger] words(t)[i]),
    decreases t.len(),
{
    let u = trim_start(t);
    lemma_trim_start(t);
    lemma_word_len(u);
    if u.len() > 0 {
        let n = word_len(u) as int;
        lemma_words_are_words(u.skip(n));
        assert forall|i: int| 0 <= i < words(t).len() implies is_word(#[trigger] words(t)[i]) by {
            if i == 0 {
                let w = words(t)[0];
                assert(w == u.take(n));
                assert forall|k: int| 0 <= k < w.len() implies !is_space(#[trigger] w[k]) by {
                    assert(w[k] == u[k]);
                }
            } else {
                assert(words(t)[i] == words(u.skip(n))[i - 1]);
            }
        }
    }
}

/// Joining can be read from the front as well.
pub proof fn lemma_joined_first(parts: Seq<Seq<char>>, sep: Seq<char>)
    requires
        parts.len() > 1,
    ensures
        joined(parts, sep) == parts[0] + sep + joined(parts.drop_first(), sep),
    decreases parts.len(),
{
    if parts.len() == 2 {
        assert(parts.drop_last().len() == 1);
        assert(joined(parts.drop_last(), sep) == parts[0]);
        assert(joined(parts.drop_first(), sep) == parts[1]);
    } else {
        lemma_joined_first(parts.drop_last(), sep);
        assert(parts.drop_last().drop_first() =~= parts.drop_first().drop_last());
        assert(joined(parts, sep) =~= parts[0] + sep + joined(parts.drop_first(), sep));
    }
}

proof fn lemma_word_then(w: Seq<char>, rest: Seq<char>)
    requires
        forall|i: int| 0 <= i < w.len() ==> !is_space(#[trigger] w[i]),
        rest.len() == 0 || is_space(rest.first()),
    ensures
        word_len(w + rest) == w.len(),
    decreases w.len(),
{
    if w.len() > 0 {
        assert(!is_space(w[0]));
        assert((w + rest).first() == w[0]);
        assert((w + rest).drop_first() =~= w.drop_first() + rest);
        assert forall|i: int| 0 <= i < w.drop_first().len() implies !is_space(
            #[trigger] w.drop_first()[i],
        ) by {
            assert(!is_space(w[i + 1]));
        }
        lemma_word_then(w.drop_first(), rest);
    } else {
        assert(w + rest =~= rest);
    }
}

/// Words that are joined by one white space character are the words of the result.
pub proof fn lemma_words_of_joined(parts: Seq<Seq<char>>, sep: Seq<char>)
    requires
        sep.len() == 1,
        is_space(sep[0]),
        forall|i: int| 0 <= i < parts.len() ==> is_word(#[trigger] parts[i]),
    ensures
        words(joined(parts, sep)) == parts,
    decreases parts.len(),
{
    if parts.len() == 0 {
        assert(words(Seq::<char>::empty()) =~= Seq::<Seq<char>>::empty());
    } else {
        let w = parts[0];
        assert(is_word(w));
        let rest = if parts.len() == 1 {
            Seq::<char>::empty()
        } else {
            sep + joined(parts.drop_first(), sep)
        };
        let t = joined(parts, sep);
        if parts.len() > 1 {
            lemma_joined_first(parts, sep);
        }
        assert(t =~= w + rest);
        lemma_word_then(w, rest);
        assert(t.first() == w[0]);
        assert(trim_start(t) == t);
        assert(t.take(w.len() as int) =~= w);
        assert(t.skip(w.len() as int) =~= rest);
        if parts.len() > 1 {
            assert forall|i: int| 0 <= i < parts.drop_first().len() implies is_word(
                #[trigger] parts.drop_first()[i],
            ) by {
                assert(is_word(parts[i + 1]));
            }
            lemma_words_of_joined(parts.drop_first(), sep);
            let tail = joined(parts.drop_first(), sep);
            assert(rest.first() == sep[0]);
            assert(rest.drop_first() =~= tail);
            assert(trim_start(rest) == trim_start(tail));
            assert(words(rest) == words(tail));
            assert(words(t) =~= seq![w] + parts.drop_first());
        } else {
            assert(words(rest) =~= Seq::<Seq<char>>::empty());
        }
        assert(words(t) =~= parts);
    }
}

/// The maximal runs of `s` without white space, in order.
pub fn split_words(s: &str) -> (r: Vec<String>)
    ensures
        texts(r@) == words(s@),
{
    let v = chars_of(s);
    let mut out: Vec<String> = Vec::new();
    let mut i: usize = 0;
    assert(v@.skip(0) =~= v@);
    assert(texts(out@) =~= Seq::<Seq<char>>::empty());
    assert(texts(out@) + words(v@) =~= words(v@));
    loop
        invariant
            v@ == s@,
            i <= v@.len(),
            texts(out@) + words(v@.skip(i as int)) == words(v@),
        ensures
            texts(out@) == words(v@),
        decreases v@.len() - i,
    {
        let ghost rest = v@.skip(i as int);
        let mut b: usize = i;
        while b < v.len() && is_whitespace(v[b])
            invariant
                i <= b <= v@.len(),
                trim_start(v@.skip(b as int)) == trim_start(rest),
            decreases v@.len() - b,
        {
            assert(v@.skip(b as int).drop_first() =~= v@.skip(b + 1));
            b += 1;
        }
        let ghost u = v@.skip(b as int);
        assert(trim_start(rest) == u);
        if b == v.len() {
            assert(words(rest) =~= Seq::<Seq<char>>::empty());
            assert(texts(out@) + words(rest) =~= texts(out@));
            break;
        }
        let mut e: usize = b;
        assert(v@.skip(e as int) =~= u);
        while e < v.len() && !is_whitespace(v[e])
            invariant
                b <= e <= v@.len(),
                word_len(u) == (e - b) + word_len(v@.skip(e as int)),
            decreases v@.len() - e,
        {
            assert(v@.skip(e as int).drop_first() =~= v@.skip(e + 1));
            e += 1;
        }
        proof {
            lemma_word_len(u);
        }
        assert(word_len(u) == e - b);
        let w = text_of(&v, b, e);
        assert(u.take(e - b) =~= v@.subrange(b as int, e as int));
        assert(u.skip(e - b) =~= v@.skip(e as int));
        let ghost before = out@;
        out.push(w);
        assert(texts(out@) =~= texts(before).push(w@));
        assert(texts(out@) + words(v@.skip(e as int)) =~= texts(before) + words(rest));
        i = e;
    }
    out
}

/// `parts` one after the other, with `sep` between neighbours.
pub fn join(parts: &Vec<String>, sep: &str) -> (r: String)
    ensures
        r@ == joined(texts(parts@), sep@),
{
    let mut out = String::new();
    let mut i: usize = 0;
    let ghost all = texts(parts@);
    while i < parts.len()
        invariant
            i <= parts@.len(),
            all == texts(parts@),
            out@ == joined(all.take(i as int), sep@),
        decreases parts@.len() - i,
    {
        if i > 0 {
            out.append(sep);
        }
        out.append(parts[i].as_str());
        proof {
            let next = all.take(i + 1);
            assert(next.drop_last() =~= all.take(i as int));
            assert(next.last() == parts@[i as int]@);
            if i == 0 {
                assert(out@ =~= parts@[0]@);
            }
        }
        i += 1;
    }
    assert(all.take(all.len() as int) =~= all);
    out
}

/// The position of the first `c` in `t` at or after `from`, or the length of `t`.
pub open spec fn next_char(t: Seq<char>, c: char, from: int) -> int
    decreases t.len() - from,
{
    if from < 0 || from >= t.len() {
        t.len() as int
    } else if t[from] == c {
        from
    } else {
        next_char(t, c, from + 1)
    }
}

pub proof fn lemma_next_char(t: Seq<char>, c: char, from: int)
    requires
        0 <= from <= t.len(),
    ensures
        from <= next_char(t, c, from) <= t.len(),
        next_char(t, c, from) < t.len() ==> t[next_char(t, c, from)] == c,
        forall|i: int| from <= i < next_char(t, c, from) ==> t[i] != c,
    decreases t.len() - from,
{
    if from < t.len() && t[from] != c {
        lemma_next_char(t, c, from + 1);
    }
}

/// The position of the first `c` in `v` at or after `from`, or the length of `v`.
pub fn find_char(v: &Vec<char>, c: char, from: usize) -> (r: usize)
    requires
        from <= v@.len(),
    ensures
        r == next_char(v@, c, from as int),
        from <= r <= v@.len(),
{
    let mut i: usize = from;
    while i < v.len() && v[i] != c
        invariant
            from <= i <= v@.len(),
            next_char(v@, c, from as int) == next_char(v@, c, i as int),
        decreases v@.len() - i,
    {
        i += 1;
    }
    i
}

/// The parts of `t` between the occurrences of `c`: one more part than occurrences.
pub open spec fn split_at_char(t: Seq<char>, c: char) -> Seq<Seq<char>>
    decreases t.len(),
    via split_at_char_decreases
{
    let k = next_char(t, c, 0);
    if k >= t.len() {
        seq![t]
    } else {
        seq![t.take(k)] + split_at_char(t.skip(k + 1), c)
    }
}

#[via_fn]
proof fn split_at_char_decreases(t: Seq<char>, c: char) {
    lemma_next_char(t, c, 0);
}

/// Splitting starts with what stands before the first `c`.
pub proof fn lemma_split_first(a: Seq<char>, c: char, rest: Seq<char>)
    requires
        forall|i: int| 0 <= i < a.len() ==> a[i] != c,
    ensures
        split_at_char(a.push(c) + rest, c) == seq![a] + split_at_char(rest, c),
{
    let t = a.push(c) + rest;
    lemma_next_char(t, c, 0);
    let k = next_char(t, c, 0);
    assert(t[a.len() as int] == c);
    if k < a.len() {
        assert(t[k] == a[k]);
    }
    assert(k == a.len());
    assert(t.take(k) =~= a);
    assert(t.skip(k + 1) =~= rest);
}

/// A text without `c` is one part.
pub proof fn lemma_split_none(a: Seq<char>, c: char)
    requires
        forall|i: int| 0 <= i < a.len() ==> a[i] != c,
    ensures
        split_at_char(a, c) == seq![a],
{
    lemma_next_char(a, c, 0);
}

/// Searching a suffix of a text finds what searching the text from there finds.
proof fn lemma_next_char_skip(t: Seq<char>, c: char, base: int, from: int)
    requires
        0 <= base,
        0 <= from,
        base + from <= t.len(),
    ensures
        next_char(t.skip(base), c, from) + base == next_char(t, c, base + from),
    decreases t.len() - base - from,
{
    if base + from < t.len() && t[base + from] != c {
        lemma_next_char_skip(t, c, base, from + 1);
    }
}

/// The parts of `s` between the occurrences of `c`.
pub fn split_char(s: &str, c: char) -> (r: Vec<String>)
    ensures
        texts(r@) == split_at_char(s@, c),
{
    let v = chars_of(s);
    let mut out: Vec<String> = Vec::new();
    let mut i: usize = 0;
    assert(v@.skip(0) =~= v@);
    assert(texts(out@) + split_at_char(v@, c) =~= split_at_char(v@, c));
    loop
        invariant
            v@ == s@,
            i <= v@.len(),
            texts(out@) + split_at_char(v@.skip(i as int), c) == split_at_char(v@, c),
        decreases v@.len() - i,
    {
        let e = find_char(&v, c, i);
        let ghost rest = v@.skip(i as int);
        proof {
            lemma_next_char_skip(v@, c, i as int, 0);
            lemma_next_char(v@, c, i as int);
        }
        let part = text_of(&v, i, e);
        let ghost before = out@;
        out.push(part);
        assert(texts(out@) =~= texts(before).push(part@));
        if e == v.len() {
            assert(part@ =~= rest);
            assert(texts(out@) =~= texts(before) + seq![rest]);
            return out;
        }
        assert(rest.take(e - i) =~= part@);
        assert(rest.skip(e - i + 1) =~= v@.skip(e + 1));
        assert(texts(out@) + split_at_char(v@.skip(e + 1), c) =~= texts(before) + split_at_char(
            rest,
            c,
        ));
        i = e + 1;
    }
}

/// A line without the carriage return that may end it.
pub open spec fn without_return(t: Seq<char>) -> Seq<char> {
    if t.len() > 0 && t.last() == '\r' {
        t.drop_last()
    } else {
        t
    }
}

/// The lines of `t`: each ends at a line feed, with or without a carriage return
/// before it, and what follows the last line feed is a line if it is not empty.
pub open spec fn lines(t: Seq<char>) -> Seq<Seq<char>>
    decreases t.len(),
    via lines_decreases
{
    let k = next_char(t, '\n', 0);
    if t.len() == 0 {
        Seq::empty()
    } else if k >= t.len() {
        seq![t]
    } else {
        seq![without_return(t.take(k))] + lines(t.skip(k + 1))
    }
}

#[via_fn]
proof fn lines_decreases(t: Seq<char>) {
    lemma_next_char(t, '\n', 0);
}

/// The lines of `s`.
pub fn split_lines(s: &str) -> (r: Vec<String>)
    ensures
        texts(r@) == lines(s@),
{
    let v = chars_of(s);
    let mut out: Vec<String> = Vec::new();
    let mut i: usize = 0;
    assert(v@.skip(0) =~= v@);
    assert(texts(out@) + lines(v@) =~= lines(v@));
    while i < v.len()
        invariant
            v@ == s@,
            i <= v@.len(),
            texts(out@) + lines(v@.skip(i as int)) == lines(v@),
        decreases v@.len() - i,
    {
        let e = find_char(&v, '\n', i);
        let ghost rest = v@.skip(i as int);
        let ghost before = out@;
        proof {
            lemma_next_char_skip(v@, '\n', i as int, 0);
            lemma_next_char(v@, '\n', i as int);
        }
        if e == v.len() {
            let part = text_of(&v, i, e);
            out.push(part);
            assert(part@ =~= rest);
            assert(texts(out@) =~= texts(before).push(part@));
            assert(texts(out@) =~= texts(before) + seq![rest]);
            return out;
        }
        let end: usize = if e > i && v[e - 1] == '\r' {
            e - 1
        } else {
            e
        };
        let part = text_of(&v, i, end);
        out.push(part);
        assert(texts(out@) =~= texts(before).push(part@));
        assert(without_return(rest.take(e - i)) =~= part@);
        assert(rest.skip(e - i + 1) =~= v@.skip(e + 1));
        assert(texts(out@) + lines(v@.skip(e + 1)) =~= texts(before) + lines(rest));
        i = e + 1;
    }
    assert(v@.skip(i as int) =~= Seq::<char>::empty());
    assert(texts(out@) + lines(v@.skip(i as int)) =~= texts(out@));
    out
}

// ---- Order ----

/// Whether `a` comes before `b` in dictionary order by character code.
pub open spec fn text_less(a: Seq<char>, b: Seq<char>) -> bool
    decreases a.len(),
{
    if b.len() == 0 {
        false
    } else if a.len() == 0 {
        true
    } else if a[0] != b[0] {
        a[0] < b[0]
    } else {
        text_less(a.drop_first(), b.drop_first())
    }
}

/// Texts are ordered by the first character in which they differ.
pub proof fn lemma_text_less_at(a: Seq<char>, b: Seq<char>, k: int)
    requires
        0 <= k < b.len(),
        k <= a.len(),
        forall|i: int| 0 <= i < k ==> a[i] == b[i],
        k < a.len() ==> a[k] < b[k],
    ensures
        text_less(a, b),
    decreases k,
{
    if k > 0 {
        assert(a[0] == b[0]);
        assert forall|i: int| 0 <= i < k - 1 implies a.drop_first()[i] == b.drop_first()[i] by {
            assert(a[i + 1] == b[i + 1]);
        }
        lemma_text_less_at(a.drop_first(), b.drop_first(), k - 1);
    }
}

/// Whether `a` comes before `b` in dictionary order by character code.
pub fn is_before(a: &str, b: &str) -> (r: bool)
    ensures
        r == text_less(a@, b@),
{
    let x = chars_of(a);
    let y = chars_of(b);
    let mut i: usize = 0;
    assert(x@.skip(0) =~= x@);
    assert(y@.skip(0) =~= y@);
    while i < x.len() && i < y.len() && x[i] == y[i]
        invariant
            x@ == a@,
            y@ == b@,
            i <= x@.len(),
            i <= y@.len(),
            text_less(x@.skip(i as int), y@.skip(i as int)) == text_less(a@, b@),
        decreases x@.len() - i,
    {
        assert(x@.skip(i as int).drop_first() =~= x@.skip(i + 1));
        assert(y@.skip(i as int).drop_first() =~= y@.skip(i + 1));
        i += 1;
    }
    if i == y.len() {
        false
    } else if i == x.len() {
        true
    } else {
        x[i] < y[i]
    }
}

/// Dictionary order ranks any two different texts one way round only.
pub proof fn lemma_text_order(a: Seq<char>, b: Seq<char>)
    ensures
        !(text_less(a, b) && text_less(b, a)),
        a != b ==> text_less(a, b) || text_less(b, a),
        !text_less(a, a),
    decreases a.len(),
{
    if a.len() > 0 {
        lemma_text_order(a.drop_first(), a.drop_first());
    }
    if a.len() > 0 && b.len() > 0 && a[0] == b[0] {
        lemma_text_order(a.drop_first(), b.drop_first());
        if a.drop_first() == b.drop_first() {
            assert(a =~= seq![a[0]] + a.drop_first());
            assert(b =~= seq![b[0]] + b.drop_first());
        }
    }
    if a.len() == 0 && b.len() == 0 {
        assert(a =~= b);
    }
}

pub proof fn lemma_text_less_transitive(a: Seq<char>, b: Seq<char>, c: Seq<char>)
    requires
        text_less(a, b),
        text_less(b, c),
    ensures
        text_less(a, c),
    decreases a.len(),
{
    if a.len() > 0 && a[0] == b[0] && b[0] == c[0] {
        lemma_text_less_transitive(a.drop_first(), b.drop_first(), c.drop_first());
    }
}

// ---- Case ----

pub open spec fn ascii_lower(c: char) -> char {
    if 'A' <= c && c <= 'Z' {
        ((c as u32) + 32) as char
    } else {
        c
    }
}

/// The text that `str::to_lowercase` gives for a text.
pub uninterp spec fn lowercase(t: Seq<char>) -> Seq<char>;

/// `str::to_lowercase`: the Unicode lower-case form of `s`, named [`lowercase`]. Of an
/// ASCII text it is known character by character.
#[verifier::external_body]
pub(crate) fn to_lower(s: &str) -> (r: String)
    ensures
        r@ == lowercase(s@),
        (forall|i: int| 0 <= i < s@.len() ==> s@[i] < '\u{80}') ==> r@ == s@.map_values(
            |c: char| ascii_lower(c),
        ),
{
    s.to_lowercase()
}

// ---- Laws ----

/// What is trimmed off is white space at the ends, and all of it.
pub proof fn law_only_space_is_trimmed(t: Seq<char>) -> (r: (int, int))
    ensures
        0 <= r.0 <= r.1 <= t.len(),
        trimmed(t) == t.subrange(r.0, r.1),
        forall|i: int| 0 <= i < r.0 ==> is_space(#[trigger] t[i]),
        forall|i: int| r.1 <= i < t.len() ==> is_space(#[trigger] t[i]),
        r.0 < r.1 ==> !is_space(t[r.0]) && !is_space(t[r.1 - 1]),
{
    let a = lemma_start(t);
    let u = trim_start(t);
    let n = lemma_end(u);
    if u.len() == 0 {
        assert(trimmed(t) =~= t.subrange(t.len() as int, t.len() as int));
        (t.len() as int, t.len() as int)
    } else {
        assert(n > 0) by {
            if n == 0 {
                assert(is_space(u[0]));
            }
        }
        assert(trimmed(t) =~= t.subrange(a, a + n));
        assert forall|i: int| a + n <= i < t.len() implies is_space(#[trigger] t[i]) by {
            assert(u[i - a] == t[i]);
        }
        assert(u[0] == t[a]);
        assert(u[n - 1] == t[a + n - 1]);
        (a, a + n)
    }
}

proof fn lemma_start(t: Seq<char>) -> (a: int)
    ensures
        0 <= a <= t.len(),
        trim_start(t) == t.skip(a),
        forall|i: int| 0 <= i < a ==> is_space(#[trigger] t[i]),
        a < t.len() ==> !is_space(t[a]),
    decreases t.len(),
{
    if t.len() > 0 && is_space(t.first()) {
        let rest = t.drop_first();
        let a = lemma_start(rest);
        assert(trim_start(t) =~= t.skip(a + 1));
        assert forall|i: int| 0 <= i < a + 1 implies is_space(#[trigger] t[i]) by {
            if i > 0 {
                assert(rest[i - 1] == t[i]);
            }
        }
        a + 1
    } else {
        assert(t.skip(0) =~= t);
        0
    }
}

proof fn lemma_end(t: Seq<char>) -> (n: int)
    ensures
        0 <= n <= t.len(),
        trim_end(t) == t.take(n),
        forall|i: int| n <= i < t.len() ==> is_space(#[trigger] t[i]),
        n > 0 ==> !is_space(t[n - 1]),
    decreases t.len(),
{
    if t.len() > 0 && is_space(t.last()) {
        let rest = t.drop_last();
        let n = lemma_end(rest);
        assert(trim_end(t) =~= t.take(n));
        assert forall|i: int| n <= i < t.len() implies is_space(#[trigger] t[i]) by {
            if i < rest.len() {
                assert(rest[i] == t[i]);
            }
        }
        n
    } else {
        assert(t.take(t.len() as int) =~= t);
        t.len() as int
    }
}

/// A text that does not start or end with white space is kept as it is.
pub proof fn law_trimmed_text_is_kept(t: Seq<char>)
    requires
        t.len() > 0,
        !is_space(t.first()),
        !is_space(t.last()),
    ensures
        trimmed(t) == t,
{
}

/// A text contains its parts, and nothing that does not stand in it.
pub proof fn law_parts_are_contained(a: Seq<char>, part: Seq<char>, b: Seq<char>, t: Seq<char>)
    ensures
        contains_text(a + part + b, part),
        starts_with(part + b, part),
        ends_with(a + part, part),
        contains_text(t, part) <==> exists|i: int| occurs_at(t, part, i),
        starts_with(t, part) ==> t.len() >= part.len() && t.take(part.len() as int) == part,
        ends_with(t, part) ==> t.len() >= part.len() && t.skip(t.len() - part.len()) == part,
{
    let all = a + part + b;
    assert(all.subrange(a.len() as int, (a.len() + part.len()) as int) =~= part);
    assert(occurs_at(all, part, a.len() as int));
    lemma_find_from(all, part, 0);
    lemma_find_from(t, part, 0);
    assert((part + b).subrange(0, part.len() as int) =~= part);
    assert((a + part).subrange(a.len() as int, (a.len() + part.len()) as int) =~= part);
    if starts_with(t, part) {
        assert(t.take(part.len() as int) =~= t.subrange(0, part.len() as int));
    }
    if ends_with(t, part) {
        let n = t.len() - part.len();
        assert(t.skip(n) =~= t.subrange(n, n + part.len()));
    }
}

/// The first occurrence is the one that is found.
pub proof fn law_first_occurrence_is_found(a: Seq<char>, part: Seq<char>, b: Seq<char>)
    requires
        forall|i: int| 0 <= i < a.len() ==> !occurs_at(a + part + b, part, i),
    ensures
        find_from(a + part + b, part, 0) == Some(a.len() as int),
{
    let all = a + part + b;
    assert(all.subrange(a.len() as int, (a.len() + part.len()) as int) =~= part);
    assert(occurs_at(all, part, a.len() as int));
    lemma_find_from(all, part, 0);
}

/// The parts of a text, joined again, are the text, and no part has the character at which it was
/// parted.
pub proof fn law_split_parts_join_again(t: Seq<char>, c: char)
    ensures
        split_at_char(t, c).len() > 0,
        joined(split_at_char(t, c), seq![c]) == t,
        forall|i: int|
            0 <= i < split_at_char(t, c).len() ==> !(#[trigger] split_at_char(t, c)[i]).contains(c),
    decreases t.len(),
{
    lemma_next_char(t, c, 0);
    let k = next_char(t, c, 0);
    let parts = split_at_char(t, c);
    if k < t.len() {
        let rest = t.skip(k + 1);
        law_split_parts_join_again(rest, c);
        assert(parts.drop_first() =~= split_at_char(rest, c));
        lemma_joined_first(parts, seq![c]);
        assert(t =~= t.take(k) + seq![c] + rest);
        assert forall|i: int| 0 <= i < parts.len() implies !(#[trigger] parts[i]).contains(c) by {
            if i > 0 {
                assert(parts[i] == split_at_char(rest, c)[i - 1]);
            }
        }
    }
}

/// Parts without the character at which a text is parted are found again in the joined text.
pub proof fn law_joined_parts_split_again(parts: Seq<Seq<char>>, c: char)
    requires
        parts.len() > 0,
        forall|i: int, k: int|
            #![trigger parts[i][k]]
            0 <= i < parts.len() && 0 <= k < parts[i].len() ==> parts[i][k] != c,
    ensures
        split_at_char(joined(parts, seq![c]), c) == parts,
    decreases parts.len(),
{
    if parts.len() == 1 {
        lemma_split_none(parts[0], c);
        assert(seq![parts[0]] =~= parts);
    } else {
        let rest = parts.drop_first();
        assert forall|i: int, k: int|
            #![trigger rest[i][k]]
            0 <= i < rest.len() && 0 <= k < rest[i].len() implies rest[i][k] != c by {
            assert(rest[i][k] == parts[i + 1][k]);
        }
        law_joined_parts_split_again(rest, c);
        lemma_joined_first(parts, seq![c]);
        lemma_split_first(parts[0], c, joined(rest, seq![c]));
        assert(parts[0].push(c) + joined(rest, seq![c]) =~= joined(parts, seq![c]));
        assert(seq![parts[0]] + rest =~= parts);
    }
}

/// A line ends at a line feed, with or without a carriage return before it, and the last line needs
/// none.
pub proof fn law_lines_end_at_line_feeds(line: Seq<char>, rest: Seq<char>)
    requires
        forall|i: int| 0 <= i < line.len() ==> line[i] != '\n',
    ensures
        lines(line.push('\r').push('\n') + rest) == seq![line] + lines(rest),
        line.len() == 0 || line.last() != '\r' ==> lines(line.push('\n') + rest) == seq![line] + lines(
            rest,
        ),
        line.len() > 0 ==> lines(line) == seq![line],
        lines(Seq::empty()).len() == 0,
{
    lemma_line(line, rest);
    lemma_line(line.push('\r'), rest);
    assert(line.push('\r').drop_last() =~= line);
    lemma_next_char(line, '\n', 0);
}

proof fn lemma_line(line: Seq<char>, rest: Seq<char>)
    requires
        forall|i: int| 0 <= i < line.len() ==> line[i] != '\n',
    ensures
        lines(line.push('\n') + rest) == seq![without_return(line)] + lines(rest),
{
    let t = line.push('\n') + rest;
    lemma_next_char(t, '\n', 0);
    let k = next_char(t, '\n', 0);
    assert(t[line.len() as int] == '\n');
    if k < line.len() {
        assert(t[k] == line[k]);
    }
    assert(k == line.len());
    assert(t.take(k) =~= line);
    assert(t.skip(k + 1) =~= rest);
}

/// One more part is joined on with the separator before it; one part alone has none.
pub proof fn law_parts_are_joined_in_order(parts: Seq<Seq<char>>, part: Seq<char>, sep: Seq<char>)
    ensures
        joined(seq![part], sep) == part,
        parts.len() > 0 ==> joined(parts.push(part), sep) == joined(parts, sep) + sep + part,
        joined(Seq::empty(), sep).len() == 0,
{
    assert(parts.push(part).drop_last() =~= parts);
}

/// Only the capital letters of ASCII are changed, each into the small letter of the same name.
pub proof fn law_ascii_capitals_are_lowered(c: char)
    ensures
        !('A' <= c && c <= 'Z') ==> ascii_lower(c) == c,
        'A' <= c && c <= 'Z' ==> 'a' <= ascii_lower(c) && ascii_lower(c) <= 'z' && ascii_lower(c) as int
            - 'a' as int == c as int - 'A' as int,
{
}

/// A text that is not empty is told; an empty one is none.
pub proof fn law_empty_text_is_none(t: Seq<char>, o: Option<String>)
    ensures
        text_or_none(t) is None <==> t.len() == 0,
        text_or_none(t) matches Some(s) ==> s == t,
        opt_text(o) is Some <==> o is Some,
        o matches Some(s) ==> opt_text(o) == Some(s@),
{
}

/// The characters that count as white space, by their numbers.
pub proof fn law_white_space_is_that_of_unicode(c: char)
    ensures
        is_space(c) <==> {
            let n = c as int;
            9 <= n <= 13 || n == 32 || n == 0x85 || n == 0xa0 || n == 0x1680 || 0x2000 <= n <= 0x200a
                || n == 0x2028 || n == 0x2029 || n == 0x202f || n == 0x205f || n == 0x3000
        },
{
}

/// A text stands before any longer one that starts with it, and texts are ordered by the first
/// character in which they differ.
pub proof fn law_texts_are_in_dictionary_order(
    a: Seq<char>,
    c: char,
    d: char,
    x: Seq<char>,
    y: Seq<char>,
)
    ensures
        text_less(a, a.push(c) + x),
        !text_less(a.push(c) + x, a),
        c < d ==> text_less(a.push(c) + x, a.push(d) + y),
        c < d ==> !text_less(a.push(d) + y, a.push(c) + x),
{
    let p = a.push(c) + x;
    let q = a.push(d) + y;
    lemma_text_less_at(a, p, a.len() as int);
    lemma_text_order(a, p);
    if c < d {
        lemma_text_less_at(p, q, a.len() as int);
        lemma_text_order(p, q);
    }
}

} // verus!
