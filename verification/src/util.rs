//! Small text and time helpers.

pub mod markdown;

use crate::chars;
use crate::chars::{chars_of, join, split_words, text_of};
use crate::clock;
use crate::util::markdown::strip_markdown_for_speech;
use crate::weburl;
use vstd::prelude::*;
use vstd::string::*;

verus! {

/// The time in milliseconds since the Unix epoch; 0 if the clock stands before it.
pub fn now_unix_millis() -> (r: i64)
    ensures
        exists|moment: std::time::SystemTime| #[trigger] clock::is_moment_millis(moment, r),
{
    clock::stamp_in_millis()
}

// ---- White space ----

/// `t` with each run of white space made one blank, and none at either end.
pub open spec fn compacted(t: Seq<char>) -> Seq<char> {
    chars::joined(chars::words(t), " "@)
}

pub fn compact_whitespace(text: &str) -> (r: String)
    ensures
        r@ == compacted(text@),
{
    join(&split_words(text), " ")
}

/// Compacting white space keeps the words.
pub proof fn law_compacting_keeps_words(t: Seq<char>)
    ensures
        chars::words(compacted(t)) == chars::words(t),
{
    reveal_strlit(" ");
    chars::lemma_words_are_words(t);
    chars::lemma_words_of_joined(chars::words(t), " "@);
}

/// Compacting white space twice does what compacting it once does.
pub proof fn law_compacting_is_idempotent(t: Seq<char>)
    ensures
        compacted(compacted(t)) == compacted(t),
{
    law_compacting_keeps_words(t);
}

// ---- URLs ----

/// An RFC 3986 scheme, `://`, and a run of characters that are neither white space nor
/// quotes nor angle brackets.
pub const URL_PATTERN: &'static str = "\\b[a-zA-Z][a-zA-Z0-9+.-]*://[^\\s<>\"]+";

/// The characters that end a sentence rather than the URL that they follow.
pub open spec fn is_sentence_mark(c: char) -> bool {
    c == '.' || c == ',' || c == ';' || c == ':' || c == '!' || c == '?' || c == ')' || c == ']'
        || c == '\'' || c == '"'
}

/// `t` without the sentence marks at its end.
pub open spec fn without_marks(t: Seq<char>) -> Seq<char>
    decreases t.len(),
{
    if t.len() > 0 && is_sentence_mark(t.last()) {
        without_marks(t.drop_last())
    } else {
        t
    }
}

/// What stands in the place of a match: the sentence marks at its end, if the rest is a
/// URL with a host, and else the match itself.
pub open spec fn url_replacement_text(matched: Seq<char>, has_host: bool) -> Seq<char> {
    if has_host {
        matched.skip(without_marks(matched).len() as int)
    } else {
        matched
    }
}

/// What [`remove_urls`] puts in the place of a match.
pub open spec fn url_replaced(matched: Seq<char>) -> Seq<char> {
    url_replacement_text(matched, weburl::url_has_host(without_marks(matched)))
}

/// Where the sentence marks at the end of `v` start.
fn marks_start(v: &Vec<char>) -> (n: usize)
    ensures
        n <= v@.len(),
        v@.take(n as int) == without_marks(v@),
        n == without_marks(v@).len(),
{
    let mut n: usize = v.len();
    assert(v@.take(n as int) =~= v@);
    while n > 0 && (v[n - 1] == '.' || v[n - 1] == ',' || v[n - 1] == ';' || v[n - 1] == ':'
        || v[n - 1] == '!' || v[n - 1] == '?' || v[n - 1] == ')' || v[n - 1] == ']' || v[n - 1]
        == '\'' || v[n - 1] == '"')
        invariant
            n <= v@.len(),
            without_marks(v@.take(n as int)) == without_marks(v@),
        decreases n,
    {
        assert(v@.take(n as int).drop_last() =~= v@.take(n - 1));
        n -= 1;
    }
    n
}

/// What stands in the place of a match, given whether the rest of it, without the
/// sentence marks at its end, is a URL with a host.
pub fn url_replacement_for(matched: &str, has_host: bool) -> (r: String)
    ensures
        r@ == url_replacement_text(matched@, has_host),
{
    let v = chars_of(matched);
    let n = marks_start(&v);
    if has_host {
        assert(v@.subrange(n as int, v@.len() as int) =~= v@.skip(n as int));
        text_of(&v, n, v.len())
    } else {
        assert(v@.subrange(0, v@.len() as int) =~= v@);
        text_of(&v, 0, v.len())
    }
}

/// What stands in the place of a match.
pub fn url_replacement(matched: &str) -> (r: String)
    ensures
        r@ == url_replaced(matched@),
{
    let v = chars_of(matched);
    let n = marks_start(&v);
    let address = text_of(&v, 0, n);
    assert(address@ =~= v@.take(n as int));
    url_replacement_for(matched, weburl::has_host(&address))
}

/// Where [`URL_PATTERN`] matches in a text: the matches in order, each as the positions
/// of its first character and of the one behind its last.
pub uninterp spec fn url_spans(t: Seq<char>) -> Seq<(int, int)>;

/// The characters that a match of [`URL_PATTERN`] can hold: neither white space nor quotes
/// nor angle brackets.
pub open spec fn is_url_char(c: char) -> bool {
    !chars::is_space(c) && c != '<' && c != '>' && c != '"'
}

/// The spans lie in `t`, in order and apart, and each holds `://` and only characters of a
/// URL.
pub open spec fn spans_fit(t: Seq<char>, spans: Seq<(int, int)>) -> bool {
    &&& forall|i: int|
        0 <= i < spans.len() ==> 0 <= (#[trigger] spans[i]).0 && spans[i].0 < spans[i].1
            && spans[i].1 <= t.len() && chars::contains_text(
            t.subrange(spans[i].0, spans[i].1),
            "://"@,
        )
    &&& forall|i: int, k: int|
        #![trigger spans[i], t[k]]
        0 <= i < spans.len() && spans[i].0 <= k < spans[i].1 ==> is_url_char(t[k])
    &&& forall|i: int, j: int|
        0 <= i < j < spans.len() ==> (#[trigger] spans[i]).1 <= (#[trigger] spans[j]).0
}

/// `t` up to the end of the last span, with each span replaced.
pub open spec fn replaced_to(t: Seq<char>, spans: Seq<(int, int)>) -> Seq<char>
    decreases spans.len(),
{
    if spans.len() == 0 {
        Seq::empty()
    } else {
        let rest = spans.drop_last();
        replaced_to(t, rest) + t.subrange(last_end(rest), spans.last().0) + url_replaced(
            t.subrange(spans.last().0, spans.last().1),
        )
    }
}

pub open spec fn last_end(spans: Seq<(int, int)>) -> int {
    if spans.len() == 0 {
        0
    } else {
        spans.last().1
    }
}

/// `t` with each span replaced.
pub open spec fn spans_replaced(t: Seq<char>, spans: Seq<(int, int)>) -> Seq<char> {
    replaced_to(t, spans) + t.skip(last_end(spans))
}

/// Whether `r` is `t` with each of some fitting spans replaced.
pub open spec fn is_replacement(t: Seq<char>, spans: Seq<(int, int)>, r: Seq<char>) -> bool {
    spans_fit(t, spans) && r == spans_replaced(t, spans)
}

/// `regex::Regex::replace_all` with [`url_replacement`] for the replacement. Where the
/// pattern matches is named [`url_spans`]; the matches lie in the text one after the
/// other, and each holds the `://` of the pattern and none of the characters that the pattern
/// keeps out. Only the one pattern is known to be well formed.
#[verifier::external_body]
fn replace_matches(pattern: &str, text: &str) -> (r: String)
    requires
        pattern@ == URL_PATTERN@,
    ensures
        is_replacement(text@, url_spans(text@), r@),
{
    regex::Regex::new(pattern)
        .expect("valid regex")
        .replace_all(text, |caps: &regex::Captures| url_replacement(&caps[0]))
        .into_owned()
}

/// Removes URLs that have a host from `text`, so that they are not read aloud. Sentence
/// marks that follow a URL stay. A text without `://` stays as it is.
pub fn remove_urls(text: &str) -> (r: String)
    ensures
        is_replacement(text@, url_spans(text@), r@),
        !chars::contains_text(text@, "://"@) ==> r@ == text@,
{
    let r = replace_matches(URL_PATTERN, text);
    proof {
        let spans = url_spans(text@);
        if !chars::contains_text(text@, "://"@) {
            if spans.len() > 0 {
                let piece = text@.subrange(spans[0].0, spans[0].1);
                chars::lemma_find_from(piece, "://"@, 0);
                chars::lemma_find_from(text@, "://"@, 0);
                let at = chars::find_from(piece, "://"@, 0)->0;
                assert(text@.subrange(spans[0].0 + at, spans[0].0 + at + "://"@.len())
                    =~= piece.subrange(at, at + "://"@.len()));
                assert(chars::occurs_at(text@, "://"@, spans[0].0 + at));
            }
            assert(spans_replaced(text@, spans) =~= text@);
        }
    }
    r
}

/// The part of a match that is removed: the URL without the sentence marks at its end if it
/// has a host, and else nothing of it.
pub open spec fn cut(t: Seq<char>, span: (int, int)) -> (int, int) {
    let address = without_marks(t.subrange(span.0, span.1));
    (
        span.0,
        if weburl::url_has_host(address) {
            span.0 + address.len()
        } else {
            span.0
        },
    )
}

pub open spec fn cuts(t: Seq<char>, spans: Seq<(int, int)>) -> Seq<(int, int)> {
    spans.map_values(|s: (int, int)| cut(t, s))
}

/// `t` up to the start of the last of some cuts, without the others.
pub open spec fn kept_to(t: Seq<char>, cs: Seq<(int, int)>) -> Seq<char>
    decreases cs.len(),
{
    if cs.len() == 0 {
        Seq::empty()
    } else {
        let rest = cs.drop_last();
        kept_to(t, rest) + t.subrange(last_end(rest), cs.last().0)
    }
}

/// `t` without some cuts.
pub open spec fn without_cuts(t: Seq<char>, cs: Seq<(int, int)>) -> Seq<char> {
    kept_to(t, cs) + t.skip(last_end(cs))
}

/// The sentence marks at the end of a text are all that [`without_marks`] takes away, and
/// none of what stands before a character that is no such mark.
proof fn lemma_without_marks(t: Seq<char>, k: int)
    requires
        0 <= k < t.len(),
        !is_sentence_mark(t[k]),
    ensures
        k < without_marks(t).len() <= t.len(),
        without_marks(t) == t.take(without_marks(t).len() as int),
        !is_sentence_mark(without_marks(t).last()),
    decreases t.len(),
{
    if is_sentence_mark(t.last()) {
        lemma_without_marks(t.drop_last(), k);
        assert(t.drop_last().take(without_marks(t).len() as int) =~= t.take(
            without_marks(t).len() as int,
        ));
    } else {
        assert(t.take(t.len() as int) =~= t);
    }
}

/// A cut lies at the start of its match. It is empty, or holds `://` and does not end in a
/// sentence mark.
proof fn lemma_cut(t: Seq<char>, spans: Seq<(int, int)>, i: int)
    requires
        spans_fit(t, spans),
        0 <= i < spans.len(),
    ensures
        cut(t, spans[i]).0 == spans[i].0,
        spans[i].0 <= cut(t, spans[i]).1 <= spans[i].1,
        url_replaced(t.subrange(spans[i].0, spans[i].1)) == t.subrange(
            cut(t, spans[i]).1,
            spans[i].1,
        ),
        cut(t, spans[i]).0 < cut(t, spans[i]).1 ==> {
            &&& chars::contains_text(t.subrange(cut(t, spans[i]).0, cut(t, spans[i]).1), "://"@)
            &&& !is_sentence_mark(t[cut(t, spans[i]).1 - 1])
        },
{
    let s = spans[i];
    let piece = t.subrange(s.0, s.1);
    let n = without_marks(piece).len() as int;
    reveal_strlit("://");
    chars::lemma_find_from(piece, "://"@, 0);
    let at = chars::find_from(piece, "://"@, 0)->0;
    assert(piece[at + 2] == piece.subrange(at, at + 3)[2]);
    lemma_without_marks(piece, at + 2);
    let address = piece.take(n);
    assert(address =~= t.subrange(s.0, s.0 + n));
    assert(address.subrange(at, at + 3) =~= piece.subrange(at, at + 3));
    assert(chars::occurs_at(address, "://"@, at));
    chars::lemma_find_from(address, "://"@, 0);
    assert(piece.skip(n) =~= t.subrange(s.0 + n, s.1));
}

proof fn lemma_spans_before(t: Seq<char>, spans: Seq<(int, int)>)
    requires
        spans_fit(t, spans),
        spans.len() > 0,
    ensures
        spans_fit(t, spans.drop_last()),
        last_end(spans.drop_last()) <= spans.last().0,
        cuts(t, spans).drop_last() == cuts(t, spans.drop_last()),
{
    let rest = spans.drop_last();
    assert forall|i: int| 0 <= i < rest.len() implies 0 <= (#[trigger] rest[i]).0 && rest[i].0
        < rest[i].1 && rest[i].1 <= t.len() && chars::contains_text(
        t.subrange(rest[i].0, rest[i].1),
        "://"@,
    ) by {
        assert(rest[i] == spans[i]);
    }
    assert forall|i: int, k: int|
        #![trigger rest[i], t[k]]
        0 <= i < rest.len() && rest[i].0 <= k < rest[i].1 implies is_url_char(t[k]) by {
        assert(rest[i] == spans[i]);
    }
    assert forall|i: int, j: int| 0 <= i < j < rest.len() implies (#[trigger] rest[i]).1 <= (
    #[trigger] rest[j]).0 by {
        assert(rest[i] == spans[i] && rest[j] == spans[j]);
    }
    if rest.len() > 0 {
        assert(spans[rest.len() - 1].1 <= spans[spans.len() - 1].0);
    }
    assert(cuts(t, spans).drop_last() =~= cuts(t, rest));
}

proof fn lemma_replaced_is_cut(t: Seq<char>, spans: Seq<(int, int)>)
    requires
        spans_fit(t, spans),
    ensures
        0 <= last_end(cuts(t, spans)) <= last_end(spans) <= t.len(),
        replaced_to(t, spans) == kept_to(t, cuts(t, spans)) + t.subrange(
            last_end(cuts(t, spans)),
            last_end(spans),
        ),
        kept_to(t, cuts(t, spans)).len() <= last_end(cuts(t, spans)),
    decreases spans.len(),
{
    if spans.len() == 0 {
        assert(t.subrange(0, 0) =~= Seq::<char>::empty());
    } else {
        let rest = spans.drop_last();
        let cs = cuts(t, spans);
        lemma_spans_before(t, spans);
        lemma_replaced_is_cut(t, rest);
        lemma_cut(t, spans, spans.len() - 1);
        let s = spans.last();
        assert(cs.last() == cut(t, s));
        assert(t.subrange(last_end(cs.drop_last()), last_end(rest)) + t.subrange(
            last_end(rest),
            s.0,
        ) =~= t.subrange(last_end(cs.drop_last()), s.0));
        assert(replaced_to(t, spans) =~= kept_to(t, cs) + t.subrange(last_end(cs), s.1));
    }
}

/// Removing URLs only takes parts out of a text, in order and apart: nothing is put in. What is
/// taken out holds `://` and only characters of a URL, and does not end in a sentence mark.
pub proof fn law_urls_are_cut_out(t: Seq<char>, spans: Seq<(int, int)>)
    requires
        spans_fit(t, spans),
    ensures
        spans_replaced(t, spans) == without_cuts(t, cuts(t, spans)),
        spans_replaced(t, spans).len() <= t.len(),
        cuts(t, spans).len() == spans.len(),
        forall|i: int|
            0 <= i < spans.len() ==> {
                let c = #[trigger] cuts(t, spans)[i];
                &&& 0 <= c.0 <= c.1 <= t.len()
                &&& c.0 < c.1 ==> chars::contains_text(t.subrange(c.0, c.1), "://"@)
                    && !is_sentence_mark(t[c.1 - 1])
            },
        forall|i: int, k: int|
            #![trigger cuts(t, spans)[i], t[k]]
            0 <= i < spans.len() && cuts(t, spans)[i].0 <= k < cuts(t, spans)[i].1 ==> is_url_char(
                t[k],
            ),
        forall|i: int, j: int|
            0 <= i < j < spans.len() ==> (#[trigger] cuts(t, spans)[i]).1 <= (#[trigger] cuts(
                t,
                spans,
            )[j]).0,
{
    let cs = cuts(t, spans);
    lemma_replaced_is_cut(t, spans);
    assert(t.subrange(last_end(cs), last_end(spans)) + t.skip(last_end(spans)) =~= t.skip(
        last_end(cs),
    ));
    assert(spans_replaced(t, spans) =~= without_cuts(t, cs));
    assert forall|i: int| 0 <= i < spans.len() implies {
        let c = #[trigger] cs[i];
        &&& 0 <= c.0 <= c.1 <= t.len()
        &&& c.0 < c.1 ==> chars::contains_text(t.subrange(c.0, c.1), "://"@) && !is_sentence_mark(
            t[c.1 - 1],
        )
    } by {
        lemma_cut(t, spans, i);
        assert(cs[i] == cut(t, spans[i]));
    }
    assert forall|i: int, k: int|
        #![trigger cs[i], t[k]]
        0 <= i < spans.len() && cs[i].0 <= k < cs[i].1 implies is_url_char(t[k]) by {
        lemma_cut(t, spans, i);
        assert(cs[i] == cut(t, spans[i]));
    }
    assert forall|i: int, j: int| 0 <= i < j < spans.len() implies (#[trigger] cs[i]).1 <= (
    #[trigger] cs[j]).0 by {
        lemma_cut(t, spans, i);
        lemma_cut(t, spans, j);
        assert(cs[i] == cut(t, spans[i]) && cs[j] == cut(t, spans[j]));
        assert(spans[i].1 <= spans[j].0);
    }
}

/// Removes Markdown and URLs, so that `text` can be read aloud.
pub fn clean_for_speech(text: &str) -> (r: String)
    ensures
        r@ == speech_text(text@),
{
    let prose = strip_markdown_for_speech(text);
    let bare = remove_urls(&prose);
    compact_whitespace(&bare)
}

/// What is read aloud for a text: its Markdown spoken, its URLs removed and its white space
/// compacted.
pub open spec fn speech_text(t: Seq<char>) -> Seq<char> {
    let prose = markdown::speech(markdown::parsed_markdown(t, markdown::SPEECH_EXTENSIONS));
    compacted(spans_replaced(prose, url_spans(prose)))
}

/// A compacted text has no white space but single spaces, and none at its ends.
pub proof fn law_compacted_text_has_single_spaces(t: Seq<char>, i: int)
    requires
        0 <= i < compacted(t).len(),
        chars::is_space(compacted(t)[i]),
    ensures
        compacted(t)[i] == ' ',
        0 < i < compacted(t).len() - 1,
        !chars::is_space(compacted(t)[i - 1]),
        !chars::is_space(compacted(t)[i + 1]),
{
    reveal_strlit(" ");
    chars::lemma_words_are_words(t);
    lemma_single_spaces(chars::words(t), i);
}

proof fn lemma_single_spaces(parts: Seq<Seq<char>>, i: int)
    requires
        forall|k: int| 0 <= k < parts.len() ==> chars::is_word(#[trigger] parts[k]),
    ensures
        ({
            let t = chars::joined(parts, " "@);
            &&& parts.len() > 0 ==> t.len() > 0 && !chars::is_space(t[0]) && !chars::is_space(t.last())
            &&& 0 <= i < t.len() && chars::is_space(t[i]) ==> t[i] == ' ' && 0 < i < t.len() - 1
                && !chars::is_space(t[i - 1]) && !chars::is_space(t[i + 1])
        }),
    decreases parts.len(),
{
    reveal_strlit(" ");
    let t = chars::joined(parts, " "@);
    if parts.len() == 1 {
        assert(chars::is_word(parts[0]));
    } else if parts.len() > 1 {
        let before = parts.drop_last();
        assert forall|k: int| 0 <= k < before.len() implies chars::is_word(#[trigger] before[k]) by {
            assert(before[k] == parts[k]);
        }
        lemma_single_spaces(before, i);
        let head = chars::joined(before, " "@);
        let w = parts.last();
        assert(chars::is_word(parts[parts.len() - 1]));
        assert(t =~= head + " "@ + w);
        let n = head.len() as int;
        assert(t[n] == ' ');
        assert(t[n - 1] == head.last());
        assert(t[n + 1] == w[0]);
        assert(t[0] == head[0]);
        assert(t.last() == w[w.len() - 1]);
        if 0 <= i < n {
            assert(t[i] == head[i]);
            if i + 1 < n {
                assert(t[i + 1] == head[i + 1]);
            }
            if i > 0 {
                assert(t[i - 1] == head[i - 1]);
            }
        } else if i > n && i < t.len() {
            assert(t[i] == w[i - n - 1]);
        }
    }
}

/// Marks that end a sentence stay when the address before them goes; where the address has no host,
/// everything stays.
pub proof fn law_sentence_marks_stay(address: Seq<char>, marks: Seq<char>)
    requires
        address.len() > 0,
        !is_sentence_mark(address.last()),
        forall|i: int|
            0 <= i < marks.len() ==> {
                let c = #[trigger] marks[i];
                c == '.' || c == ',' || c == ';' || c == ':' || c == '!' || c == '?' || c == ')' || c
                    == ']' || c == '\'' || c == '"'
            },
    ensures
        without_marks(address + marks) == address,
        url_replacement_text(address + marks, true) == marks,
        url_replacement_text(address + marks, false) == address + marks,
    decreases marks.len(),
{
    let t = address + marks;
    if marks.len() == 0 {
        assert(t =~= address);
        assert(t.skip(address.len() as int) =~= marks);
    } else {
        let rest = marks.drop_last();
        assert(is_sentence_mark(marks[marks.len() - 1]));
        assert(t.last() == marks.last());
        assert forall|i: int| 0 <= i < rest.len() implies {
            let c = #[trigger] rest[i];
            c == '.' || c == ',' || c == ';' || c == ':' || c == '!' || c == '?' || c == ')' || c == ']'
                || c == '\'' || c == '"'
        } by {
            assert(rest[i] == marks[i]);
        }
        law_sentence_marks_stay(address, rest);
        assert(t.drop_last() =~= address + rest);
        assert(t.skip(address.len() as int) =~= marks);
    }
}

/// What is spoken has the words of the text without its markup and its addresses.
pub proof fn law_speech_has_no_addresses(t: Seq<char>)
    requires
        spans_fit(
            markdown::speech(markdown::parsed_markdown(t, markdown::SPEECH_EXTENSIONS)),
            url_spans(markdown::speech(markdown::parsed_markdown(t, markdown::SPEECH_EXTENSIONS))),
        ),
    ensures
        ({
            let prose = markdown::speech(markdown::parsed_markdown(t, markdown::SPEECH_EXTENSIONS));
            chars::words(speech_text(t)) == chars::words(
                without_cuts(prose, cuts(prose, url_spans(prose))),
            )
        }),
        compacted(speech_text(t)) == speech_text(t),
{
    let prose = markdown::speech(markdown::parsed_markdown(t, markdown::SPEECH_EXTENSIONS));
    law_urls_are_cut_out(prose, url_spans(prose));
    law_compacting_keeps_words(spans_replaced(prose, url_spans(prose)));
    law_compacting_is_idempotent(spans_replaced(prose, url_spans(prose)));
}

} // verus!
