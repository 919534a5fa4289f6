use penumbra::util::{
    clean_for_speech, compact_whitespace, now_unix_millis, remove_urls, url_replacement,
    url_replacement_for,
};

#[test]
fn removes_url_entirely() {
    assert_eq!(
        remove_urls("foo://a.b.c.d/a/b/c.d/e.f#foo?g=h%20ijk&lmno=pqr"),
        ""
    );
}

#[test]
fn preserves_surrounding_sentence_and_trailing_punctuation() {
    assert_eq!(
        remove_urls(
            "Check https://www.nytimes.com/2026/07/18/sports/world-cup.html for details."
        ),
        "Check  for details."
    );
}

#[test]
fn preserves_wrapping_parentheses() {
    assert_eq!(remove_urls("(see https://example.com/page)"), "(see )");
}

#[test]
fn removes_multiple_urls_independently() {
    assert_eq!(
        remove_urls("From http://a.com/x and https://b.org/y, both agree."),
        "From  and , both agree."
    );
}

#[test]
fn leaves_text_without_urls_completely_unchanged() {
    let text = "e.g. version 3.4.5 was released on 7/18, per the docs.";
    assert_eq!(remove_urls(text), text);
}

#[test]
fn leaves_urls_without_a_host_unchanged() {
    let text = "The config lives at file:///etc/passwd on that box.";
    assert_eq!(remove_urls(text), text);
}

#[test]
fn mod_leaves_empty_string_unchanged() {
    assert_eq!(remove_urls(""), "");
}

#[test]
fn clean_for_speech_strips_markdown_and_urls_and_collapses_whitespace() {
    assert_eq!(
        clean_for_speech(
            "**Check** this out: https://example.com/page\n\n- one\n- two"
        ),
        "Check this out: one; two"
    );
}

#[test]
fn compacting_keeps_the_words_apart() {
    assert_eq!(compact_whitespace("  a \t b\n\nc\u{a0}d "), "a b c d");
    assert_eq!(compact_whitespace(" \n "), "");
}

#[test]
fn compacting_twice_changes_nothing_more() {
    let once = compact_whitespace(" one\n two ");
    assert_eq!(compact_whitespace(&once), once);
}

#[test]
fn a_url_leaves_its_punctuation_behind() {
    assert_eq!(url_replacement_for("https://a.b/c).", true), ").");
    assert_eq!(url_replacement_for("https://a.b/c).", false), "https://a.b/c).");
    assert_eq!(url_replacement("https://example.com/x?"), "?");
    assert_eq!(url_replacement("file:///etc/hosts."), "file:///etc/hosts.");
}

#[test]
fn text_without_a_scheme_is_kept() {
    let text = "a / b : c //";
    assert_eq!(remove_urls(text), text);
}

#[test]
fn the_clock_is_past_the_epoch() {
    assert!(now_unix_millis() > 1_600_000_000_000);
}

#[test]
fn urls_end_at_quotes_and_brackets() {
    assert_eq!(remove_urls("<https://a.b/c> \"https://a.b/d\"."), "<> \"\".");
    assert_eq!(remove_urls("https://a.b/c\u{a0}next"), "\u{a0}next");
}
