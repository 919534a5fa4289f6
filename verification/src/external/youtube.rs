//! YouTube Music: search by its web client's API, and audio by HLS.
//!
//! The player reply of the iOS client holds an HLS manifest. Its audio segments are what
//! the device is given, one after the other.

use crate::chars;
use crate::chars::{
    chars_of, contains, find_in, has_prefix, is_blank, join, same_text, split_char, split_lines,
    text_of, to_lower, trim,
};
use crate::external::text2;
use crate::json;
use crate::json::{field, object, text, Json};
use crate::music;
use crate::music::{first_tracks, ProviderTrack};
use crate::number;
use crate::number::{parse_u32, parse_u64};
use vstd::prelude::*;
use vstd::string::*;

verus! {

pub const MUSIC_SEARCH: &'static str =
    "https://music.youtube.com/youtubei/v1/search?prettyPrint=false";

pub const PLAYER: &'static str = "https://www.youtube.com/youtubei/v1/player?prettyPrint=false";

pub const WEB_REMIX_VERSION: &'static str = "1.20260707.12.00";

pub const IOS_VERSION: &'static str = "21.26.4";

pub const IOS_UA: &'static str =
    "com.google.ios.youtube/21.26.4 (iPhone16,2; U; CPU iOS 18_5 like Mac OS X)";

/// Restricts a search to songs.
pub const SONGS_PARAMS: &'static str = "EgWKAQIIAWoKEAkQBRAKEAMQBA%3D%3D";

/// What is searched for to fill the default queue.
pub const QUEUE_QUERY: &'static str = "top songs today";

/// Audio that can be streamed: its segments in order, and what they hold.
#[derive(Debug, PartialEq, Eq)]
pub struct ResolvedAudio {
    pub content_type: &'static str,
    pub segments: Vec<String>,
}

#[derive(Debug, Clone, PartialEq, Eq)]
pub struct YoutubeClient {
    pub cookies_path: Option<String>,
}

// ---- HLS attributes ----

/// What stands behind the first `pat` in `t`.
pub open spec fn after_text(t: Seq<char>, pat: Seq<char>) -> Option<Seq<char>> {
    match chars::find_from(t, pat, 0) {
        Some(i) => Some(t.skip(i + pat.len())),
        None => None,
    }
}

/// The value of an attribute `key="value"` of an HLS tag.
pub open spec fn attribute(line: Seq<char>, key: Seq<char>) -> Option<Seq<char>> {
    match after_text(line, key + "=\""@) {
        Some(rest) => {
            let end = chars::next_char(rest, '"', 0);
            if end < rest.len() {
                Some(rest.take(end))
            } else {
                None
            }
        },
        None => None,
    }
}

/// The characters behind the first `pat` in `s`.
fn chars_after(s: &str, pat: &str) -> (r: Option<Vec<char>>)
    ensures
        match r {
            Some(v) => after_text(s@, pat@) == Some(v@),
            None => after_text(s@, pat@) is None,
        },
{
    let v = chars_of(s);
    let p = chars_of(pat);
    let n: usize = v.len();
    match find_in(&v, &p, 0) {
        Some(i) => {
            proof {
                chars::lemma_find_from(v@, p@, 0);
                assert(chars::occurs_at(v@, p@, i as int));
            }
            let mut out: Vec<char> = Vec::new();
            let mut k: usize = i + p.len();
            let ghost start = k as int;
            assert(out@ =~= v@.subrange(start, k as int));
            while k < n
                invariant
                    n == v@.len(),
                    0 <= start <= k <= v@.len(),
                    out@ == v@.subrange(start, k as int),
                decreases v@.len() - k,
            {
                out.push(v[k]);
                assert(v@.subrange(start, k + 1) =~= v@.subrange(start, k as int).push(
                    v@[k as int],
                ));
                k += 1;
            }
            assert(out@ =~= v@.skip(start));
            Some(out)
        },
        None => None,
    }
}

/// The value of an attribute `key="value"` of an HLS tag.
pub fn attr(line: &str, key: &str) -> (r: Option<String>)
    ensures
        chars::opt_text(r) == attribute(line@, key@),
{
    let needle = text2(key, "=\"");
    match chars_after(line, &needle) {
        Some(rest) => {
            let end = chars::find_char(&rest, '"', 0);
            if end < rest.len() {
                let value = text_of(&rest, 0, end);
                assert(value@ =~= rest@.take(end as int));
                Some(value)
            } else {
                None
            }
        },
        None => None,
    }
}

/// The `itag` in the path of a URL, or 0.
pub open spec fn itag(url: Seq<char>) -> u32 {
    match after_text(url, "/itag/"@) {
        Some(rest) => match number::parsed_number(
            rest.take(chars::next_char(rest, '/', 0)),
            u32::MAX as nat,
        ) {
            Some(n) => n as u32,
            None => 0,
        },
        None => 0,
    }
}

/// The `itag` in the path of a URL, or 0.
pub fn itag_of(url: &str) -> (r: u32)
    ensures
        r == itag(url@),
{
    match chars_after(url, "/itag/") {
        Some(rest) => {
            let end = chars::find_char(&rest, '/', 0);
            let part = text_of(&rest, 0, end);
            assert(part@ =~= rest@.take(end as int));
            match parse_u32(&part) {
                Some(n) => n,
                None => 0,
            }
        },
        None => 0,
    }
}

// ---- Choosing a playlist ----

/// The address of an audio rendition in a line of a master playlist.
pub open spec fn audio_uri(line: Seq<char>) -> Option<Seq<char>> {
    if chars::starts_with(line, "#EXT-X-MEDIA:"@) && chars::contains_text(line, "TYPE=AUDIO"@) {
        attribute(line, "URI"@)
    } else {
        None
    }
}

/// The audio rendition with the highest `itag` among some lines, the first of those.
pub open spec fn best_audio(lines: Seq<Seq<char>>) -> Option<Seq<char>>
    decreases lines.len(),
{
    if lines.len() == 0 {
        None
    } else {
        let before = best_audio(lines.drop_last());
        match audio_uri(lines.last()) {
            Some(uri) => match before {
                Some(best) => if itag(uri) > itag(best) {
                    Some(uri)
                } else {
                    before
                },
                None => Some(uri),
            },
            None => before,
        }
    }
}

/// The digits that `t` starts with.
pub open spec fn leading_digits(t: Seq<char>) -> nat
    decreases t.len(),
{
    if t.len() == 0 || !number::is_digit(t[0]) {
        0
    } else {
        1 + leading_digits(t.drop_first())
    }
}

/// The bandwidth of a variant; the greatest number where it is not said.
pub open spec fn bandwidth(line: Seq<char>) -> u64 {
    match after_text(line, "BANDWIDTH="@) {
        Some(rest) => match number::parsed_number(
            rest.take(leading_digits(rest) as int),
            u64::MAX as nat,
        ) {
            Some(n) => n as u64,
            None => u64::MAX,
        },
        None => u64::MAX,
    }
}

/// The first address among some lines: a line that is neither blank nor a tag or comment.
pub open spec fn first_address(lines: Seq<Seq<char>>) -> Option<Seq<char>>
    decreases lines.len(),
{
    if lines.len() == 0 {
        None
    } else if !chars::starts_with(lines[0], "#"@) && chars::trimmed(lines[0]).len() > 0 {
        Some(chars::trimmed(lines[0]))
    } else {
        first_address(lines.drop_first())
    }
}

/// Bandwidth and address of the variant that the line at `i` describes.
pub open spec fn variant_at(lines: Seq<Seq<char>>, i: int) -> Option<(u64, Seq<char>)> {
    if chars::starts_with(lines[i], "#EXT-X-STREAM-INF"@) {
        match first_address(lines.skip(i + 1)) {
            Some(uri) => Some((bandwidth(lines[i]), uri)),
            None => None,
        }
    } else {
        None
    }
}

/// The variant of the lowest bandwidth among those that the first `n` lines describe, the
/// first of those.
pub open spec fn best_variant(lines: Seq<Seq<char>>, n: int) -> Option<(u64, Seq<char>)>
    decreases n,
{
    if n <= 0 {
        None
    } else {
        let before = best_variant(lines, n - 1);
        match variant_at(lines, n - 1) {
            Some(v) => match before {
                Some(best) => if v.0 < best.0 {
                    Some(v)
                } else {
                    before
                },
                None => Some(v),
            },
            None => before,
        }
    }
}

/// The media playlist that is chosen from a master playlist: the audio rendition with the
/// highest `itag`, or else the variant of the lowest bandwidth.
pub open spec fn chosen_playlist(master: Seq<char>) -> Option<Seq<char>> {
    let lines = chars::lines(master);
    match best_audio(lines) {
        Some(uri) => Some(uri),
        None => match best_variant(lines, lines.len() as int) {
            Some(v) => Some(v.1),
            None => None,
        },
    }
}

fn find_best_audio(lines: &Vec<String>) -> (r: Option<String>)
    ensures
        chars::opt_text(r) == best_audio(chars::texts(lines@)),
{
    let ghost all = chars::texts(lines@);
    let mut best: Option<String> = None;
    let mut best_itag: u32 = 0;
    let mut i: usize = 0;
    while i < lines.len()
        invariant
            i <= lines@.len(),
            all == chars::texts(lines@),
            chars::opt_text(best) == best_audio(all.take(i as int)),
            best matches Some(b) ==> best_itag == itag(b@),
        decreases lines@.len() - i,
    {
        proof {
            assert(all.take(i + 1).drop_last() =~= all.take(i as int));
            assert(all.take(i + 1).last() == lines@[i as int]@);
        }
        let line = lines[i].as_str();
        if has_prefix(line, "#EXT-X-MEDIA:") && contains(line, "TYPE=AUDIO") {
            if let Some(uri) = attr(line, "URI") {
                let tag = itag_of(&uri);
                if best.is_none() || tag > best_itag {
                    best = Some(uri);
                    best_itag = tag;
                }
            }
        }
        i += 1;
    }
    assert(all.take(i as int) =~= all);
    best
}

fn bandwidth_of(line: &str) -> (r: u64)
    ensures
        r == bandwidth(line@),
{
    match chars_after(line, "BANDWIDTH=") {
        Some(rest) => {
            let mut n: usize = 0;
            assert(rest@.skip(0) =~= rest@);
            while n < rest.len() && '0' <= rest[n] && rest[n] <= '9'
                invariant
                    n <= rest@.len(),
                    leading_digits(rest@) == n + leading_digits(rest@.skip(n as int)),
                decreases rest@.len() - n,
            {
                assert(rest@.skip(n as int).drop_first() =~= rest@.skip(n + 1));
                n += 1;
            }
            let digits = text_of(&rest, 0, n);
            assert(digits@ =~= rest@.take(n as int));
            match parse_u64(&digits) {
                Some(b) => b,
                None => u64::MAX,
            }
        },
        None => u64::MAX,
    }
}

fn find_address(lines: &Vec<String>, from: usize) -> (r: Option<String>)
    requires
        from <= lines@.len(),
    ensures
        chars::opt_text(r) == first_address(chars::texts(lines@).skip(from as int)),
{
    let ghost all = chars::texts(lines@);
    let mut i: usize = from;
    while i < lines.len()
        invariant
            from <= i <= lines@.len(),
            all == chars::texts(lines@),
            first_address(all.skip(from as int)) == first_address(all.skip(i as int)),
        decreases lines@.len() - i,
    {
        proof {
            assert(all.skip(i as int)[0] == lines@[i as int]@);
            assert(all.skip(i as int).drop_first() =~= all.skip(i + 1));
        }
        let line = lines[i].as_str();
        if !has_prefix(line, "#") && !is_blank(line) {
            return Some(trim(line));
        }
        i += 1;
    }
    None
}

fn find_best_variant(lines: &Vec<String>) -> (r: Option<String>)
    ensures
        chars::opt_text(r) == match best_variant(chars::texts(lines@), lines@.len() as int) {
            Some(v) => Some(v.1),
            None => None,
        },
{
    let ghost all = chars::texts(lines@);
    let mut best: Option<(u64, String)> = None;
    let mut i: usize = 0;
    while i < lines.len()
        invariant
            i <= lines@.len(),
            all == chars::texts(lines@),
            match best {
                Some(b) => best_variant(all, i as int) == Some((b.0, b.1@)),
                None => best_variant(all, i as int) is None,
            },
        decreases lines@.len() - i,
    {
        assert(all[i as int] == lines@[i as int]@);
        let line = lines[i].as_str();
        if has_prefix(line, "#EXT-X-STREAM-INF") {
            let bw = bandwidth_of(line);
            if let Some(uri) = find_address(lines, i + 1) {
                let better = match &best {
                    Some(b) => bw < b.0,
                    None => true,
                };
                if better {
                    best = Some((bw, uri));
                }
            }
        }
        i += 1;
    }
    match best {
        Some(b) => Some(b.1),
        None => None,
    }
}

/// The media playlist that is chosen from a master playlist.
pub fn choose_audio_playlist(master: &str) -> (r: Option<String>)
    ensures
        chars::opt_text(r) == chosen_playlist(master@),
{
    let lines = split_lines(master);
    match find_best_audio(&lines) {
        Some(uri) => Some(uri),
        None => find_best_variant(&lines),
    }
}

// ---- Media playlists ----

/// The address of an initialization segment, in a trimmed line of a media playlist.
pub open spec fn init_uri(line: Seq<char>) -> Option<Seq<char>> {
    if chars::starts_with(line, "#EXT-X-MAP:"@) {
        attribute(line.skip("#EXT-X-MAP:"@.len() as int), "URI"@)
    } else {
        None
    }
}

/// The segment that a line of a media playlist names, if any.
pub open spec fn segment_uri(line: Seq<char>) -> Option<Seq<char>> {
    let t = chars::trimmed(line);
    if chars::starts_with(t, "#EXT-X-MAP:"@) {
        init_uri(t)
    } else if chars::starts_with(t, "http"@) {
        Some(t)
    } else {
        None
    }
}

/// The segments that some lines name, in order.
pub open spec fn listed_segments(lines: Seq<Seq<char>>) -> Seq<Seq<char>>
    decreases lines.len(),
{
    if lines.len() == 0 {
        Seq::empty()
    } else {
        let before = listed_segments(lines.drop_last());
        match segment_uri(lines.last()) {
            Some(uri) => before.push(uri),
            None => before,
        }
    }
}

/// Where the first initialization segment stands among the segments that some lines name.
pub open spec fn init_position(lines: Seq<Seq<char>>) -> Option<int>
    decreases lines.len(),
{
    if lines.len() == 0 {
        None
    } else {
        let before = lines.drop_last();
        match init_position(before) {
            Some(i) => Some(i),
            None => if init_uri(chars::trimmed(lines.last())) is Some {
                Some(listed_segments(before).len() as int)
            } else {
                None
            },
        }
    }
}

/// Whether some lines say that the stream is fragmented MP4.
pub open spec fn is_fragmented(lines: Seq<Seq<char>>) -> bool {
    exists|i: int|
        0 <= i < lines.len() && chars::starts_with(
            chars::trimmed(#[trigger] lines[i]),
            "#EXT-X-MAP:"@,
        )
}

/// `s` with the item at `i` brought to the front.
pub open spec fn brought_first<T>(s: Seq<T>, i: int) -> Seq<T> {
    seq![s[i]] + s.remove(i)
}

/// The segments to play, with the initialization segment first where there is one.
pub open spec fn playable_segments(lines: Seq<Seq<char>>) -> Seq<Seq<char>> {
    match init_position(lines) {
        Some(i) => brought_first(listed_segments(lines), i),
        None => listed_segments(lines),
    }
}

pub open spec fn content_type(lines: Seq<Seq<char>>) -> Seq<char> {
    if is_fragmented(lines) {
        "audio/mp4"@
    } else {
        "video/mp2t"@
    }
}

proof fn lemma_init_position(lines: Seq<Seq<char>>)
    ensures
        init_position(lines) matches Some(i) ==> 0 <= i < listed_segments(lines).len(),
    decreases lines.len(),
{
    if lines.len() > 0 {
        lemma_init_position(lines.drop_last());
    }
}

/// What a media playlist holds, and its segments in the order in which they are played.
pub fn parse_media_playlist(media: &str) -> (r: (&'static str, Vec<String>))
    ensures
        r.0@ == content_type(chars::lines(media@)),
        chars::texts(r.1@) == playable_segments(chars::lines(media@)),
{
    let lines = split_lines(media);
    let ghost all = chars::texts(lines@);
    let mut segments: Vec<String> = Vec::new();
    let mut init: Option<usize> = None;
    let mut fragmented = false;
    let mut i: usize = 0;
    assert(chars::texts(segments@) =~= listed_segments(all.take(0)));
    while i < lines.len()
        invariant
            i <= lines@.len(),
            all == chars::texts(lines@),
            chars::texts(segments@) == listed_segments(all.take(i as int)),
            match init {
                Some(k) => init_position(all.take(i as int)) == Some(k as int),
                None => init_position(all.take(i as int)) is None,
            },
            fragmented == is_fragmented(all.take(i as int)),
        decreases lines@.len() - i,
    {
        let line = trim(&lines[i]);
        let ghost seen = all.take(i as int);
        let ghost next = all.take(i + 1);
        proof {
            assert(next.drop_last() =~= seen);
            assert(next.last() == lines@[i as int]@);
            assert(line@ == chars::trimmed(next.last()));
            if is_fragmented(seen) {
                let k = choose|k: int|
                    0 <= k < seen.len() && chars::starts_with(
                        chars::trimmed(#[trigger] seen[k]),
                        "#EXT-X-MAP:"@,
                    );
                assert(next[k] == seen[k]);
            }
            if is_fragmented(next) {
                let k = choose|k: int|
                    0 <= k < next.len() && chars::starts_with(
                        chars::trimmed(#[trigger] next[k]),
                        "#EXT-X-MAP:"@,
                    );
                if k < i {
                    assert(seen[k] == next[k]);
                }
            }
        }
        if has_prefix(&line, "#EXT-X-MAP:") {
            assert(chars::starts_with(chars::trimmed(next[i as int]), "#EXT-X-MAP:"@));
            fragmented = true;
            let v = chars_of(&line);
            let tag: usize = chars_of("#EXT-X-MAP:").len();
            let rest = text_of(&v, tag, v.len());
            assert(rest@ =~= line@.skip(tag as int));
            if let Some(uri) = attr(&rest, "URI") {
                if init.is_none() {
                    assert(chars::texts(segments@).len() == segments@.len());
                    init = Some(segments.len());
                }
                let ghost before = segments@;
                let ghost shown = uri@;
                segments.push(uri);
                assert(chars::texts(segments@) =~= chars::texts(before).push(shown));
            }
        } else if has_prefix(&line, "http") {
            let ghost before = segments@;
            let ghost shown = line@;
            segments.push(line);
            assert(chars::texts(segments@) =~= chars::texts(before).push(shown));
        }
        i += 1;
    }
    assert(all.take(i as int) =~= all);
    let kind = if fragmented {
        "audio/mp4"
    } else {
        "video/mp2t"
    };
    if let Some(k) = init {
        proof {
            lemma_init_position(all);
            assert(chars::texts(segments@).len() == segments@.len());
        }
        let ghost listed = segments@;
        let first = segments.remove(k);
        segments.insert(0, first);
        assert(chars::texts(segments@) =~= brought_first(chars::texts(listed), k as int));
    }
    (kind, segments)
}

/// A stream with an initialization segment starts with it.
pub proof fn law_init_segment_comes_first(lines: Seq<Seq<char>>, k: int)
    requires
        0 <= k < lines.len(),
        init_uri(chars::trimmed(lines[k])) is Some,
        forall|j: int| 0 <= j < k ==> init_uri(chars::trimmed(#[trigger] lines[j])) is None,
    ensures
        playable_segments(lines).len() > 0,
        Some(playable_segments(lines)[0]) == init_uri(chars::trimmed(lines[k])),
        playable_segments(lines).len() == listed_segments(lines).len(),
{
    lemma_first_init(lines, k);
    lemma_init_position(lines);
}

proof fn lemma_no_init(lines: Seq<Seq<char>>)
    requires
        forall|j: int| 0 <= j < lines.len() ==> init_uri(chars::trimmed(#[trigger] lines[j])) is None,
    ensures
        init_position(lines) is None,
    decreases lines.len(),
{
    if lines.len() > 0 {
        assert(init_uri(chars::trimmed(lines[lines.len() - 1])) is None);
        assert forall|j: int| 0 <= j < lines.drop_last().len() implies init_uri(
            chars::trimmed(#[trigger] lines.drop_last()[j]),
        ) is None by {
            assert(init_uri(chars::trimmed(lines[j])) is None);
        }
        lemma_no_init(lines.drop_last());
    }
}

proof fn lemma_first_init(lines: Seq<Seq<char>>, k: int)
    requires
        0 <= k < lines.len(),
        init_uri(chars::trimmed(lines[k])) is Some,
        forall|j: int| 0 <= j < k ==> init_uri(chars::trimmed(#[trigger] lines[j])) is None,
    ensures
        init_position(lines) is Some,
        Some(listed_segments(lines)[init_position(lines)->0]) == init_uri(chars::trimmed(lines[k])),
    decreases lines.len(),
{
    let before = lines.drop_last();
    if k == lines.len() - 1 {
        assert forall|j: int| 0 <= j < before.len() implies init_uri(
            chars::trimmed(#[trigger] before[j]),
        ) is None by {
            assert(init_uri(chars::trimmed(lines[j])) is None);
        }
        lemma_no_init(before);
    } else {
        assert(before[k] == lines[k]);
        assert forall|j: int| 0 <= j < k implies init_uri(
            chars::trimmed(#[trigger] before[j]),
        ) is None by {
            assert(init_uri(chars::trimmed(lines[j])) is None);
        }
        lemma_first_init(before, k);
        lemma_init_position(before);
    }
}

// ---- Songs in a search reply ----

/// The seconds that some parts of a duration amount to: each part is worth 60 of the next.
pub open spec fn seconds_of(parts: Seq<Seq<char>>) -> Option<nat>
    decreases parts.len(),
{
    if parts.len() == 0 {
        Some(0)
    } else {
        match (
            seconds_of(parts.drop_last()),
            number::parsed_number(parts.last(), u64::MAX as nat),
        ) {
            (Some(s), Some(n)) => Some(s * 60 + n),
            _ => None,
        }
    }
}

/// The milliseconds of a duration such as `3:33` or `1:02:03`, as a 64-bit number that
/// wraps around.
pub open spec fn duration(t: Seq<char>) -> Option<u64> {
    let parts = chars::split_at_char(chars::trimmed(t), ':');
    if parts.len() < 2 || parts.len() > 3 {
        None
    } else {
        match seconds_of(parts) {
            Some(s) => Some(((s * 1000) % 0x1_0000_0000_0000_0000) as u64),
            None => None,
        }
    }
}

/// The milliseconds of a duration such as `3:33` or `1:02:03`. Numbers so great that they
/// do not fit wrap around.
pub fn parse_duration(t: &str) -> (r: Option<u64>)
    ensures
        r == duration(t@),
{
    let parts = split_char(&trim(t), ':');
    let ghost all = chars::texts(parts@);
    assert(all.len() == parts@.len());
    if parts.len() < 2 || parts.len() > 3 {
        return None;
    }
    let mut secs: u128 = 0;
    let mut i: usize = 0;
    while i < parts.len()
        invariant
            i <= parts@.len(),
            2 <= parts@.len() <= 3,
            all == chars::texts(parts@),
            all == chars::split_at_char(chars::trimmed(t@), ':'),
            seconds_of(all.take(i as int)) == Some(secs as nat),
            i == 0 ==> secs == 0,
            i == 1 ==> secs <= u64::MAX,
            i == 2 ==> secs <= 61 * u64::MAX,
            i == 3 ==> secs <= 3661 * u64::MAX,
        decreases parts@.len() - i,
    {
        proof {
            assert(all.take(i + 1).drop_last() =~= all.take(i as int));
            assert(all.take(i + 1).last() == parts@[i as int]@);
        }
        match parse_u64(&parts[i]) {
            Some(n) => {
                secs = secs * 60 + n as u128;
            },
            None => {
                proof {
                    lemma_seconds_stop(all, i + 1);
                }
                return None;
            },
        }
        i += 1;
    }
    assert(all.take(i as int) =~= all);
    Some((secs * 1000 % 0x1_0000_0000_0000_0000) as u64)
}

/// Parts that cannot be read make a whole that cannot be read.
proof fn lemma_seconds_stop(parts: Seq<Seq<char>>, k: int)
    requires
        0 <= k <= parts.len(),
        seconds_of(parts.take(k)) is None,
    ensures
        seconds_of(parts) is None,
    decreases parts.len() - k,
{
    if k < parts.len() {
        assert(parts.take(k + 1).drop_last() =~= parts.take(k));
        lemma_seconds_stop(parts, k + 1);
    } else {
        assert(parts.take(k) =~= parts);
    }
}

/// Whether a text that is in lower case tells how often something was heard.
pub open spec fn tells_count(lower: Seq<char>) -> bool {
    chars::contains_text(lower, "view"@) || chars::contains_text(lower, "play"@)
        || chars::contains_text(lower, "listener"@) || chars::contains_text(lower, "stream"@)
}

/// Whether a text that is in lower case tells how often something was heard.
pub fn is_count_text(lower: &str) -> (r: bool)
    ensures
        r == tells_count(lower@),
{
    contains(lower, "view") || contains(lower, "play") || contains(lower, "listener") || contains(
        lower,
        "stream",
    )
}

/// Whether a text tells how often something was heard.
pub fn is_count(t: &str) -> (r: bool)
    ensures
        r == tells_count(chars::lowercase(t@)),
{
    is_count_text(&to_lower(t))
}

/// The first string under a key, anywhere in a value.
pub open spec fn string_in(v: json::JsonView, key: Seq<char>) -> Option<Seq<char>>
    decreases v, 0nat,
{
    match v {
        json::JsonView::Object(members) => match json::string_member(v, key) {
            Some(s) => Some(s),
            None => string_in_members(members, key, 0),
        },
        json::JsonView::Array(items) => string_in_items(items, key, 0),
        _ => None,
    }
}

/// The first string under a key in the members from `i` on.
pub open spec fn string_in_members(
    members: Seq<(Seq<char>, json::JsonView)>,
    key: Seq<char>,
    i: nat,
) -> Option<Seq<char>>
    decreases members, members.len() - i,
{
    if i >= members.len() {
        None
    } else {
        proof {
            assert(decreases_to!(members => members[i as int]));
            assert(decreases_to!(members[i as int] => members[i as int].1));
        }
        match string_in(members[i as int].1, key) {
            Some(s) => Some(s),
            None => string_in_members(members, key, i + 1),
        }
    }
}

/// The first string under a key in the items from `i` on.
pub open spec fn string_in_items(items: Seq<json::JsonView>, key: Seq<char>, i: nat) -> Option<
    Seq<char>,
>
    decreases items, items.len() - i,
{
    if i >= items.len() {
        None
    } else {
        match string_in(items[i as int], key) {
            Some(s) => Some(s),
            None => string_in_items(items, key, i + 1),
        }
    }
}

/// The first string under `key`, anywhere in a value.
pub fn first_string(v: &Json, key: &str) -> (r: Option<String>)
    ensures
        chars::opt_text(r) == string_in(v@, key@),
    decreases v,
{
    match v {
        Json::Object(members) => {
            if let Some(s) = v.get_str(key) {
                return Some(String::from_str(s));
            }
            let ghost all = v@->Object_0;
            let mut i: usize = 0;
            while i < members.len()
                invariant
                    v@ == json::JsonView::Object(all),
                    *v == Json::Object(*members),
                    i <= members@.len(),
                    all.len() == members@.len(),
                    forall|k: int|
                        0 <= k < members@.len() ==> #[trigger] all[k] == (
                            members@[k].0@,
                            members@[k].1@,
                        ),
                    json::string_member(v@, key@) is None,
                    string_in(v@, key@) == string_in_members(all, key@, i as nat),
                decreases members@.len() - i,
            {
                assert(all[i as int].1 == members@[i as int].1@);
                if let Some(s) = first_string(&members[i].1, key) {
                    return Some(s);
                }
                i += 1;
            }
            None
        },
        Json::Array(items) => {
            let ghost all = v@->Array_0;
            let mut i: usize = 0;
            while i < items.len()
                invariant
                    v@ == json::JsonView::Array(all),
                    *v == Json::Array(*items),
                    i <= items@.len(),
                    all.len() == items@.len(),
                    forall|k: int| 0 <= k < items@.len() ==> #[trigger] all[k] == items@[k]@,
                    string_in(v@, key@) == string_in_items(all, key@, i as nat),
                decreases items@.len() - i,
            {
                assert(all[i as int] == items@[i as int]@);
                if let Some(s) = first_string(&items[i], key) {
                    return Some(s);
                }
                i += 1;
            }
            None
        },
        _ => None,
    }
}

/// The texts of some runs, in order; runs without a text are left out.
pub open spec fn run_texts(runs: Seq<json::JsonView>) -> Seq<Seq<char>>
    decreases runs.len(),
{
    if runs.len() == 0 {
        Seq::empty()
    } else {
        let before = run_texts(runs.drop_last());
        match json::string_member(runs.last(), "text"@) {
            Some(t) => before.push(t),
            None => before,
        }
    }
}

/// The path to the runs of text in a column.
pub open spec fn runs_path() -> Seq<Seq<char>> {
    seq!["musicResponsiveListItemFlexColumnRenderer"@, "text"@, "runs"@]
}

/// The runs of text in a column.
pub open spec fn column_runs(column: json::JsonView) -> Option<Seq<json::JsonView>> {
    match json::path_into(column, runs_path()) {
        Some(runs) => json::items_of(runs),
        None => None,
    }
}

/// The texts in a column of an item.
pub open spec fn column_texts(item: json::JsonView, i: int) -> Seq<Seq<char>> {
    match json::member(item, "flexColumns"@) {
        Some(columns) => match json::items_of(columns) {
            Some(columns) => if i < columns.len() {
                match column_runs(columns[i]) {
                    Some(runs) => run_texts(runs),
                    None => Seq::empty(),
                }
            } else {
                Seq::empty()
            },
            None => Seq::empty(),
        },
        None => Seq::empty(),
    }
}

/// Whether a text says something: it is neither blank nor a bullet.
pub open spec fn says_something(t: Seq<char>) -> bool {
    chars::trimmed(t) != "•"@ && chars::trimmed(t).len() > 0
}

/// The texts that say something, in order.
pub open spec fn details(ts: Seq<Seq<char>>) -> Seq<Seq<char>>
    decreases ts.len(),
{
    if ts.len() == 0 {
        Seq::empty()
    } else {
        let before = details(ts.drop_last());
        if says_something(ts.last()) {
            before.push(ts.last())
        } else {
            before
        }
    }
}

/// The first duration among the texts from `i` on, or 0.
pub open spec fn first_duration(ts: Seq<Seq<char>>, i: nat) -> u64
    decreases ts.len() - i,
{
    if i >= ts.len() {
        0
    } else {
        match duration(ts[i as int]) {
            Some(d) => d,
            None => first_duration(ts, i + 1),
        }
    }
}

/// The first of the texts from `i` on that is neither a duration nor a count, or nothing.
pub open spec fn first_album(ts: Seq<Seq<char>>, i: nat) -> Seq<char>
    decreases ts.len() - i,
{
    if i >= ts.len() {
        Seq::empty()
    } else if duration(ts[i as int]) is None && !tells_count(chars::lowercase(ts[i as int])) {
        ts[i as int]
    } else {
        first_album(ts, i + 1)
    }
}

/// The song that an item of a search reply shows. Its id has eleven bytes, or it is none.
pub open spec fn song_item(item: json::JsonView) -> Option<music::TrackView> {
    match string_in(item, "videoId"@) {
        Some(id) => if vstd::utf8::encode_utf8(id).len() != 11 {
            None
        } else {
            let detail = details(column_texts(item, 1));
            Some(
                music::TrackView {
                    id,
                    title: chars::joined(column_texts(item, 0), Seq::empty()),
                    artist: if detail.len() > 0 {
                        detail[0]
                    } else {
                        Seq::empty()
                    },
                    album: first_album(detail, 1),
                    duration_ms: first_duration(detail, 0),
                },
            )
        },
        None => None,
    }
}

fn texts_of_runs(runs: &Vec<Json>) -> (r: Vec<String>)
    ensures
        chars::texts(r@) == run_texts(json::views(runs@)),
{
    let ghost all = json::views(runs@);
    let mut out: Vec<String> = Vec::new();
    let mut i: usize = 0;
    assert(chars::texts(out@) =~= run_texts(all.take(0)));
    while i < runs.len()
        invariant
            i <= runs@.len(),
            all == json::views(runs@),
            chars::texts(out@) == run_texts(all.take(i as int)),
        decreases runs@.len() - i,
    {
        proof {
            assert(all.take(i + 1).drop_last() =~= all.take(i as int));
            assert(all.take(i + 1).last() == runs@[i as int]@);
        }
        if let Some(t) = runs[i].get_str("text") {
            let ghost before = out@;
            out.push(String::from_str(t));
            assert(chars::texts(out@) =~= chars::texts(before).push(t@));
        }
        i += 1;
    }
    assert(all.take(i as int) =~= all);
    out
}

fn no_texts() -> (r: Vec<String>)
    ensures
        chars::texts(r@) == Seq::<Seq<char>>::empty(),
{
    let out: Vec<String> = Vec::new();
    assert(chars::texts(out@) =~= Seq::<Seq<char>>::empty());
    out
}

fn texts_of_column(item: &Json, i: usize) -> (r: Vec<String>)
    ensures
        chars::texts(r@) == column_texts(item@, i as int),
{
    let mut path: Vec<&str> = Vec::new();
    path.push("musicResponsiveListItemFlexColumnRenderer");
    path.push("text");
    path.push("runs");
    assert(json::str_views(path@) =~= runs_path());
    match item.get("flexColumns") {
        Some(columns) => match columns.as_array() {
            Some(columns) => if i < columns.len() {
                assert(json::views(columns@)[i as int] == columns@[i as int]@);
                match columns[i].pointer(&path) {
                    Some(runs) => match runs.as_array() {
                        Some(runs) => texts_of_runs(runs),
                        None => no_texts(),
                    },
                    None => no_texts(),
                }
            } else {
                assert(json::views(columns@).len() == columns@.len());
                no_texts()
            },
            None => no_texts(),
        },
        None => no_texts(),
    }
}

fn keep_details(ts: &Vec<String>) -> (r: Vec<String>)
    ensures
        chars::texts(r@) == details(chars::texts(ts@)),
{
    let ghost all = chars::texts(ts@);
    let mut out: Vec<String> = Vec::new();
    let mut i: usize = 0;
    assert(chars::texts(out@) =~= details(all.take(0)));
    while i < ts.len()
        invariant
            i <= ts@.len(),
            all == chars::texts(ts@),
            chars::texts(out@) == details(all.take(i as int)),
        decreases ts@.len() - i,
    {
        proof {
            assert(all.take(i + 1).drop_last() =~= all.take(i as int));
            assert(all.take(i + 1).last() == ts@[i as int]@);
        }
        let bare = trim(&ts[i]);
        if !same_text(&bare, "•") && !bare.as_str().is_empty() {
            let ghost before = out@;
            out.push(ts[i].clone());
            assert(chars::texts(out@) =~= chars::texts(before).push(ts@[i as int]@));
        }
        i += 1;
    }
    assert(all.take(i as int) =~= all);
    out
}

fn find_duration(ts: &Vec<String>) -> (r: u64)
    ensures
        r == first_duration(chars::texts(ts@), 0),
{
    let ghost all = chars::texts(ts@);
    let mut i: usize = 0;
    while i < ts.len()
        invariant
            i <= ts@.len(),
            all == chars::texts(ts@),
            first_duration(all, 0) == first_duration(all, i as nat),
        decreases ts@.len() - i,
    {
        assert(all[i as int] == ts@[i as int]@);
        if let Some(d) = parse_duration(&ts[i]) {
            return d;
        }
        i += 1;
    }
    0
}

fn find_album(ts: &Vec<String>) -> (r: String)
    ensures
        r@ == first_album(chars::texts(ts@), 1),
{
    let ghost all = chars::texts(ts@);
    let mut i: usize = 1;
    while i < ts.len()
        invariant
            1 <= i,
            all == chars::texts(ts@),
            all.len() == ts@.len(),
            first_album(all, 1) == first_album(all, i as nat),
        decreases ts@.len() - i,
    {
        assert(all[i as int] == ts@[i as int]@);
        if parse_duration(&ts[i]).is_none() && !is_count(&ts[i]) {
            return ts[i].clone();
        }
        i += 1;
    }
    String::new()
}

/// The song that an item of a search reply shows.
pub fn parse_song_item(item: &Json) -> (r: Option<ProviderTrack>)
    ensures
        match r {
            Some(t) => song_item(item@) == Some(t@),
            None => song_item(item@) is None,
        },
{
    match first_string(item, "videoId") {
        Some(id) => {
            if id.as_str().as_bytes().len() != 11 {
                return None;
            }
            let title = join(&texts_of_column(item, 0), "");
            proof {
                reveal_strlit("");
                assert(""@ =~= Seq::<char>::empty());
            }
            let detail = keep_details(&texts_of_column(item, 1));
            let artist = if detail.len() > 0 {
                detail[0].clone()
            } else {
                String::new()
            };
            let duration_ms = find_duration(&detail);
            let album = find_album(&detail);
            let track = ProviderTrack { id, title, artist, album, duration_ms };
            proof {
                let d = chars::texts(detail@);
                assert(d.len() == detail@.len());
                if d.len() > 0 {
                    assert(d[0] == detail@[0]@);
                }
                assert(track@.artist =~= song_item(item@)->0.artist);
            }
            Some(track)
        },
        None => None,
    }
}

pub const LIST_ITEM: &'static str = "musicResponsiveListItemRenderer";

/// The song that an object shows as a list item, if any.
pub open spec fn own_song(v: json::JsonView) -> Seq<music::TrackView> {
    match json::member(v, LIST_ITEM@) {
        Some(item) => match song_item(item) {
            Some(t) => seq![t],
            None => Seq::empty(),
        },
        None => Seq::empty(),
    }
}

/// The songs that are shown anywhere in a value, in order: an object's own before those of
/// its members.
pub open spec fn songs_in(v: json::JsonView) -> Seq<music::TrackView>
    decreases v, 0nat,
{
    match v {
        json::JsonView::Object(members) => own_song(v) + songs_in_members(members, members.len()),
        json::JsonView::Array(items) => songs_in_items(items, items.len()),
        _ => Seq::empty(),
    }
}

/// The songs in the first `n` members.
pub open spec fn songs_in_members(members: Seq<(Seq<char>, json::JsonView)>, n: nat) -> Seq<
    music::TrackView,
>
    decreases members, n,
{
    if n == 0 || n > members.len() {
        Seq::empty()
    } else {
        proof {
            assert(decreases_to!(members => members[n - 1]));
            assert(decreases_to!(members[n - 1] => members[n - 1].1));
        }
        songs_in_members(members, (n - 1) as nat) + songs_in(members[n - 1].1)
    }
}

/// The songs in the first `n` items.
pub open spec fn songs_in_items(items: Seq<json::JsonView>, n: nat) -> Seq<music::TrackView>
    decreases items, n,
{
    if n == 0 || n > items.len() {
        Seq::empty()
    } else {
        songs_in_items(items, (n - 1) as nat) + songs_in(items[n - 1])
    }
}

/// Adds the songs that are shown anywhere in a value, in order.
fn push_songs(v: &Json, out: &mut Vec<ProviderTrack>)
    ensures
        music::track_views(final(out)@) == music::track_views(old(out)@) + songs_in(v@),
    decreases v,
{
    let ghost before = music::track_views(out@);
    match v {
        Json::Object(members) => {
            let ghost all = v@->Object_0;
            if let Some(item) = v.get(LIST_ITEM) {
                if let Some(track) = parse_song_item(item) {
                    let ghost was = out@;
                    let ghost shown = track@;
                    out.push(track);
                    assert(music::track_views(out@) =~= music::track_views(was).push(shown));
                }
            }
            let ghost own = own_song(v@);
            assert(music::track_views(out@) =~= before + own + songs_in_members(all, 0));
            let mut i: usize = 0;
            while i < members.len()
                invariant
                    v@ == json::JsonView::Object(all),
                    *v == Json::Object(*members),
                    i <= members@.len(),
                    all.len() == members@.len(),
                    forall|k: int|
                        0 <= k < members@.len() ==> #[trigger] all[k] == (
                            members@[k].0@,
                            members@[k].1@,
                        ),
                    music::track_views(out@) == before + own + songs_in_members(all, i as nat),
                decreases members@.len() - i,
            {
                assert(all[i as int].1 == members@[i as int].1@);
                push_songs(&members[i].1, out);
                assert(music::track_views(out@) =~= before + own + songs_in_members(
                    all,
                    (i + 1) as nat,
                ));
                i += 1;
            }
            assert(before + own + songs_in_members(all, all.len()) =~= before + songs_in(v@));
        },
        Json::Array(items) => {
            let ghost all = v@->Array_0;
            assert(music::track_views(out@) =~= before + songs_in_items(all, 0));
            let mut i: usize = 0;
            while i < items.len()
                invariant
                    v@ == json::JsonView::Array(all),
                    *v == Json::Array(*items),
                    i <= items@.len(),
                    all.len() == items@.len(),
                    forall|k: int| 0 <= k < items@.len() ==> #[trigger] all[k] == items@[k]@,
                    music::track_views(out@) == before + songs_in_items(all, i as nat),
                decreases items@.len() - i,
            {
                assert(all[i as int] == items@[i as int]@);
                push_songs(&items[i], out);
                assert(music::track_views(out@) =~= before + songs_in_items(all, (i + 1) as nat));
                i += 1;
            }
        },
        _ => {
            assert(music::track_views(out@) =~= before + Seq::<music::TrackView>::empty());
        },
    }
}

/// Whether some tracks hold one with this id.
pub open spec fn has_id(tracks: Seq<music::TrackView>, id: Seq<char>) -> bool {
    exists|i: int| 0 <= i < tracks.len() && (#[trigger] tracks[i]).id == id
}

/// The tracks whose ids are not among those that were seen, the first of each id, in order.
pub open spec fn unseen(tracks: Seq<music::TrackView>, seen: Seq<Seq<char>>) -> Seq<music::TrackView>
    decreases tracks.len(),
{
    if tracks.len() == 0 {
        Seq::empty()
    } else {
        let before = unseen(tracks.drop_last(), seen);
        let id = tracks.last().id;
        if seen.contains(id) || has_id(before, id) {
            before
        } else {
            before.push(tracks.last())
        }
    }
}

/// The first track of each id, in order.
pub open spec fn first_of_each(tracks: Seq<music::TrackView>) -> Seq<music::TrackView> {
    unseen(tracks, Seq::empty())
}

/// The ids of some tracks.
pub open spec fn ids(tracks: Seq<music::TrackView>) -> Seq<Seq<char>> {
    tracks.map_values(|t: music::TrackView| t.id)
}

fn contains_id(seen: &Vec<String>, id: &str) -> (r: bool)
    ensures
        r == chars::texts(seen@).contains(id@),
{
    let ghost all = chars::texts(seen@);
    let mut i: usize = 0;
    while i < seen.len()
        invariant
            i <= seen@.len(),
            all == chars::texts(seen@),
            forall|k: int| 0 <= k < i ==> (#[trigger] all[k]) != id@,
        decreases seen@.len() - i,
    {
        assert(all[i as int] == seen@[i as int]@);
        if same_text(&seen[i], id) {
            return true;
        }
        i += 1;
    }
    false
}

/// Adds the songs that are shown anywhere in a value and whose ids were not seen, the first of
/// each id, and adds their ids to those that were seen.
pub fn collect_songs(v: &Json, out: &mut Vec<ProviderTrack>, seen: &mut Vec<String>)
    ensures
        music::track_views(final(out)@) == music::track_views(old(out)@) + unseen(
            songs_in(v@),
            chars::texts(old(seen)@),
        ),
        chars::texts(final(seen)@) == chars::texts(old(seen)@) + ids(
            unseen(songs_in(v@), chars::texts(old(seen)@)),
        ),
{
    let ghost start = music::track_views(out@);
    let ghost known = chars::texts(seen@);
    let mut found: Vec<ProviderTrack> = Vec::new();
    push_songs(v, &mut found);
    let ghost all = music::track_views(found@);
    let ghost raw = found@;
    assert(all =~= songs_in(v@));
    assert(music::track_views(out@) =~= start + unseen(all.take(0), known));
    assert(chars::texts(seen@) =~= known + ids(unseen(all.take(0), known)));
    for t in it: found
        invariant
            it.seq() == raw,
            all == music::track_views(raw),
            music::track_views(out@) == start + unseen(all.take(it.index()), known),
            chars::texts(seen@) == known + ids(unseen(all.take(it.index()), known)),
    {
        let ghost n = it.index();
        let ghost before = unseen(all.take(n), known);
        proof {
            assert(all.take(n + 1).drop_last() =~= all.take(n));
            assert(all.take(n + 1).last() == t@);
            lemma_seen(known, before, t.id@);
        }
        if !contains_id(seen, &t.id) {
            let ghost was = out@;
            let ghost had = seen@;
            let ghost shown = t@;
            let id = t.id.clone();
            seen.push(id);
            out.push(t);
            assert(music::track_views(out@) =~= music::track_views(was).push(shown));
            assert(chars::texts(seen@) =~= chars::texts(had).push(shown.id));
            assert(music::track_views(out@) =~= start + before.push(shown));
            assert(chars::texts(seen@) =~= known + ids(before.push(shown)));
        }
    }
    assert(all.take(all.len() as int) =~= all);
}

/// An id is among those that were seen and those of some tracks if it is one of either.
proof fn lemma_seen(known: Seq<Seq<char>>, tracks: Seq<music::TrackView>, id: Seq<char>)
    ensures
        (known + ids(tracks)).contains(id) <==> known.contains(id) || has_id(tracks, id),
{
    let all = known + ids(tracks);
    if known.contains(id) {
        let k = choose|k: int| 0 <= k < known.len() && known[k] == id;
        assert(all[k] == id);
    }
    if has_id(tracks, id) {
        let k = choose|k: int| 0 <= k < tracks.len() && (#[trigger] tracks[k]).id == id;
        assert(all[known.len() + k] == id);
    }
    if all.contains(id) {
        let k = choose|k: int| 0 <= k < all.len() && all[k] == id;
        if k < known.len() {
            assert(known[k] == id);
        } else {
            assert(tracks[k - known.len()].id == id);
        }
    }
}

/// The ids that are added are distinct, and none was seen.
proof fn lemma_unseen(tracks: Seq<music::TrackView>, seen: Seq<Seq<char>>)
    ensures
        forall|i: int, j: int|
            0 <= i < j < unseen(tracks, seen).len() ==> (#[trigger] unseen(tracks, seen)[i]).id != (
            #[trigger] unseen(tracks, seen)[j]).id,
        forall|i: int|
            0 <= i < unseen(tracks, seen).len() ==> !seen.contains(
                (#[trigger] unseen(tracks, seen)[i]).id,
            ),
    decreases tracks.len(),
{
    if tracks.len() > 0 {
        let before = unseen(tracks.drop_last(), seen);
        let all = unseen(tracks, seen);
        lemma_unseen(tracks.drop_last(), seen);
        assert forall|i: int, j: int| 0 <= i < j < all.len() implies (#[trigger] all[i]).id != (
        #[trigger] all[j]).id by {
            assert(all[i] == before[i]);
            if j < before.len() {
                assert(all[j] == before[j]);
            }
        }
        assert forall|i: int| 0 <= i < all.len() implies !seen.contains((#[trigger] all[i]).id) by {
            if i < before.len() {
                assert(all[i] == before[i]);
            }
        }
    }
}

/// Where the ids of the tracks that are there are distinct and were all seen, so they are once
/// the songs of a value are added: no id is found twice. What is added was not seen before.
pub proof fn law_ids_are_distinct(
    out: Seq<music::TrackView>,
    tracks: Seq<music::TrackView>,
    seen: Seq<Seq<char>>,
)
    requires
        forall|i: int, j: int|
            0 <= i < j < out.len() ==> (#[trigger] out[i]).id != (#[trigger] out[j]).id,
        forall|i: int| 0 <= i < out.len() ==> seen.contains((#[trigger] out[i]).id),
    ensures
        ({
            let all = out + unseen(tracks, seen);
            let known = seen + ids(unseen(tracks, seen));
            &&& forall|i: int, j: int|
                0 <= i < j < all.len() ==> (#[trigger] all[i]).id != (#[trigger] all[j]).id
            &&& forall|i: int| 0 <= i < all.len() ==> known.contains((#[trigger] all[i]).id)
            &&& forall|i: int|
                0 <= i < unseen(tracks, seen).len() ==> !seen.contains(
                    (#[trigger] unseen(tracks, seen)[i]).id,
                )
        }),
{
    let more = unseen(tracks, seen);
    let all = out + more;
    let known = seen + ids(more);
    lemma_unseen(tracks, seen);
    assert forall|i: int, j: int| 0 <= i < j < all.len() implies (#[trigger] all[i]).id != (
    #[trigger] all[j]).id by {
        if j < out.len() {
            assert(out[i].id != out[j].id);
        } else if i < out.len() {
            assert(all[j] == more[j - out.len()]);
            assert(seen.contains(out[i].id));
        } else {
            assert(all[i] == more[i - out.len()] && all[j] == more[j - out.len()]);
        }
    }
    assert forall|i: int| 0 <= i < all.len() implies known.contains((#[trigger] all[i]).id) by {
        lemma_seen(seen, more, all[i].id);
        if i < out.len() {
            assert(seen.contains(out[i].id));
        } else {
            assert(more[i - out.len()].id == all[i].id);
        }
    }
}

proof fn lemma_ids_have_eleven_bytes(v: json::JsonView)
    ensures
        forall|i: int|
            0 <= i < songs_in(v).len() ==> vstd::utf8::encode_utf8((#[trigger] songs_in(v)[i]).id).len()
                == 11,
    decreases v, 0nat,
{
    match v {
        json::JsonView::Object(members) => {
            lemma_member_ids_have_eleven_bytes(members, members.len());
            let own = own_song(v);
            let rest = songs_in_members(members, members.len());
            let all = songs_in(v);
            assert(all == own + rest);
            assert forall|i: int| 0 <= i < all.len() implies vstd::utf8::encode_utf8(
                (#[trigger] all[i]).id,
            ).len() == 11 by {
                if i < own.len() {
                    assert(all[i] == own[i]);
                } else {
                    assert(all[i] == rest[i - own.len()]);
                }
            }
        },
        json::JsonView::Array(items) => {
            lemma_item_ids_have_eleven_bytes(items, items.len());
            assert(songs_in(v) == songs_in_items(items, items.len()));
        },
        _ => {
            assert(songs_in(v).len() == 0);
        },
    }
}

proof fn lemma_member_ids_have_eleven_bytes(members: Seq<(Seq<char>, json::JsonView)>, n: nat)
    ensures
        forall|i: int|
            0 <= i < songs_in_members(members, n).len() ==> vstd::utf8::encode_utf8(
                (#[trigger] songs_in_members(members, n)[i]).id,
            ).len() == 11,
    decreases members, n,
{
    if 0 < n <= members.len() {
        assert(decreases_to!(members => members[n - 1]));
        assert(decreases_to!(members[n - 1] => members[n - 1].1));
        let before = songs_in_members(members, (n - 1) as nat);
        let more = songs_in(members[n - 1].1);
        lemma_member_ids_have_eleven_bytes(members, (n - 1) as nat);
        lemma_ids_have_eleven_bytes(members[n - 1].1);
        let all = songs_in_members(members, n);
        assert forall|i: int| 0 <= i < all.len() implies vstd::utf8::encode_utf8(
            (#[trigger] all[i]).id,
        ).len() == 11 by {
            if i < before.len() {
                assert(all[i] == before[i]);
            } else {
                assert(all[i] == more[i - before.len()]);
            }
        }
    }
}

proof fn lemma_item_ids_have_eleven_bytes(items: Seq<json::JsonView>, n: nat)
    ensures
        forall|i: int|
            0 <= i < songs_in_items(items, n).len() ==> vstd::utf8::encode_utf8(
                (#[trigger] songs_in_items(items, n)[i]).id,
            ).len() == 11,
    decreases items, n,
{
    if 0 < n <= items.len() {
        let before = songs_in_items(items, (n - 1) as nat);
        let more = songs_in(items[n - 1]);
        lemma_item_ids_have_eleven_bytes(items, (n - 1) as nat);
        lemma_ids_have_eleven_bytes(items[n - 1]);
        let all = songs_in_items(items, n);
        assert forall|i: int| 0 <= i < all.len() implies vstd::utf8::encode_utf8(
            (#[trigger] all[i]).id,
        ).len() == 11 by {
            if i < before.len() {
                assert(all[i] == before[i]);
            } else {
                assert(all[i] == more[i - before.len()]);
            }
        }
    }
}

/// What is added is some of the tracks, and no id is lost.
proof fn lemma_unseen_is_complete(tracks: Seq<music::TrackView>, seen: Seq<Seq<char>>)
    ensures
        forall|i: int|
            0 <= i < unseen(tracks, seen).len() ==> tracks.contains(
                #[trigger] unseen(tracks, seen)[i],
            ),
        forall|i: int|
            0 <= i < tracks.len() ==> seen.contains((#[trigger] tracks[i]).id) || has_id(
                unseen(tracks, seen),
                tracks[i].id,
            ),
    decreases tracks.len(),
{
    if tracks.len() > 0 {
        let rest = tracks.drop_last();
        let before = unseen(rest, seen);
        let all = unseen(tracks, seen);
        lemma_unseen_is_complete(rest, seen);
        assert forall|i: int| 0 <= i < all.len() implies tracks.contains(#[trigger] all[i]) by {
            if i < before.len() {
                assert(all[i] == before[i]);
                let k = choose|k: int| 0 <= k < rest.len() && rest[k] == before[i];
                assert(tracks[k] == all[i]);
            } else {
                assert(tracks[tracks.len() - 1] == all[i]);
            }
        }
        assert forall|i: int| 0 <= i < tracks.len() implies seen.contains((#[trigger] tracks[i]).id)
            || has_id(all, tracks[i].id) by {
            let id = tracks[i].id;
            if i < rest.len() {
                assert(rest[i].id == id);
            }
            if has_id(before, id) {
                let k = choose|k: int| 0 <= k < before.len() && (#[trigger] before[k]).id == id;
                assert(all[k] == before[k]);
            } else if !seen.contains(id) {
                assert(i == rest.len());
                assert(all[before.len() as int] == tracks.last());
            }
        }
    }
}

/// Every id that is added has eleven bytes.
pub proof fn law_ids_have_eleven_bytes(v: json::JsonView, seen: Seq<Seq<char>>)
    ensures
        forall|i: int|
            0 <= i < unseen(songs_in(v), seen).len() ==> vstd::utf8::encode_utf8(
                (#[trigger] unseen(songs_in(v), seen)[i]).id,
            ).len() == 11,
{
    lemma_ids_have_eleven_bytes(v);
    lemma_unseen_is_complete(songs_in(v), seen);
    let found = unseen(songs_in(v), seen);
    assert forall|i: int| 0 <= i < found.len() implies vstd::utf8::encode_utf8(
        (#[trigger] found[i]).id,
    ).len() == 11 by {
        assert(songs_in(v).contains(found[i]));
    }
}

/// What stands in a value at the end of a path of positions, each among the members of an
/// object or the items of an array.
pub open spec fn value_at(v: json::JsonView, path: Seq<int>) -> Option<json::JsonView>
    decreases path.len(),
{
    if path.len() == 0 {
        Some(v)
    } else {
        match v {
            json::JsonView::Object(members) => if 0 <= path[0] < members.len() {
                value_at(members[path[0]].1, path.drop_first())
            } else {
                None
            },
            json::JsonView::Array(items) => if 0 <= path[0] < items.len() {
                value_at(items[path[0]], path.drop_first())
            } else {
                None
            },
            _ => None,
        }
    }
}

proof fn lemma_member_songs(members: Seq<(Seq<char>, json::JsonView)>, n: nat, i: int, t: music::TrackView)
    requires
        0 <= i < n <= members.len(),
        songs_in(members[i].1).contains(t),
    ensures
        songs_in_members(members, n).contains(t),
    decreases n,
{
    let before = songs_in_members(members, (n - 1) as nat);
    let more = songs_in(members[n - 1].1);
    let all = songs_in_members(members, n);
    if i == n - 1 {
        let k = choose|k: int| 0 <= k < more.len() && more[k] == t;
        assert(all[before.len() + k] == t);
    } else {
        lemma_member_songs(members, (n - 1) as nat, i, t);
        let k = choose|k: int| 0 <= k < before.len() && before[k] == t;
        assert(all[k] == t);
    }
}

proof fn lemma_item_songs(items: Seq<json::JsonView>, n: nat, i: int, t: music::TrackView)
    requires
        0 <= i < n <= items.len(),
        songs_in(items[i]).contains(t),
    ensures
        songs_in_items(items, n).contains(t),
    decreases n,
{
    let before = songs_in_items(items, (n - 1) as nat);
    let more = songs_in(items[n - 1]);
    let all = songs_in_items(items, n);
    if i == n - 1 {
        let k = choose|k: int| 0 <= k < more.len() && more[k] == t;
        assert(all[before.len() + k] == t);
    } else {
        lemma_item_songs(items, (n - 1) as nat, i, t);
        let k = choose|k: int| 0 <= k < before.len() && before[k] == t;
        assert(all[k] == t);
    }
}

proof fn lemma_songs_at(v: json::JsonView, path: Seq<int>, t: music::TrackView)
    requires
        value_at(v, path) is Some,
        own_song(value_at(v, path)->0).contains(t),
    ensures
        songs_in(v).contains(t),
    decreases path.len(),
{
    let all = songs_in(v);
    if path.len() == 0 {
        assert(v is Object);
        assert(all[0] == t);
    } else {
        match v {
            json::JsonView::Object(members) => {
                lemma_songs_at(members[path[0]].1, path.drop_first(), t);
                lemma_member_songs(members, members.len(), path[0], t);
                let rest = songs_in_members(members, members.len());
                let k = choose|k: int| 0 <= k < rest.len() && rest[k] == t;
                assert(all[own_song(v).len() + k] == t);
            },
            json::JsonView::Array(items) => {
                lemma_songs_at(items[path[0]], path.drop_first(), t);
                lemma_item_songs(items, items.len(), path[0], t);
            },
            _ => {},
        }
    }
}

/// No song is missed: the id of whatever an object shows as a list item, at any depth, was seen
/// once the songs of the value are added.
pub proof fn law_every_song_is_found(
    v: json::JsonView,
    seen: Seq<Seq<char>>,
    path: Seq<int>,
    item: json::JsonView,
)
    requires
        value_at(v, path) is Some,
        json::member(value_at(v, path)->0, LIST_ITEM@) == Some(item),
        song_item(item) is Some,
    ensures
        (seen + ids(unseen(songs_in(v), seen))).contains(song_item(item)->0.id),
{
    let t = song_item(item)->0;
    assert(own_song(value_at(v, path)->0)[0] == t);
    lemma_songs_at(v, path, t);
    lemma_unseen_is_complete(songs_in(v), seen);
    lemma_seen(seen, unseen(songs_in(v), seen), t.id);
}

// ---- Requests ----

/// The value of an object with one member.
pub open spec fn wrapped(name: Seq<char>, v: json::JsonView) -> json::JsonView {
    json::JsonView::Object(seq![(name, v)])
}

/// What a search is made with.
pub open spec fn search_body(term: Seq<char>) -> json::JsonView {
    let client = json::JsonView::Object(
        seq![
            ("clientName"@, json::JsonView::Str("WEB_REMIX"@)),
            ("clientVersion"@, json::JsonView::Str(WEB_REMIX_VERSION@)),
            ("gl"@, json::JsonView::Str("US"@)),
            ("hl"@, json::JsonView::Str("en"@)),
        ],
    );
    json::JsonView::Object(
        seq![
            ("context"@, wrapped("client"@, client)),
            ("params"@, json::JsonView::Str(SONGS_PARAMS@)),
            ("query"@, json::JsonView::Str(term)),
        ],
    )
}

/// What a video is asked for with.
pub open spec fn player_body(id: Seq<char>) -> json::JsonView {
    let client = json::JsonView::Object(
        seq![
            ("clientName"@, json::JsonView::Str("IOS"@)),
            ("clientVersion"@, json::JsonView::Str(IOS_VERSION@)),
            ("deviceMake"@, json::JsonView::Str("Apple"@)),
            ("deviceModel"@, json::JsonView::Str("iPhone16,2"@)),
            ("gl"@, json::JsonView::Str("US"@)),
            ("hl"@, json::JsonView::Str("en"@)),
        ],
    );
    json::JsonView::Object(
        seq![
            ("contentCheckOk"@, json::JsonView::Bool(true)),
            ("context"@, wrapped("client"@, client)),
            ("racyCheckOk"@, json::JsonView::Bool(true)),
            ("videoId"@, json::JsonView::Str(id)),
        ],
    )
}

fn wrap(name: &str, v: Json) -> (r: Json)
    requires
        json::writable(v@),
    ensures
        r@ == wrapped(name@, v@),
        json::writable(r@),
{
    let ghost given = v@;
    let mut members: Vec<(String, Json)> = Vec::new();
    members.push(field(name, v));
    let r = object(members);
    assert(r@->Object_0 =~= wrapped(name@, given)->Object_0);
    proof {
        let m = r@->Object_0;
        assert forall|i: int| 0 <= i < m.len() implies json::writable((#[trigger] m[i]).1) by {
            assert(m[i].1 == given);
        }
    }
    r
}

fn search_json(term: &str) -> (r: Json)
    ensures
        r@ == search_body(term@),
        json::writable(r@),
{
    let mut client: Vec<(String, Json)> = Vec::new();
    client.push(field("clientName", text("WEB_REMIX")));
    client.push(field("clientVersion", text(WEB_REMIX_VERSION)));
    client.push(field("gl", text("US")));
    client.push(field("hl", text("en")));
    let client = object(client);
    proof {
        reveal_strlit("clientName");
        reveal_strlit("clientVersion");
        reveal_strlit("gl");
        reveal_strlit("hl");
        chars::lemma_text_less_at("clientName"@, "clientVersion"@, 6);
        chars::lemma_text_less_at("clientVersion"@, "gl"@, 0);
        chars::lemma_text_less_at("gl"@, "hl"@, 0);
        assert(client@->Object_0 =~= seq![
            ("clientName"@, json::JsonView::Str("WEB_REMIX"@)),
            ("clientVersion"@, json::JsonView::Str(WEB_REMIX_VERSION@)),
            ("gl"@, json::JsonView::Str("US"@)),
            ("hl"@, json::JsonView::Str("en"@)),
        ]);
        json::lemma_flat_is_writable(client@);
    }
    let context = wrap("client", client);
    let mut members: Vec<(String, Json)> = Vec::new();
    members.push(field("context", context));
    members.push(field("params", text(SONGS_PARAMS)));
    members.push(field("query", text(term)));
    let r = object(members);
    proof {
        reveal_strlit("context");
        reveal_strlit("params");
        reveal_strlit("query");
        chars::lemma_text_less_at("context"@, "params"@, 0);
        chars::lemma_text_less_at("params"@, "query"@, 0);
        assert(r@->Object_0 =~= search_body(term@)->Object_0);
        let m = r@->Object_0;
        assert(json::names_ascend(m));
        assert forall|i: int| 0 <= i < m.len() implies json::writable((#[trigger] m[i]).1) by {
            if i == 0 {
                assert(m[i].1 == context@);
            } else {
                assert(m[i].1 is Str);
            }
        }
    }
    r
}

fn player_json(id: &str) -> (r: Json)
    ensures
        r@ == player_body(id@),
        json::writable(r@),
{
    let mut client: Vec<(String, Json)> = Vec::new();
    client.push(field("clientName", text("IOS")));
    client.push(field("clientVersion", text(IOS_VERSION)));
    client.push(field("deviceMake", text("Apple")));
    client.push(field("deviceModel", text("iPhone16,2")));
    client.push(field("gl", text("US")));
    client.push(field("hl", text("en")));
    let client = object(client);
    proof {
        reveal_strlit("clientName");
        reveal_strlit("clientVersion");
        reveal_strlit("deviceMake");
        reveal_strlit("deviceModel");
        reveal_strlit("gl");
        reveal_strlit("hl");
        chars::lemma_text_less_at("clientName"@, "clientVersion"@, 6);
        chars::lemma_text_less_at("clientVersion"@, "deviceMake"@, 0);
        chars::lemma_text_less_at("deviceMake"@, "deviceModel"@, 7);
        chars::lemma_text_less_at("deviceModel"@, "gl"@, 0);
        chars::lemma_text_less_at("gl"@, "hl"@, 0);
        assert(client@->Object_0 =~= seq![
            ("clientName"@, json::JsonView::Str("IOS"@)),
            ("clientVersion"@, json::JsonView::Str(IOS_VERSION@)),
            ("deviceMake"@, json::JsonView::Str("Apple"@)),
            ("deviceModel"@, json::JsonView::Str("iPhone16,2"@)),
            ("gl"@, json::JsonView::Str("US"@)),
            ("hl"@, json::JsonView::Str("en"@)),
        ]);
        json::lemma_flat_is_writable(client@);
    }
    let context = wrap("client", client);
    let mut members: Vec<(String, Json)> = Vec::new();
    members.push(field("contentCheckOk", Json::Bool(true)));
    members.push(field("context", context));
    members.push(field("racyCheckOk", Json::Bool(true)));
    members.push(field("videoId", text(id)));
    let r = object(members);
    proof {
        reveal_strlit("contentCheckOk");
        reveal_strlit("context");
        reveal_strlit("racyCheckOk");
        reveal_strlit("videoId");
        chars::lemma_text_less_at("contentCheckOk"@, "context"@, 5);
        chars::lemma_text_less_at("context"@, "racyCheckOk"@, 0);
        chars::lemma_text_less_at("racyCheckOk"@, "videoId"@, 0);
        assert(r@->Object_0 =~= player_body(id@)->Object_0);
        let m = r@->Object_0;
        assert(json::names_ascend(m));
        assert forall|i: int| 0 <= i < m.len() implies json::writable((#[trigger] m[i]).1) by {
            if i == 1 {
                assert(m[i].1 == context@);
            } else if i == 3 {
                assert(m[i].1 is Str);
            } else {
                assert(m[i].1 is Bool);
            }
        }
    }
    r
}

/// What the player says of a video: where its master playlist is, or why it cannot be
/// played.
pub open spec fn manifest_address(player: json::JsonView) -> Result<Seq<char>, Seq<char>> {
    let status = match json::string_at(player, seq!["playabilityStatus"@, "status"@]) {
        Some(s) => s,
        None => Seq::empty(),
    };
    if status != "OK"@ {
        Err(
            "youtube not playable: "@ + match json::string_at(
                player,
                seq!["playabilityStatus"@, "reason"@],
            ) {
                Some(reason) => reason,
                None => status,
            },
        )
    } else {
        match json::string_at(player, seq!["streamingData"@, "hlsManifestUrl"@]) {
            Some(url) => Ok(url),
            None => Err(NO_MANIFEST@),
        }
    }
}

pub const NO_MANIFEST: &'static str = "youtube: no HLS manifest (PO token gated)";

pub const NO_PLAYLIST: &'static str = "youtube: no audio playlist in HLS manifest";

pub const NO_SEGMENTS: &'static str = "youtube: HLS media playlist had no segments";

impl YoutubeClient {
    pub fn new(cookies_path: Option<String>) -> (r: Self)
        ensures
            r == (YoutubeClient { cookies_path }),
    {
        YoutubeClient { cookies_path }
    }

    /// The body of a search. See [`search_reply`].
    pub fn search(&self, term: &str) -> (r: String)
        ensures
            r@ == json::json_text(search_body(term@)),
    {
        search_json(term).to_text()
    }

    /// The body of the search for the default queue.
    pub fn queue(&self) -> (r: String)
        ensures
            r@ == json::json_text(search_body(QUEUE_QUERY@)),
    {
        self.search(QUEUE_QUERY)
    }

    /// Where the audio of a video is resolved: the body of the request to the player. See
    /// [`player_reply`], [`media_playlist`] and [`resolved_audio`], in that order.
    pub fn resolve_audio(&self, id: &str) -> (r: String)
        ensures
            r@ == json::json_text(player_body(id@)),
    {
        player_json(id).to_text()
    }
}

/// At most `limit` songs of a search reply.
pub fn search_reply(reply: &Json, limit: u32) -> (r: Vec<ProviderTrack>)
    ensures
        music::track_views(r@) == music::first_of(first_of_each(songs_in(reply@)), limit),
{
    let mut found: Vec<ProviderTrack> = Vec::new();
    let mut seen: Vec<String> = Vec::new();
    assert(chars::texts(seen@) =~= Seq::<Seq<char>>::empty());
    collect_songs(reply, &mut found, &mut seen);
    assert(music::track_views(found@) =~= first_of_each(songs_in(reply@)));
    first_tracks(found, limit)
}

/// How many songs a search is cut down to: one at least.
pub fn search_limit(limit: u32) -> (r: u32)
    ensures
        r == if limit == 0 {
            1
        } else {
            limit
        },
{
    if limit == 0 {
        1
    } else {
        limit
    }
}

/// Where a video's master playlist is, or why it cannot be played.
pub fn player_reply(player: &Json) -> (r: Result<String, String>)
    ensures
        crate::weburl::text_result(r) == manifest_address(player@),
{
    let status = match player.str_at("playabilityStatus", "status") {
        Some(s) => String::from_str(s),
        None => String::new(),
    };
    assert(status@ =~= match json::string_at(player@, seq!["playabilityStatus"@, "status"@]) {
        Some(s) => s,
        None => Seq::empty(),
    });
    if !same_text(&status, "OK") {
        let reason = match player.str_at("playabilityStatus", "reason") {
            Some(reason) => String::from_str(reason),
            None => status,
        };
        return Err(text2("youtube not playable: ", &reason));
    }
    match player.str_at("streamingData", "hlsManifestUrl") {
        Some(url) => Ok(String::from_str(url)),
        None => Err(String::from_str(NO_MANIFEST)),
    }
}

/// Where the media playlist to play is, given the master playlist.
pub fn media_playlist(master: &str) -> (r: Result<String, String>)
    ensures
        match chosen_playlist(master@) {
            Some(url) => r is Ok && r->Ok_0@ == url,
            None => r is Err && r->Err_0@ == NO_PLAYLIST@,
        },
{
    match choose_audio_playlist(master) {
        Some(url) => Ok(url),
        None => Err(String::from_str(NO_PLAYLIST)),
    }
}

/// The audio to stream, given the media playlist.
pub fn resolved_audio(media: &str) -> (r: Result<ResolvedAudio, String>)
    ensures
        ({
            let lines = chars::lines(media@);
            if playable_segments(lines).len() == 0 {
                r is Err && r->Err_0@ == NO_SEGMENTS@
            } else {
                &&& r is Ok
                &&& r->Ok_0.content_type@ == content_type(lines)
                &&& chars::texts(r->Ok_0.segments@) == playable_segments(lines)
            }
        }),
{
    let (content_type, segments) = parse_media_playlist(media);
    assert(chars::texts(segments@).len() == segments@.len());
    if segments.len() == 0 {
        Err(String::from_str(NO_SEGMENTS))
    } else {
        Ok(ResolvedAudio { content_type, segments })
    }
}

// ---- Laws on playlists ----

/// What follows a text is what stands behind its first occurrence.
proof fn lemma_after(a: Seq<char>, pat: Seq<char>, b: Seq<char>)
    requires
        forall|i: int| 0 <= i < a.len() ==> !chars::occurs_at(a + pat + b, pat, i),
    ensures
        after_text(a + pat + b, pat) == Some(b),
{
    chars::law_first_occurrence_is_found(a, pat, b);
    assert((a + pat + b).skip((a.len() + pat.len()) as int) =~= b);
}

proof fn lemma_up_to(a: Seq<char>, c: char, b: Seq<char>)
    requires
        forall|i: int| 0 <= i < a.len() ==> a[i] != c,
    ensures
        chars::next_char(a + seq![c] + b, c, 0) == a.len(),
        chars::next_char(a, c, 0) == a.len(),
        (a + seq![c] + b).take(a.len() as int) == a,
{
    let t = a + seq![c] + b;
    chars::lemma_next_char(t, c, 0);
    chars::lemma_next_char(a, c, 0);
    assert(t[a.len() as int] == c);
    let k = chars::next_char(t, c, 0);
    if k < a.len() {
        assert(t[k] == a[k]);
    }
    assert(t.take(a.len() as int) =~= a);
}

/// The value of an attribute is what stands between the quotes behind its name.
pub proof fn law_attribute_is_quoted(
    before: Seq<char>,
    key: Seq<char>,
    value: Seq<char>,
    after: Seq<char>,
)
    requires
        forall|i: int| 0 <= i < value.len() ==> value[i] != '"',
        forall|i: int|
            0 <= i < before.len() ==> !chars::occurs_at(
                before + (key + seq!['=', '"']) + (value + seq!['"'] + after),
                key + seq!['=', '"'],
                i,
            ),
    ensures
        attribute(before + (key + seq!['=', '"']) + (value + seq!['"'] + after), key) == Some(value),
{
    reveal_strlit("=\"");
    assert("=\""@ =~= seq!['=', '"']);
    lemma_after(before, key + seq!['=', '"'], value + seq!['"'] + after);
    lemma_up_to(value, '"', after);
}

/// The itag of an address is the number between `/itag/` and the next slash.
pub proof fn law_itag_is_in_the_path(before: Seq<char>, n: u32, after: Seq<char>)
    requires
        forall|i: int|
            0 <= i < before.len() ==> !chars::occurs_at(
                before + "/itag/"@ + (number::nat_text(n as nat) + seq!['/'] + after),
                "/itag/"@,
                i,
            ),
    ensures
        itag(before + "/itag/"@ + (number::nat_text(n as nat) + seq!['/'] + after)) == n,
{
    let digits = number::nat_text(n as nat);
    number::law_numbers_are_written_with_digits(n as nat);
    number::law_written_number_is_read_back(n as nat, u32::MAX as nat);
    assert forall|i: int| 0 <= i < digits.len() implies digits[i] != '/' by {
        assert('0' <= digits[i]);
    }
    lemma_after(before, "/itag/"@, digits + seq!['/'] + after);
    lemma_up_to(digits, '/', after);
}

/// Only a line that names audio media has an address of audio, and it is the one of its `URI`.
pub proof fn law_audio_lines_name_their_address(line: Seq<char>)
    ensures
        !chars::starts_with(line, "#EXT-X-MEDIA:"@) ==> audio_uri(line) is None,
        !chars::contains_text(line, "TYPE=AUDIO"@) ==> audio_uri(line) is None,
        chars::starts_with(line, "#EXT-X-MEDIA:"@) && chars::contains_text(line, "TYPE=AUDIO"@)
            ==> audio_uri(line) == attribute(line, "URI"@),
{
}

/// Of the audio in a playlist the one with the largest itag is chosen, and the first of those.
pub proof fn law_best_audio_has_the_largest_itag(lines: Seq<Seq<char>>, k: int)
    requires
        0 <= k < lines.len(),
        audio_uri(lines[k]) is Some,
        forall|j: int|
            0 <= j < k && audio_uri(#[trigger] lines[j]) is Some ==> itag(audio_uri(lines[j])->0)
                < itag(audio_uri(lines[k])->0),
        forall|j: int|
            k < j < lines.len() && audio_uri(#[trigger] lines[j]) is Some ==> itag(
                audio_uri(lines[j])->0,
            ) <= itag(audio_uri(lines[k])->0),
    ensures
        best_audio(lines) == audio_uri(lines[k]),
    decreases lines.len(),
{
    let before = lines.drop_last();
    if k == lines.len() - 1 {
        lemma_audio_is_among(before);
        if best_audio(before) is Some {
            let j = choose|j: int|
                0 <= j < before.len() && audio_uri(#[trigger] before[j]) == best_audio(before);
            assert(before[j] == lines[j]);
        }
    } else {
        assert(before[k] == lines[k]);
        assert forall|j: int| 0 <= j < k && audio_uri(#[trigger] before[j]) is Some implies itag(
            audio_uri(before[j])->0,
        ) < itag(audio_uri(before[k])->0) by {
            assert(before[j] == lines[j]);
        }
        assert forall|j: int|
            k < j < before.len() && audio_uri(#[trigger] before[j]) is Some implies itag(
            audio_uri(before[j])->0,
        ) <= itag(audio_uri(before[k])->0) by {
            assert(before[j] == lines[j]);
        }
        law_best_audio_has_the_largest_itag(before, k);
        assert(lines.last() == lines[lines.len() - 1]);
    }
}

proof fn lemma_audio_is_among(lines: Seq<Seq<char>>)
    ensures
        best_audio(lines) is Some ==> exists|j: int|
            0 <= j < lines.len() && audio_uri(#[trigger] lines[j]) == best_audio(lines),
        best_audio(lines) is None ==> forall|j: int|
            0 <= j < lines.len() ==> audio_uri(#[trigger] lines[j]) is None,
    decreases lines.len(),
{
    if lines.len() > 0 {
        let before = lines.drop_last();
        lemma_audio_is_among(before);
        if best_audio(before) is Some {
            let j = choose|j: int|
                0 <= j < before.len() && audio_uri(#[trigger] before[j]) == best_audio(before);
            assert(audio_uri(lines[j]) == best_audio(before));
        }
        assert(audio_uri(lines[lines.len() - 1]) == audio_uri(lines.last()));
        assert forall|j: int| 0 <= j < lines.len() && best_audio(lines) is None implies audio_uri(
            #[trigger] lines[j],
        ) is None by {
            if j < before.len() {
                assert(before[j] == lines[j]);
            }
        }
    }
}

/// The bandwidth of a stream is the number behind its name; without one it counts as the largest.
pub proof fn law_bandwidth_is_named(before: Seq<char>, n: u64, after: Seq<char>)
    requires
        after.len() == 0 || !number::is_digit(after[0]),
        forall|i: int|
            0 <= i < before.len() ==> !chars::occurs_at(
                before + "BANDWIDTH="@ + (number::nat_text(n as nat) + after),
                "BANDWIDTH="@,
                i,
            ),
    ensures
        bandwidth(before + "BANDWIDTH="@ + (number::nat_text(n as nat) + after)) == n,
        !chars::contains_text(before, "BANDWIDTH="@) ==> bandwidth(before) == u64::MAX,
{
    let digits = number::nat_text(n as nat);
    number::law_numbers_are_written_with_digits(n as nat);
    number::law_written_number_is_read_back(n as nat, u64::MAX as nat);
    lemma_after(before, "BANDWIDTH="@, digits + after);
    lemma_leading_digits(digits, after);
    assert((digits + after).take(digits.len() as int) =~= digits);
}

proof fn lemma_leading_digits(digits: Seq<char>, after: Seq<char>)
    requires
        forall|i: int| 0 <= i < digits.len() ==> '0' <= #[trigger] digits[i] && digits[i] <= '9',
        after.len() == 0 || !number::is_digit(after[0]),
    ensures
        leading_digits(digits + after) == digits.len(),
    decreases digits.len(),
{
    let t = digits + after;
    if digits.len() > 0 {
        let rest = digits.drop_first();
        assert(digits[0] >= '0');
        assert(t[0] == digits[0]);
        assert forall|i: int| 0 <= i < rest.len() implies '0' <= #[trigger] rest[i] && rest[i] <= '9' by {
            assert(rest[i] == digits[i + 1]);
        }
        lemma_leading_digits(rest, after);
        assert(t.drop_first() =~= rest + after);
    } else {
        assert(t =~= after);
    }
}

/// The address of a stream is the next line that is neither a comment nor blank, without the white
/// space around it.
pub proof fn law_stream_address_follows(lines: Seq<Seq<char>>, i: int, j: int)
    requires
        0 <= i < j < lines.len(),
        chars::starts_with(lines[i], "#EXT-X-STREAM-INF"@),
        !chars::starts_with(lines[j], "#"@),
        chars::trimmed(lines[j]).len() > 0,
        forall|k: int|
            i < k < j ==> chars::starts_with(#[trigger] lines[k], "#"@) || chars::trimmed(
                lines[k],
            ).len() == 0,
    ensures
        variant_at(lines, i) == Some((bandwidth(lines[i]), chars::trimmed(lines[j]))),
{
    let rest = lines.skip(i + 1);
    assert(rest[j - i - 1] == lines[j]);
    assert forall|k: int| 0 <= k < j - i - 1 implies chars::starts_with(#[trigger] rest[k], "#"@)
        || chars::trimmed(rest[k]).len() == 0 by {
        assert(rest[k] == lines[k + i + 1]);
    }
    lemma_first_address(rest, j - i - 1);
}

proof fn lemma_first_address(lines: Seq<Seq<char>>, j: int)
    requires
        0 <= j < lines.len(),
        !chars::starts_with(lines[j], "#"@),
        chars::trimmed(lines[j]).len() > 0,
        forall|k: int|
            0 <= k < j ==> chars::starts_with(#[trigger] lines[k], "#"@) || chars::trimmed(
                lines[k],
            ).len() == 0,
    ensures
        first_address(lines) == Some(chars::trimmed(lines[j])),
    decreases j,
{
    if j > 0 {
        assert(chars::starts_with(lines[0], "#"@) || chars::trimmed(lines[0]).len() == 0);
        let rest = lines.drop_first();
        assert(rest[j - 1] == lines[j]);
        assert forall|k: int| 0 <= k < j - 1 implies chars::starts_with(#[trigger] rest[k], "#"@)
            || chars::trimmed(rest[k]).len() == 0 by {
            assert(rest[k] == lines[k + 1]);
        }
        lemma_first_address(rest, j - 1);
    }
}

/// A line that announces no stream is none.
pub proof fn law_other_lines_are_no_streams(lines: Seq<Seq<char>>, i: int)
    requires
        0 <= i < lines.len(),
        !chars::starts_with(lines[i], "#EXT-X-STREAM-INF"@),
    ensures
        variant_at(lines, i) is None,
{
}

/// Of the streams the one with the smallest bandwidth is chosen, and the first of those.
pub proof fn law_best_stream_has_the_smallest_bandwidth(lines: Seq<Seq<char>>, n: int, k: int)
    requires
        0 <= k < n <= lines.len(),
        variant_at(lines, k) is Some,
        forall|j: int|
            0 <= j < k && (#[trigger] variant_at(lines, j)) is Some ==> (variant_at(lines, j)->0).0
                > (variant_at(lines, k)->0).0,
        forall|j: int|
            k < j < n && (#[trigger] variant_at(lines, j)) is Some ==> (variant_at(lines, j)->0).0
                >= (variant_at(lines, k)->0).0,
    ensures
        best_variant(lines, n) == variant_at(lines, k),
    decreases n,
{
    if k == n - 1 {
        lemma_stream_is_among(lines, n - 1);
    } else {
        law_best_stream_has_the_smallest_bandwidth(lines, n - 1, k);
        assert(variant_at(lines, n - 1) is Some ==> (variant_at(lines, n - 1)->0).0 >= (
        variant_at(lines, k)->0).0);
    }
}

proof fn lemma_stream_is_among(lines: Seq<Seq<char>>, n: int)
    requires
        0 <= n <= lines.len(),
    ensures
        best_variant(lines, n) is Some ==> exists|j: int|
            0 <= j < n && #[trigger] variant_at(lines, j) == best_variant(lines, n),
    decreases n,
{
    if n > 0 {
        lemma_stream_is_among(lines, n - 1);
        assert(variant_at(lines, n - 1) == variant_at(lines, n - 1));
    }
}

/// Audio is chosen before a stream, and a stream only where there is no audio.
pub proof fn law_audio_goes_before_streams(master: Seq<char>)
    ensures
        ({
            let lines = chars::lines(master);
            let stream = best_variant(lines, lines.len() as int);
            &&& best_audio(lines) is Some ==> chosen_playlist(master) == best_audio(lines)
            &&& best_audio(lines) is None && stream is Some ==> chosen_playlist(master) == Some(
                (stream->0).1,
            )
            &&& best_audio(lines) is None && stream is None ==> chosen_playlist(master) is None
        }),
{
}

/// The segments are listed in order: the addresses and the initial segment's own, and nothing else.
pub proof fn law_segments_are_listed(lines: Seq<Seq<char>>, line: Seq<char>)
    ensures
        listed_segments(Seq::empty()).len() == 0,
        chars::starts_with(chars::trimmed(line), "http"@) && !chars::starts_with(
            chars::trimmed(line),
            "#EXT-X-MAP:"@,
        ) ==> listed_segments(lines.push(line)) == listed_segments(lines).push(chars::trimmed(line)),
        !chars::starts_with(chars::trimmed(line), "http"@) && !chars::starts_with(
            chars::trimmed(line),
            "#EXT-X-MAP:"@,
        ) ==> listed_segments(lines.push(line)) == listed_segments(lines),
        chars::starts_with(chars::trimmed(line), "#EXT-X-MAP:"@) ==> (attribute(
            chars::trimmed(line).skip(11),
            "URI"@,
        ) matches Some(uri) ==> listed_segments(lines.push(line)) == listed_segments(lines).push(uri)),
{
    reveal_strlit("#EXT-X-MAP:");
    assert(lines.push(line).drop_last() =~= lines);
}

/// The other segments keep their order when the initial one is brought to the front.
pub proof fn law_other_segments_keep_their_order(lines: Seq<Seq<char>>, k: int)
    requires
        0 <= k < lines.len(),
        init_uri(chars::trimmed(lines[k])) is Some,
        forall|j: int| 0 <= j < k ==> init_uri(chars::trimmed(#[trigger] lines[j])) is None,
    ensures
        ({
            let all = listed_segments(lines);
            let p = listed_segments(lines.take(k)).len() as int;
            &&& p < all.len()
            &&& playable_segments(lines).skip(1) == all.take(p) + all.skip(p + 1)
        }),
{
    lemma_first_init_position(lines, k);
    lemma_init_position(lines);
    let all = listed_segments(lines);
    let p = listed_segments(lines.take(k)).len() as int;
    assert(playable_segments(lines).skip(1) =~= all.take(p) + all.skip(p + 1));
}

proof fn lemma_first_init_position(lines: Seq<Seq<char>>, k: int)
    requires
        0 <= k < lines.len(),
        init_uri(chars::trimmed(lines[k])) is Some,
        forall|j: int| 0 <= j < k ==> init_uri(chars::trimmed(#[trigger] lines[j])) is None,
    ensures
        init_position(lines) == Some(listed_segments(lines.take(k)).len() as int),
    decreases lines.len(),
{
    let before = lines.drop_last();
    assert forall|j: int| 0 <= j < k implies init_uri(chars::trimmed(#[trigger] before[j])) is None by {
        assert(init_uri(chars::trimmed(lines[j])) is None);
    }
    if k == lines.len() - 1 {
        lemma_no_init(before);
        assert(before =~= lines.take(k));
    } else {
        assert(before[k] == lines[k]);
        lemma_first_init_position(before, k);
        assert(before.take(k) =~= lines.take(k));
    }
}

/// Without an initial segment, the segments are played as they are listed.
pub proof fn law_segments_are_played_as_listed(lines: Seq<Seq<char>>)
    requires
        forall|j: int| 0 <= j < lines.len() ==> init_uri(chars::trimmed(#[trigger] lines[j])) is None,
    ensures
        playable_segments(lines) == listed_segments(lines),
{
    lemma_no_init(lines);
}

/// A playlist with a map of its own is of fragmented MP4; one without is of MPEG-TS.
pub proof fn law_map_tells_the_content_type(lines: Seq<Seq<char>>, k: int)
    requires
        0 <= k < lines.len(),
    ensures
        chars::starts_with(chars::trimmed(lines[k]), "#EXT-X-MAP:"@) ==> content_type(lines)
            == "audio/mp4"@,
        (forall|i: int|
            0 <= i < lines.len() ==> !chars::starts_with(
                chars::trimmed(#[trigger] lines[i]),
                "#EXT-X-MAP:"@,
            )) ==> content_type(lines) == "video/mp2t"@,
{
}

// ---- Laws on songs ----

/// Minutes and seconds, with or without hours in front, make a duration; anything else is none.
pub proof fn law_duration_counts_seconds(h: nat, m: nat, s: nat)
    requires
        (h * 3600 + m * 60 + s) * 1000 <= u64::MAX,
    ensures
        duration(number::nat_text(m) + seq![':'] + number::nat_text(s)) == Some(
            ((m * 60 + s) * 1000) as u64,
        ),
        duration(
            number::nat_text(h) + seq![':'] + number::nat_text(m) + seq![':'] + number::nat_text(s),
        ) == Some(((h * 3600 + m * 60 + s) * 1000) as u64),
        duration(number::nat_text(s)) is None,
{
    let (ht, mt, st) = (number::nat_text(h), number::nat_text(m), number::nat_text(s));
    number::law_numbers_are_written_with_digits(h);
    number::law_numbers_are_written_with_digits(m);
    number::law_numbers_are_written_with_digits(s);
    number::law_written_number_is_read_back(h, u64::MAX as nat);
    number::law_written_number_is_read_back(m, u64::MAX as nat);
    number::law_written_number_is_read_back(s, u64::MAX as nat);
    assert(ht[0] >= '0' && mt[0] >= '0' && st[0] >= '0' && st.last() >= '0' && mt[0] <= '9' && ht[0]
        <= '9' && st[0] <= '9' && st.last() <= '9');
    let two = mt + seq![':'] + st;
    let three = ht + seq![':'] + mt + seq![':'] + st;
    assert(two.first() == mt[0] && two.last() == st.last());
    assert(three.first() == ht[0] && three.last() == st.last());
    chars::law_trimmed_text_is_kept(two);
    chars::law_trimmed_text_is_kept(three);
    chars::law_trimmed_text_is_kept(st);
    assert forall|i: int| 0 <= i < ht.len() implies ht[i] != ':' by {
        assert(ht[i] <= '9');
    }
    assert forall|i: int| 0 <= i < mt.len() implies mt[i] != ':' by {
        assert(mt[i] <= '9');
    }
    assert forall|i: int| 0 <= i < st.len() implies st[i] != ':' by {
        assert(st[i] <= '9');
    }
    chars::lemma_split_none(st, ':');
    chars::lemma_split_first(mt, ':', st);
    assert(mt.push(':') + st =~= two);
    chars::lemma_split_first(ht, ':', two);
    assert(ht.push(':') + two =~= three);
    let p2 = seq![mt, st];
    let p3 = seq![ht, mt, st];
    assert(chars::split_at_char(two, ':') =~= p2);
    assert(chars::split_at_char(three, ':') =~= p3);
    reveal_with_fuel(seconds_of, 4);
    assert(p2.drop_last() =~= seq![mt]);
    assert(seq![mt].drop_last() =~= Seq::<Seq<char>>::empty());
    assert(p3.drop_last() =~= seq![ht, mt]);
    assert(seq![ht, mt].drop_last() =~= seq![ht]);
    assert(seq![ht].drop_last() =~= Seq::<Seq<char>>::empty());
    assert(seconds_of(p2) == Some((m * 60 + s) as nat));
    assert(seconds_of(p3) == Some(((h * 60 + m) * 60 + s) as nat));
}

/// A text of white space or of a bullet says nothing; the others are the details, in order.
pub proof fn law_details_leave_out_bullets(ts: Seq<Seq<char>>, t: Seq<char>)
    ensures
        details(Seq::empty()).len() == 0,
        chars::trimmed(t).len() == 0 || chars::trimmed(t) == "•"@ ==> details(ts.push(t)) == details(ts),
        chars::trimmed(t).len() > 0 && chars::trimmed(t) != "•"@ ==> details(ts.push(t)) == details(
            ts,
        ).push(t),
{
    assert(ts.push(t).drop_last() =~= ts);
}

/// The duration is that of the first detail that tells one.
pub proof fn law_first_duration_is_told(ts: Seq<Seq<char>>, i: nat, k: int)
    requires
        i <= k < ts.len(),
        duration(ts[k]) is Some,
        forall|j: int| i <= j < k ==> duration(#[trigger] ts[j]) is None,
    ensures
        first_duration(ts, i) == duration(ts[k])->0,
    decreases ts.len() - i,
{
    if i < k {
        assert(duration(ts[i as int]) is None);
        law_first_duration_is_told(ts, i + 1, k);
    }
}

/// The album is the first detail that tells neither a duration nor a count.
pub proof fn law_first_album_is_told(ts: Seq<Seq<char>>, i: nat, k: int)
    requires
        i <= k < ts.len(),
        duration(ts[k]) is None,
        !tells_count(chars::lowercase(ts[k])),
        forall|j: int|
            i <= j < k ==> duration(#[trigger] ts[j]) is Some || tells_count(chars::lowercase(ts[j])),
    ensures
        first_album(ts, i) == ts[k],
    decreases ts.len() - i,
{
    if i < k {
        assert(duration(ts[i as int]) is Some || tells_count(chars::lowercase(ts[i as int])));
        law_first_album_is_told(ts, i + 1, k);
    }
}

/// No album and no duration are told where no detail tells one.
pub proof fn law_nothing_is_told_without_details(ts: Seq<Seq<char>>, i: nat)
    requires
        forall|j: int| i <= j < ts.len() ==> duration(#[trigger] ts[j]) is None && tells_count(
            chars::lowercase(ts[j]),
        ),
    ensures
        first_album(ts, i).len() == 0,
        first_duration(ts, i) == 0,
    decreases ts.len() - i,
{
    if i < ts.len() {
        assert(duration(ts[i as int]) is None);
        law_nothing_is_told_without_details(ts, i + 1);
    }
}

/// What counts views, plays, listeners or streams is no album.
pub proof fn law_counts_are_recognised(a: Seq<char>, b: Seq<char>, t: Seq<char>)
    ensures
        tells_count(a + "view"@ + b),
        tells_count(a + "play"@ + b),
        tells_count(a + "listener"@ + b),
        tells_count(a + "stream"@ + b),
        tells_count(t) ==> chars::contains_text(t, "view"@) || chars::contains_text(t, "play"@)
            || chars::contains_text(t, "listener"@) || chars::contains_text(t, "stream"@),
{
    chars::law_parts_are_contained(a, "view"@, b, t);
    chars::law_parts_are_contained(a, "play"@, b, t);
    chars::law_parts_are_contained(a, "listener"@, b, t);
    chars::law_parts_are_contained(a, "stream"@, b, t);
}

/// A string is looked for in an object's own members first.
pub proof fn law_own_string_goes_first(v: json::JsonView, key: Seq<char>)
    ensures
        v is Object && json::string_member(v, key) is Some ==> string_in(v, key) == json::string_member(
            v,
            key,
        ),
{
}

/// In an array, and in an object without the string, the first value that has it gives it.
pub proof fn law_first_string_is_found(items: Seq<json::JsonView>, key: Seq<char>, i: nat, k: int)
    requires
        i <= k < items.len(),
        string_in(items[k], key) is Some,
        forall|j: int| i <= j < k ==> string_in(#[trigger] items[j], key) is None,
    ensures
        string_in_items(items, key, i) == string_in(items[k], key),
        i == 0 ==> string_in(json::JsonView::Array(items), key) == string_in(items[k], key),
    decreases items.len() - i,
{
    if i < k {
        assert(string_in(items[i as int], key) is None);
        law_first_string_is_found(items, key, i + 1, k);
    }
}

/// In an object without the string, the first member that has it gives it.
pub proof fn law_first_member_string_is_found(
    members: Seq<(Seq<char>, json::JsonView)>,
    key: Seq<char>,
    i: nat,
    k: int,
)
    requires
        i <= k < members.len(),
        json::string_member(json::JsonView::Object(members), key) is None,
        string_in(members[k].1, key) is Some,
        forall|j: int| i <= j < k ==> string_in((#[trigger] members[j]).1, key) is None,
    ensures
        string_in_members(members, key, i) == string_in(members[k].1, key),
        i == 0 ==> string_in(json::JsonView::Object(members), key) == string_in(members[k].1, key),
    decreases members.len() - i,
{
    if i < k {
        assert(string_in(members[i as int].1, key) is None);
        law_first_member_string_is_found(members, key, i + 1, k);
    }
}

/// The texts of a column are those of its runs, in order.
pub proof fn law_runs_are_told_in_order(runs: Seq<json::JsonView>, run: json::JsonView)
    ensures
        run_texts(Seq::empty()).len() == 0,
        json::string_member(run, "text"@) matches Some(t) ==> run_texts(runs.push(run)) == run_texts(
            runs,
        ).push(t),
        json::string_member(run, "text"@) is None ==> run_texts(runs.push(run)) == run_texts(runs),
{
    assert(runs.push(run).drop_last() =~= runs);
}

/// A column is the one at its position in the list of columns.
pub proof fn law_columns_go_by_position(
    item: json::JsonView,
    columns: Seq<json::JsonView>,
    i: int,
    runs: Seq<json::JsonView>,
)
    requires
        json::member(item, "flexColumns"@) == Some(json::JsonView::Array(columns)),
        0 <= i < columns.len(),
        json::path_into(
            columns[i],
            seq!["musicResponsiveListItemFlexColumnRenderer"@, "text"@, "runs"@],
        ) == Some(json::JsonView::Array(runs)),
    ensures
        column_texts(item, i) == run_texts(runs),
        column_texts(item, columns.len() as int).len() == 0,
{
}

/// A song is told by the id of its video, the title in the first column, and the details in the
/// second: the artist first, then the album and the duration.
pub proof fn law_song_is_told_by_its_columns(item: json::JsonView, id: Seq<char>)
    requires
        string_in(item, "videoId"@) == Some(id),
    ensures
        song_item(item) is Some <==> vstd::utf8::encode_utf8(id).len() == 11,
        song_item(item) matches Some(t) ==> {
            let detail = details(column_texts(item, 1));
            &&& t.id == id
            &&& t.title == chars::joined(column_texts(item, 0), Seq::empty())
            &&& detail.len() > 0 ==> t.artist == detail[0]
            &&& detail.len() == 0 ==> t.artist.len() == 0
            &&& t.album == first_album(detail, 1)
            &&& t.duration_ms == first_duration(detail, 0)
        },
{
}

/// A song that was seen before is left out; a new one comes behind the others.
pub proof fn law_new_songs_are_added(
    tracks: Seq<music::TrackView>,
    t: music::TrackView,
    seen: Seq<Seq<char>>,
)
    ensures
        unseen(Seq::empty(), seen).len() == 0,
        seen.contains(t.id) ==> unseen(tracks.push(t), seen) == unseen(tracks, seen),
        (exists|i: int|
            0 <= i < unseen(tracks, seen).len() && (#[trigger] unseen(tracks, seen)[i]).id == t.id)
            ==> unseen(tracks.push(t), seen) == unseen(tracks, seen),
        !seen.contains(t.id) && (forall|i: int|
            0 <= i < unseen(tracks, seen).len() ==> (#[trigger] unseen(tracks, seen)[i]).id != t.id)
            ==> unseen(tracks.push(t), seen) == unseen(tracks, seen).push(t),
{
    assert(tracks.push(t).drop_last() =~= tracks);
}

/// The songs of an array come one item after the other.
pub proof fn law_songs_come_in_order(items: Seq<json::JsonView>, last: json::JsonView)
    ensures
        songs_in(json::JsonView::Array(items.push(last))) == songs_in(json::JsonView::Array(items))
            + songs_in(last),
        songs_in(json::JsonView::Array(Seq::empty())).len() == 0,
{
    lemma_item_songs_push(items, last, items.len());
}

proof fn lemma_item_songs_push(items: Seq<json::JsonView>, last: json::JsonView, n: nat)
    requires
        n <= items.len(),
    ensures
        songs_in_items(items.push(last), n) == songs_in_items(items, n),
    decreases n,
{
    if n > 0 {
        lemma_item_songs_push(items, last, (n - 1) as nat);
        assert(items.push(last)[n - 1] == items[n - 1]);
    }
}

/// A search and a request for a song carry what they are about.
pub proof fn law_requests_carry_their_subject(term: Seq<char>, id: Seq<char>)
    ensures
        json::holds(search_body(term), "query"@, json::JsonView::Str(term)),
        json::holds(
            search_body(term),
            "params"@,
            json::JsonView::Str("EgWKAQIIAWoKEAkQBRAKEAMQBA%3D%3D"@),
        ),
        json::holds(player_body(id), "videoId"@, json::JsonView::Str(id)),
        json::holds(player_body(id), "contentCheckOk"@, json::JsonView::Bool(true)),
        json::holds(player_body(id), "racyCheckOk"@, json::JsonView::Bool(true)),
        exists|c: json::JsonView|
            {
                &&& #[trigger] json::holds(
                    search_body(term),
                    "context"@,
                    json::JsonView::Object(seq![("client"@, c)]),
                )
                &&& json::holds(c, "clientName"@, json::JsonView::Str("WEB_REMIX"@))
                &&& json::holds(c, "clientVersion"@, json::JsonView::Str("1.20260707.12.00"@))
            },
        exists|c: json::JsonView|
            {
                &&& #[trigger] json::holds(
                    player_body(id),
                    "context"@,
                    json::JsonView::Object(seq![("client"@, c)]),
                )
                &&& json::holds(c, "clientName"@, json::JsonView::Str("IOS"@))
                &&& json::holds(c, "clientVersion"@, json::JsonView::Str("21.26.4"@))
            },
{
    let s = search_body(term)->Object_0;
    assert(s[0].0 == "context"@ && s[1].0 == "params"@ && s[2] == (
        "query"@,
        json::JsonView::Str(term),
    ));
    let p = player_body(id)->Object_0;
    assert(p[0] == ("contentCheckOk"@, json::JsonView::Bool(true)) && p[1].0 == "context"@ && p[2] == (
        "racyCheckOk"@,
        json::JsonView::Bool(true),
    ) && p[3] == ("videoId"@, json::JsonView::Str(id)));
    let sc = s[0].1->Object_0[0].1;
    assert(sc->Object_0[0].0 == "clientName"@ && sc->Object_0[1].0 == "clientVersion"@);
    assert(s[0].1->Object_0 =~= seq![("client"@, sc)]);
    assert(json::holds(search_body(term), "context"@, json::JsonView::Object(seq![("client"@, sc)])));
    let pc = p[1].1->Object_0[0].1;
    assert(pc->Object_0[0].0 == "clientName"@ && pc->Object_0[1].0 == "clientVersion"@);
    assert(p[1].1->Object_0 =~= seq![("client"@, pc)]);
    assert(json::holds(player_body(id), "context"@, json::JsonView::Object(seq![("client"@, pc)])));
}

/// A video plays only if its status is OK and it has a manifest; else the reason is told, or the
/// status without one.
pub proof fn law_playable_video_has_a_manifest(player: json::JsonView)
    ensures
        ({
            let status = json::string_at(player, seq!["playabilityStatus"@, "status"@]);
            let reason = json::string_at(player, seq!["playabilityStatus"@, "reason"@]);
            let url = json::string_at(player, seq!["streamingData"@, "hlsManifestUrl"@]);
            let r = manifest_address(player);
            &&& r is Ok <==> status == Some("OK"@) && url is Some
            &&& r matches Ok(u) ==> url == Some(u)
            &&& status == Some("OK"@) && url is None ==> r == Err::<Seq<char>, Seq<char>>(
                "youtube: no HLS manifest (PO token gated)"@,
            )
            &&& status != Some("OK"@) && reason is Some ==> r == Err::<Seq<char>, Seq<char>>(
                "youtube not playable: "@ + reason->0,
            )
            &&& status != Some("OK"@) && reason is None && status is Some ==> r == Err::<
                Seq<char>,
                Seq<char>,
            >("youtube not playable: "@ + status->0)
        }),
{
    reveal_strlit("OK");
    assert("OK"@.len() == 2);
}

/// The playlist that is chosen is played; where there is none, or nothing in it, that is an error.
pub proof fn law_nothing_to_play_is_an_error(
    master: &str,
    media: &str,
    url: Result<String, String>,
    r: Result<ResolvedAudio, String>,
)
    requires
        call_ensures(media_playlist, (master,), url),
        call_ensures(resolved_audio, (media,), r),
    ensures
        url is Ok <==> chosen_playlist(master@) is Some,
        url matches Ok(u) ==> chosen_playlist(master@) == Some(u@),
        r is Ok <==> listed_segments(chars::lines(media@)).len() > 0,
        r matches Ok(a) ==> a.segments@.len() == listed_segments(chars::lines(media@)).len(),
        r matches Ok(a) ==> chars::texts(a.segments@) == playable_segments(chars::lines(media@))
            && a.content_type@ == content_type(chars::lines(media@)),
{
    lemma_init_position(chars::lines(media@));
    if let Ok(a) = r {
        assert(chars::texts(a.segments@).len() == a.segments@.len());
    }
}

/// A search finds no more songs than are wanted, and no song twice.
pub proof fn law_search_finds_each_song_once(reply: Json, limit: u32, r: Vec<ProviderTrack>)
    requires
        call_ensures(search_reply, (&reply, limit), r),
    ensures
        r@.len() <= limit,
        forall|i: int, j: int|
            0 <= i < j < r@.len() ==> (#[trigger] r@[i]).id@ != (#[trigger] r@[j]).id@,
{
    let found = unseen(songs_in(reply@), Seq::empty());
    lemma_unseen(songs_in(reply@), Seq::empty());
    let v = music::track_views(r@);
    assert(v.len() == r@.len());
    assert forall|i: int, j: int| 0 <= i < j < r@.len() implies (#[trigger] r@[i]).id@ != (
    #[trigger] r@[j]).id@ by {
        assert(v[i] == r@[i]@ && v[j] == r@[j]@);
        assert(v[i] == found[i] && v[j] == found[j]);
        assert(found[i].id != found[j].id);
    }
}

/// A search for none counts as one for one.
pub proof fn law_one_song_is_searched_at_least(limit: u32, r: u32)
    requires
        call_ensures(search_limit, (limit,), r),
    ensures
        limit >= 1 ==> r == limit,
        limit == 0 ==> r == 1,
{
}

/// An address that names no itag, or none that is a number, has itag 0.
pub proof fn law_missing_itag_counts_as_zero(
    url: Seq<char>,
    before: Seq<char>,
    t: Seq<char>,
    after: Seq<char>,
)
    ensures
        !chars::contains_text(url, "/itag/"@) ==> itag(url) == 0,
        ((forall|i: int| 0 <= i < t.len() ==> t[i] != '/') && number::written_number(t) is None && (
        forall|i: int|
            0 <= i < before.len() ==> !chars::occurs_at(
                before + "/itag/"@ + (t + seq!['/'] + after),
                "/itag/"@,
                i,
            ))) ==> itag(before + "/itag/"@ + (t + seq!['/'] + after)) == 0,
{
    if (forall|i: int| 0 <= i < t.len() ==> t[i] != '/') && number::written_number(t) is None && (
    forall|i: int|
        0 <= i < before.len() ==> !chars::occurs_at(
            before + "/itag/"@ + (t + seq!['/'] + after),
            "/itag/"@,
            i,
        )) {
        lemma_after(before, "/itag/"@, t + seq!['/'] + after);
        lemma_up_to(t, '/', after);
    }
}

/// Both kinds of client speak English in the United States, and the player's is a phone.
pub proof fn law_clients_tell_language_and_country(
    term: Seq<char>,
    id: Seq<char>,
    c: json::JsonView,
)
    ensures
        json::holds(
            search_body(term),
            "context"@,
            json::JsonView::Object(seq![("client"@, c)]),
        ) ==> json::holds(c, "gl"@, json::JsonView::Str("US"@)) && json::holds(
            c,
            "hl"@,
            json::JsonView::Str("en"@),
        ) && c->Object_0.len() == 4,
        json::holds(
            player_body(id),
            "context"@,
            json::JsonView::Object(seq![("client"@, c)]),
        ) ==> json::holds(c, "gl"@, json::JsonView::Str("US"@)) && json::holds(
            c,
            "hl"@,
            json::JsonView::Str("en"@),
        ) && json::holds(c, "deviceMake"@, json::JsonView::Str("Apple"@)) && json::holds(
            c,
            "deviceModel"@,
            json::JsonView::Str("iPhone16,2"@),
        ) && c->Object_0.len() == 6,
{
    reveal_strlit("context");
    reveal_strlit("params");
    reveal_strlit("query");
    reveal_strlit("contentCheckOk");
    reveal_strlit("racyCheckOk");
    reveal_strlit("videoId");
    let s = search_body(term)->Object_0;
    let p = player_body(id)->Object_0;
    let wrap = json::JsonView::Object(seq![("client"@, c)]);
    assert(seq![("client"@, c)][0].1 == c);
    assert("context"@.len() == 7 && "params"@.len() == 6 && "query"@.len() == 5);
    assert("contentCheckOk"@.len() == 14 && "racyCheckOk"@.len() == 11 && "videoId"@.len() == 7);
    assert("context"@[0] == 'c' && "videoId"@[0] == 'v');
    if json::holds(search_body(term), "context"@, wrap) {
        let i = choose|i: int| 0 <= i < s.len() && #[trigger] s[i] == ("context"@, wrap);
        assert(i == 0);
        let w = s[0].1->Object_0;
        assert(w[0].1 == c);
        assert(c->Object_0[2] == ("gl"@, json::JsonView::Str("US"@)));
        assert(c->Object_0[3] == ("hl"@, json::JsonView::Str("en"@)));
    }
    if json::holds(player_body(id), "context"@, wrap) {
        let i = choose|i: int| 0 <= i < p.len() && #[trigger] p[i] == ("context"@, wrap);
        assert(i == 1);
        let w = p[1].1->Object_0;
        assert(w[0].1 == c);
        assert(c->Object_0[2] == ("deviceMake"@, json::JsonView::Str("Apple"@)));
        assert(c->Object_0[3] == ("deviceModel"@, json::JsonView::Str("iPhone16,2"@)));
        assert(c->Object_0[4] == ("gl"@, json::JsonView::Str("US"@)));
        assert(c->Object_0[5] == ("hl"@, json::JsonView::Str("en"@)));
    }
}

} // verus!
