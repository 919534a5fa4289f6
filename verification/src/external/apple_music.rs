//! The Apple Music catalog (`api.music.apple.com`) and the user's library in it.

use crate::chars;
use crate::chars::{has_suffix, is_before};
use crate::external::{text2, text3, text4};
use crate::json;
use crate::json::Json;
use crate::number;
use crate::number::u64_text;
use crate::weburl;
use crate::weburl::{one_param, three_params, two_params, with_query};
use vstd::prelude::*;
use vstd::string::*;

verus! {

pub const CATALOG_BASE: &'static str = "https://api.music.apple.com/v1/catalog";

/// Personalized endpoints. Requests here also carry the `Music-User-Token` header of the
/// signed-in account.
pub const ME_BASE: &'static str = "https://api.music.apple.com/v1/me";

pub const NO_USER_TOKEN: &'static str = "apple: no Music-User-Token configured";

/// A song of the catalog.
#[derive(Debug, Clone, PartialEq, Eq)]
pub struct AppleSong {
    pub id: String,
    pub name: String,
    pub artist: String,
    pub album: String,
    pub duration_ms: u64,
    /// Artwork URL template, with `{w}` and `{h}` for the size.
    pub artwork_url: Option<String>,
}

/// An artist, album or playlist of the catalog, with its track count if that is known.
#[derive(Debug, Clone, PartialEq, Eq)]
pub struct AppleEntity {
    pub id: String,
    pub name: String,
    pub track_count: Option<u32>,
}

/// What the catalog is asked with: the developer token, the storefront, and the Music User
/// Token of the signed-in account, if any.
#[derive(Debug, Clone, PartialEq, Eq)]
pub struct AppleMusicClient {
    pub developer_token: String,
    pub storefront: String,
    pub user_token: Option<String>,
}

/// A GET request with the developer token as its bearer token.
#[derive(Debug, PartialEq, Eq)]
pub struct AppleRequest {
    pub url: String,
    pub bearer: String,
    pub user_token: Option<String>,
}

// ---- Replies ----

#[derive(Debug, PartialEq, Eq)]
pub struct SongAttributes {
    pub name: String,
    pub artist_name: String,
    pub album_name: String,
    pub duration_in_millis: u64,
    pub artwork_url: Option<String>,
}

#[derive(Debug, PartialEq, Eq)]
pub struct SongResource {
    pub id: String,
    pub attributes: Option<SongAttributes>,
}

#[derive(Debug, PartialEq, Eq)]
pub struct LibrarySongAttributes {
    pub name: String,
    pub artist_name: Option<String>,
    pub album_name: Option<String>,
    pub duration_ms: Option<u64>,
    pub catalog_id: Option<String>,
}

#[derive(Debug, PartialEq, Eq)]
pub struct LibrarySong {
    pub id: String,
    pub attributes: Option<LibrarySongAttributes>,
}

#[derive(Debug, PartialEq, Eq)]
pub struct LibraryPlaylist {
    pub id: String,
    pub name: Option<String>,
}

/// A song as contracts see it.
pub ghost struct SongView {
    pub id: Seq<char>,
    pub name: Seq<char>,
    pub artist: Seq<char>,
    pub album: Seq<char>,
    pub duration_ms: u64,
    pub artwork_url: Option<Seq<char>>,
}

impl View for AppleSong {
    type V = SongView;

    open spec fn view(&self) -> SongView {
        SongView {
            id: self.id@,
            name: self.name@,
            artist: self.artist@,
            album: self.album@,
            duration_ms: self.duration_ms,
            artwork_url: chars::opt_text(self.artwork_url),
        }
    }
}

pub open spec fn song_views(songs: Seq<AppleSong>) -> Seq<SongView> {
    songs.map_values(|s: AppleSong| s@)
}

/// An optional text, or else the empty one.
pub open spec fn text_or_empty(o: Option<String>) -> Seq<char> {
    match o {
        Some(s) => s@,
        None => Seq::empty(),
    }
}

fn or_empty(o: Option<String>) -> (r: String)
    ensures
        r@ == text_or_empty(o),
{
    match o {
        Some(s) => s,
        None => String::new(),
    }
}

/// The song of a catalog resource; without attributes, all but its id is empty.
pub open spec fn catalog_song(s: SongResource) -> SongView {
    match s.attributes {
        Some(a) => SongView {
            id: s.id@,
            name: a.name@,
            artist: a.artist_name@,
            album: a.album_name@,
            duration_ms: a.duration_in_millis,
            artwork_url: chars::opt_text(a.artwork_url),
        },
        None => SongView {
            id: s.id@,
            name: Seq::empty(),
            artist: Seq::empty(),
            album: Seq::empty(),
            duration_ms: 0,
            artwork_url: None,
        },
    }
}

impl SongResource {
    pub fn into_song(self) -> (r: AppleSong)
        ensures
            r@ == catalog_song(self),
    {
        match self.attributes {
            Some(a) => AppleSong {
                id: self.id,
                name: a.name,
                artist: a.artist_name,
                album: a.album_name,
                duration_ms: a.duration_in_millis,
                artwork_url: a.artwork_url,
            },
            None => AppleSong {
                id: self.id,
                name: String::new(),
                artist: String::new(),
                album: String::new(),
                duration_ms: 0,
                artwork_url: None,
            },
        }
    }
}

/// The songs of some catalog resources.
pub open spec fn catalog_songs(data: Seq<SongResource>) -> Seq<SongView> {
    data.map_values(|s: SongResource| catalog_song(s))
}

/// The songs of some catalog resources, in order.
pub fn songs_into(data: Vec<SongResource>) -> (r: Vec<AppleSong>)
    ensures
        song_views(r@) == catalog_songs(data@),
{
    let ghost all = data@;
    let mut out: Vec<AppleSong> = Vec::new();
    for s in it: data
        invariant
            it.seq() == all,
            out@.len() == it.index(),
            forall|i: int| 0 <= i < out@.len() ==> (#[trigger] out@[i])@ == catalog_song(all[i]),
    {
        out.push(s.into_song());
    }
    assert(song_views(out@) =~= catalog_songs(all));
    out
}

/// The song of a library resource: by its catalog id where it has one, so that the catalog
/// player can play it. Without attributes there is none.
pub open spec fn library_song(s: LibrarySong) -> Option<SongView> {
    match s.attributes {
        Some(a) => Some(
            SongView {
                id: match a.catalog_id {
                    Some(id) => id@,
                    None => s.id@,
                },
                name: a.name@,
                artist: text_or_empty(a.artist_name),
                album: text_or_empty(a.album_name),
                duration_ms: match a.duration_ms {
                    Some(n) => n,
                    None => 0,
                },
                artwork_url: None,
            },
        ),
        None => None,
    }
}

/// The songs of some library resources, in order.
pub open spec fn library_song_views(data: Seq<LibrarySong>) -> Seq<SongView>
    decreases data.len(),
{
    if data.len() == 0 {
        Seq::empty()
    } else {
        let rest = library_song_views(data.drop_last());
        match library_song(data.last()) {
            Some(s) => rest.push(s),
            None => rest,
        }
    }
}

/// The songs of some library resources, in order.
pub fn library_songs_into(data: Vec<LibrarySong>) -> (r: Vec<AppleSong>)
    ensures
        song_views(r@) == library_song_views(data@),
{
    let ghost all = data@;
    let mut out: Vec<AppleSong> = Vec::new();
    assert(song_views(out@) =~= library_song_views(all.take(0)));
    for s in it: data
        invariant
            it.seq() == all,
            song_views(out@) == library_song_views(all.take(it.index())),
    {
        let ghost n = it.index();
        proof {
            assert(all.take(n + 1).drop_last() =~= all.take(n));
            assert(all.take(n + 1).last() == s);
        }
        if let Some(a) = s.attributes {
            let song = AppleSong {
                id: match a.catalog_id {
                    Some(id) => id,
                    None => s.id,
                },
                name: a.name,
                artist: or_empty(a.artist_name),
                album: or_empty(a.album_name),
                duration_ms: match a.duration_ms {
                    Some(n) => n,
                    None => 0,
                },
                artwork_url: None,
            };
            let ghost before = out@;
            let ghost shown = song@;
            out.push(song);
            assert(song_views(out@) =~= song_views(before).push(shown));
        }
    }
    assert(all.take(all.len() as int) =~= all);
    out
}

/// The user's playlists, from a reply.
pub fn library_playlists_into(data: Vec<LibraryPlaylist>) -> (r: Vec<AppleEntity>)
    ensures
        r@.len() == data@.len(),
        forall|i: int|
            0 <= i < r@.len() ==> (#[trigger] r@[i]).id == data@[i].id && r@[i].name@
                == text_or_empty(data@[i].name) && r@[i].track_count is None,
{
    let ghost all = data@;
    let mut out: Vec<AppleEntity> = Vec::new();
    for p in it: data
        invariant
            it.seq() == all,
            out@.len() == it.index(),
            forall|i: int|
                0 <= i < out@.len() ==> (#[trigger] out@[i]).id == all[i].id && out@[i].name@
                    == text_or_empty(all[i].name) && out@[i].track_count is None,
    {
        out.push(AppleEntity { id: p.id, name: or_empty(p.name), track_count: None });
    }
    out
}

/// The song that was looked up, from a reply.
pub fn song_reply(id: &str, data: Vec<SongResource>) -> (r: Result<AppleSong, String>)
    ensures
        data@.len() > 0 ==> r is Ok && r->Ok_0@ == catalog_song(data@[0]),
        data@.len() == 0 ==> r is Err && r->Err_0@ == "apple catalog: song "@ + id@
            + " not found"@,
{
    let mut songs = songs_into(data);
    assert(songs@.len() == song_views(songs@).len() == data@.len());
    if songs.len() > 0 {
        assert(song_views(songs@)[0] == catalog_songs(data@)[0]);
        Ok(songs.remove(0))
    } else {
        Err(text3("apple catalog: song ", id, " not found"))
    }
}

/// The top song, from a reply that may hold no songs.
pub fn search_top_reply(data: Option<Vec<SongResource>>) -> (r: Option<AppleSong>)
    ensures
        r is Some <==> data is Some && data->0@.len() > 0,
        r matches Some(s) ==> s@ == catalog_song(data->0@[0]),
{
    let mut songs = search_reply(data);
    assert(songs@.len() == song_views(songs@).len() == found_songs(data).len());
    if songs.len() > 0 {
        assert(song_views(songs@)[0] == found_songs(data)[0]);
        Some(songs.remove(0))
    } else {
        None
    }
}

pub open spec fn found_songs(data: Option<Vec<SongResource>>) -> Seq<SongView> {
    match data {
        Some(d) => catalog_songs(d@),
        None => Seq::empty(),
    }
}

/// The songs of a reply that may hold none: of a search, or of the first chart.
pub fn search_reply(data: Option<Vec<SongResource>>) -> (r: Vec<AppleSong>)
    ensures
        song_views(r@) == found_songs(data),
{
    match data {
        Some(d) => songs_into(d),
        None => {
            let out: Vec<AppleSong> = Vec::new();
            assert(song_views(out@) =~= Seq::<SongView>::empty());
            out
        },
    }
}

/// The songs of the first chart of a reply.
pub fn chart_reply(charts: Vec<Vec<SongResource>>) -> (r: Vec<AppleSong>)
    ensures
        song_views(r@) == if charts@.len() > 0 {
            catalog_songs(charts@[0]@)
        } else {
            Seq::empty()
        },
{
    let mut all = charts;
    if all.len() > 0 {
        songs_into(all.remove(0))
    } else {
        search_reply(None)
    }
}

// ---- Entities ----

/// The kinds of entities that can be searched for.
#[derive(Clone, Copy, Debug, PartialEq, Eq, Structural)]
pub enum EntityKind {
    Artists,
    Albums,
    Playlists,
}

pub open spec fn kind_text(kind: EntityKind) -> Seq<char> {
    match kind {
        EntityKind::Artists => "artists"@,
        EntityKind::Albums => "albums"@,
        EntityKind::Playlists => "playlists"@,
    }
}

impl EntityKind {
    pub fn as_str(self) -> (r: &'static str)
        ensures
            r@ == kind_text(self),
    {
        match self {
            EntityKind::Artists => "artists",
            EntityKind::Albums => "albums",
            EntityKind::Playlists => "playlists",
        }
    }
}

/// What an entity of a reply is; without an id there is none.
pub open spec fn entity_of(v: json::JsonView) -> Option<(Seq<char>, Seq<char>, Option<u32>)> {
    match json::string_member(v, "id"@) {
        Some(id) => Some(
            (
                id,
                match json::string_at(v, seq!["attributes"@, "name"@]) {
                    Some(name) => name,
                    None => Seq::empty(),
                },
                match json::u64_at(v, seq!["attributes"@, "trackCount"@]) {
                    Some(n) => Some(n as u32),
                    None => None,
                },
            ),
        ),
        None => None,
    }
}

/// The first entity of a search reply.
pub open spec fn first_entity(body: json::JsonView, kind: EntityKind) -> Option<
    (Seq<char>, Seq<char>, Option<u32>),
> {
    match json::path_into(body, seq!["results"@, kind_text(kind), "data"@, "0"@]) {
        Some(v) => entity_of(v),
        None => None,
    }
}

pub open spec fn entity_view(e: AppleEntity) -> (Seq<char>, Seq<char>, Option<u32>) {
    (e.id@, e.name@, e.track_count)
}

/// The top entity of a kind, from the reply to a search.
pub fn search_entity_reply(kind: EntityKind, body: &Json) -> (r: Option<AppleEntity>)
    ensures
        match r {
            Some(e) => first_entity(body@, kind) == Some(entity_view(e)),
            None => first_entity(body@, kind) is None,
        },
{
    let mut path: Vec<&str> = Vec::new();
    path.push("results");
    path.push(kind.as_str());
    path.push("data");
    path.push("0");
    assert(json::str_views(path@) =~= seq!["results"@, kind_text(kind), "data"@, "0"@]);
    match body.pointer(&path) {
        Some(v) => match v.get_str("id") {
            Some(id) => {
                let name = match v.str_at("attributes", "name") {
                    Some(name) => String::from_str(name),
                    None => String::new(),
                };
                let track_count: Option<u32> = match v.u64_at_path("attributes", "trackCount") {
                    Some(n) => Some(#[verifier::truncate] (n as u32)),
                    None => None,
                };
                assert(name@ == match json::string_at(v@, seq!["attributes"@, "name"@]) {
                    Some(name) => name,
                    None => Seq::empty(),
                });
                Some(AppleEntity { id: String::from_str(id), name, track_count })
            },
            None => None,
        },
        None => None,
    }
}

// ---- The newest album ----

/// An album as a reply lists it.
pub ghost struct AlbumView {
    pub name: Seq<char>,
    pub date: Seq<char>,
    pub tracks: u64,
}

/// What an album of a reply is; without a name there is none.
pub open spec fn album_of(v: json::JsonView) -> Option<AlbumView> {
    match json::string_at(v, seq!["attributes"@, "name"@]) {
        Some(name) => Some(
            AlbumView {
                name,
                date: match json::string_at(v, seq!["attributes"@, "releaseDate"@]) {
                    Some(date) => date,
                    None => Seq::empty(),
                },
                tracks: match json::u64_at(v, seq!["attributes"@, "trackCount"@]) {
                    Some(n) => n,
                    None => 0,
                },
            },
        ),
        None => None,
    }
}

/// The albums of some items of a reply, in order.
pub open spec fn albums_of(items: Seq<json::JsonView>) -> Seq<AlbumView>
    decreases items.len(),
{
    if items.len() == 0 {
        Seq::empty()
    } else {
        let rest = albums_of(items.drop_last());
        match album_of(items.last()) {
            Some(a) => rest.push(a),
            None => rest,
        }
    }
}

/// The albums of a reply.
pub open spec fn reply_albums(body: json::JsonView) -> Seq<AlbumView> {
    match json::member(body, "data"@) {
        Some(data) => match json::items_of(data) {
            Some(items) => albums_of(items),
            None => Seq::empty(),
        },
        None => Seq::empty(),
    }
}

/// Whether an album is a full one, and no single.
pub open spec fn is_full_album(a: AlbumView) -> bool {
    a.tracks > 3 && !chars::ends_with(a.name, "- Single"@)
}

/// Which of some albums is the newest, the full ones only or all of them: the first of
/// those with the latest date.
pub open spec fn newest(albums: Seq<AlbumView>, full_only: bool) -> Option<int>
    decreases albums.len(),
{
    if albums.len() == 0 {
        None
    } else {
        let last = albums.len() - 1;
        let before = newest(albums.drop_last(), full_only);
        if full_only && !is_full_album(albums[last]) {
            before
        } else {
            match before {
                Some(i) => if chars::text_less(albums[i].date, albums[last].date) {
                    Some(last)
                } else {
                    Some(i)
                },
                None => Some(last),
            }
        }
    }
}

/// The title of the newest full album, or else of the newest album.
pub open spec fn newest_title(albums: Seq<AlbumView>) -> Option<Seq<char>> {
    match newest(albums, true) {
        Some(i) => Some(albums[i].name),
        None => match newest(albums, false) {
            Some(i) => Some(albums[i].name),
            None => None,
        },
    }
}

/// The newest album is among the albums, none is newer, and those of the same date come
/// after it.
pub proof fn law_newest_is_newest(albums: Seq<AlbumView>, full_only: bool)
    ensures
        newest(albums, full_only) matches Some(i) ==> {
            &&& 0 <= i < albums.len()
            &&& full_only ==> is_full_album(albums[i])
            &&& forall|j: int|
                0 <= j < albums.len() && (full_only ==> is_full_album(#[trigger] albums[j]))
                    ==> !chars::text_less(albums[i].date, albums[j].date)
            &&& forall|j: int|
                0 <= j < i && (full_only ==> is_full_album(#[trigger] albums[j]))
                    ==> chars::text_less(albums[j].date, albums[i].date)
        },
        newest(albums, full_only) is None ==> forall|j: int|
            0 <= j < albums.len() ==> full_only && !is_full_album(#[trigger] albums[j]),
    decreases albums.len(),
{
    if albums.len() > 0 {
        let rest = albums.drop_last();
        let last = albums.len() - 1;
        law_newest_is_newest(rest, full_only);
        assert forall|j: int| 0 <= j < rest.len() implies rest[j] == albums[j] by {}
        match newest(rest, full_only) {
            Some(i) => {
                assert(rest[i] == albums[i]);
                let new_date = albums[last].date;
                if (full_only ==> is_full_album(albums[last])) && chars::text_less(
                    albums[i].date,
                    new_date,
                ) {
                    assert forall|j: int|
                        0 <= j < albums.len() && (full_only ==> is_full_album(
                            #[trigger] albums[j],
                        )) implies !chars::text_less(new_date, albums[j].date) by {
                        if j < last {
                            assert(full_only ==> is_full_album(rest[j]));
                            chars::lemma_text_order(albums[i].date, albums[j].date);
                            chars::lemma_text_order(new_date, albums[j].date);
                            if chars::text_less(new_date, albums[j].date) {
                                chars::lemma_text_less_transitive(
                                    albums[i].date,
                                    new_date,
                                    albums[j].date,
                                );
                            }
                        } else {
                            chars::lemma_text_order(new_date, new_date);
                        }
                    }
                    assert forall|j: int|
                        0 <= j < last && (full_only ==> is_full_album(
                            #[trigger] albums[j],
                        )) implies chars::text_less(albums[j].date, new_date) by {
                        assert(full_only ==> is_full_album(rest[j]));
                        chars::lemma_text_order(albums[i].date, albums[j].date);
                        if albums[j].date != albums[i].date {
                            chars::lemma_text_less_transitive(
                                albums[j].date,
                                albums[i].date,
                                new_date,
                            );
                        }
                    }
                } else {
                    assert forall|j: int|
                        0 <= j < albums.len() && (full_only ==> is_full_album(
                            #[trigger] albums[j],
                        )) implies !chars::text_less(albums[i].date, albums[j].date) by {
                        if j < last {
                            assert(full_only ==> is_full_album(rest[j]));
                        }
                    }
                    assert forall|j: int|
                        0 <= j < i && (full_only ==> is_full_album(
                            #[trigger] albums[j],
                        )) implies chars::text_less(albums[j].date, albums[i].date) by {
                        assert(full_only ==> is_full_album(rest[j]));
                    }
                }
            },
            None => {
                assert forall|j: int| 0 <= j < last implies full_only && !is_full_album(
                    #[trigger] albums[j],
                ) by {
                    assert(full_only && !is_full_album(rest[j]));
                }
                chars::lemma_text_order(albums[last].date, albums[last].date);
            },
        }
    }
}

struct Album {
    name: String,
    date: String,
    tracks: u64,
}

impl View for Album {
    type V = AlbumView;

    closed spec fn view(&self) -> AlbumView {
        AlbumView { name: self.name@, date: self.date@, tracks: self.tracks }
    }
}

spec fn album_views(v: Seq<Album>) -> Seq<AlbumView> {
    v.map_values(|a: Album| a@)
}

fn read_album(v: &Json) -> (r: Option<Album>)
    ensures
        match r {
            Some(a) => album_of(v@) == Some(a@),
            None => album_of(v@) is None,
        },
{
    match v.str_at("attributes", "name") {
        Some(name) => {
            let date = match v.str_at("attributes", "releaseDate") {
                Some(date) => String::from_str(date),
                None => String::new(),
            };
            let tracks: u64 = match v.u64_at_path("attributes", "trackCount") {
                Some(n) => n,
                None => 0,
            };
            let album = Album { name: String::from_str(name), date, tracks };
            assert(album@.date =~= album_of(v@)->0.date);
            Some(album)
        },
        None => None,
    }
}

fn read_albums(body: &Json) -> (r: Vec<Album>)
    ensures
        album_views(r@) == reply_albums(body@),
{
    let mut out: Vec<Album> = Vec::new();
    assert(album_views(out@) =~= Seq::<AlbumView>::empty());
    if let Some(data) = body.get("data") {
        if let Some(items) = data.as_array() {
            let ghost all = json::views(items@);
            let mut i: usize = 0;
            assert(albums_of(all.take(0)) =~= Seq::<AlbumView>::empty());
            while i < items.len()
                invariant
                    i <= items@.len(),
                    all == json::views(items@),
                    album_views(out@) == albums_of(all.take(i as int)),
                decreases items@.len() - i,
            {
                proof {
                    assert(all.take(i + 1).drop_last() =~= all.take(i as int));
                    assert(all.take(i + 1).last() == items@[i as int]@);
                }
                if let Some(a) = read_album(&items[i]) {
                    let ghost before = out@;
                    let ghost shown = a@;
                    out.push(a);
                    assert(album_views(out@) =~= album_views(before).push(shown));
                }
                i += 1;
            }
            assert(all.take(i as int) =~= all);
        }
    }
    out
}

fn find_newest(albums: &Vec<Album>, full_only: bool) -> (r: Option<usize>)
    ensures
        match r {
            Some(i) => i < albums@.len() && newest(album_views(albums@), full_only) == Some(i as int),
            None => newest(album_views(albums@), full_only) is None,
        },
{
    let ghost all = album_views(albums@);
    let mut best: Option<usize> = None;
    let mut i: usize = 0;
    while i < albums.len()
        invariant
            i <= albums@.len(),
            all == album_views(albums@),
            match best {
                Some(b) => b < i && newest(all.take(i as int), full_only) == Some(b as int),
                None => newest(all.take(i as int), full_only) is None,
            },
        decreases albums@.len() - i,
    {
        proof {
            assert(all.take(i + 1).drop_last() =~= all.take(i as int));
            assert(all.take(i + 1)[i as int] == albums@[i as int]@);
        }
        let a = &albums[i];
        let full = a.tracks > 3 && !has_suffix(&a.name, "- Single");
        assert(full == is_full_album(a@));
        if full || !full_only {
            match best {
                Some(b) => {
                    assert(all.take(i + 1)[b as int] == albums@[b as int]@);
                    if is_before(&albums[b].date, &a.date) {
                        best = Some(i);
                    }
                },
                None => {
                    best = Some(i);
                },
            }
        }
        i += 1;
    }
    assert(all.take(i as int) =~= all);
    best
}

/// The title of an artist's newest album, from a reply: full albums come before singles.
pub fn artist_latest_album_reply(body: &Json) -> (r: Option<String>)
    ensures
        chars::opt_text(r) == newest_title(reply_albums(body@)),
{
    let albums = read_albums(body);
    match find_newest(&albums, true) {
        Some(i) => Some(albums[i].name.clone()),
        None => match find_newest(&albums, false) {
            Some(i) => Some(albums[i].name.clone()),
            None => None,
        },
    }
}

// ---- Requests ----

pub ghost struct RequestView {
    pub url: Seq<char>,
    pub bearer: Seq<char>,
    pub user_token: Option<Seq<char>>,
}

/// The views of a request, or of why there is none.
pub open spec fn request_view(r: Result<AppleRequest, String>) -> Result<RequestView, Seq<char>> {
    match r {
        Ok(q) => Ok(
            RequestView {
                url: q.url@,
                bearer: q.bearer@,
                user_token: chars::opt_text(q.user_token),
            },
        ),
        Err(e) => Err(e@),
    }
}

/// A catalog request to a URL that was built, or not.
pub open spec fn catalog_request(c: AppleMusicClient, url: Result<Seq<char>, Seq<char>>) -> Result<
    RequestView,
    Seq<char>,
> {
    match url {
        Ok(url) => Ok(RequestView { url, bearer: c.developer_token@, user_token: None }),
        Err(e) => Err("apple catalog url build failed: "@ + e),
    }
}

/// A request about the user's library to a URL that was built, or not.
pub open spec fn me_request(c: AppleMusicClient, url: Result<Seq<char>, Seq<char>>) -> Result<
    RequestView,
    Seq<char>,
> {
    match c.user_token {
        None => Err(NO_USER_TOKEN@),
        Some(token) => match url {
            Ok(url) => Ok(
                RequestView { url, bearer: c.developer_token@, user_token: Some(token@) },
            ),
            Err(e) => Err("apple me url build failed: "@ + e),
        },
    }
}

/// The request for a path of the catalog of the storefront.
pub open spec fn catalog_get(
    c: AppleMusicClient,
    path: Seq<char>,
    query: Seq<(Seq<char>, Seq<char>)>,
) -> Result<RequestView, Seq<char>> {
    catalog_request(c, weburl::query_url(CATALOG_BASE@ + "/"@ + c.storefront@ + path, query))
}

/// The request for a path of the user's library.
pub open spec fn me_get(
    c: AppleMusicClient,
    path: Seq<char>,
    query: Seq<(Seq<char>, Seq<char>)>,
) -> Result<RequestView, Seq<char>> {
    me_request(c, weburl::query_url(ME_BASE@ + path, query))
}

/// A limit, brought between 1 and `most`, as text.
pub open spec fn limit_text(limit: u32, most: u32) -> Seq<char> {
    number::nat_text(
        if limit < 1 {
            1
        } else if limit > most {
            most as nat
        } else {
            limit as nat
        },
    )
}

fn clamped(limit: u32, most: u32) -> (r: String)
    ensures
        r@ == limit_text(limit, most),
{
    if limit < 1 {
        u64_text(1)
    } else if limit > most {
        u64_text(most as u64)
    } else {
        u64_text(limit as u64)
    }
}

impl AppleMusicClient {
    pub fn new(developer_token: String, storefront: String) -> (r: Self)
        ensures
            r == (AppleMusicClient { developer_token, storefront, user_token: None }),
    {
        AppleMusicClient { developer_token, storefront, user_token: None }
    }

    /// The client with a Music User Token, unless that is empty.
    pub fn with_user_token(self, user_token: Option<String>) -> (r: Self)
        ensures
            r == (AppleMusicClient {
                user_token: match user_token {
                    Some(t) if t@.len() > 0 => Some(t),
                    _ => None,
                },
                ..self
            }),
    {
        let user_token = match user_token {
            Some(t) => if t.as_str().is_empty() {
                None
            } else {
                Some(t)
            },
            None => None,
        };
        AppleMusicClient { user_token, ..self }
    }

    /// Whether there is a Music User Token, so that the user's library can be asked for.
    pub fn has_user_token(&self) -> (r: bool)
        ensures
            r == (self.user_token is Some),
    {
        self.user_token.is_some()
    }

    /// A catalog request to a URL that was built, or not.
    pub fn get(&self, url: Result<String, String>) -> (r: Result<AppleRequest, String>)
        ensures
            request_view(r) == catalog_request(*self, weburl::text_result(url)),
    {
        match url {
            Ok(url) => Ok(
                AppleRequest { url, bearer: self.developer_token.clone(), user_token: None },
            ),
            Err(e) => Err(text2("apple catalog url build failed: ", &e)),
        }
    }

    /// A request about the user's library to a URL that was built, or not.
    pub fn get_me(&self, url: Result<String, String>) -> (r: Result<AppleRequest, String>)
        ensures
            request_view(r) == me_request(*self, weburl::text_result(url)),
    {
        match &self.user_token {
            None => Err(String::from_str(NO_USER_TOKEN)),
            Some(token) => match url {
                Ok(url) => Ok(
                    AppleRequest {
                        url,
                        bearer: self.developer_token.clone(),
                        user_token: Some(token.clone()),
                    },
                ),
                Err(e) => Err(text2("apple me url build failed: ", &e)),
            },
        }
    }

    fn catalog(&self, path: &str, query: Vec<(String, String)>) -> (r: Result<AppleRequest, String>)
        ensures
            request_view(r) == catalog_get(*self, path@, weburl::pair_views(query@)),
    {
        let url = text4(CATALOG_BASE, "/", &self.storefront, path);
        self.get(with_query(&url, &query))
    }

    fn me(&self, path: &str, query: Vec<(String, String)>) -> (r: Result<AppleRequest, String>)
        ensures
            request_view(r) == me_get(*self, path@, weburl::pair_views(query@)),
    {
        let url = text2(ME_BASE, path);
        self.get_me(with_query(&url, &query))
    }

    /// Asks for the user's library playlists.
    pub fn library_playlists(&self, limit: u32) -> (r: Result<AppleRequest, String>)
        ensures
            request_view(r) == me_get(
                *self,
                "/library/playlists"@,
                seq![("limit"@, limit_text(limit, 100))],
            ),
    {
        self.me("/library/playlists", one_param("limit", &clamped(limit, 100)))
    }

    /// Asks for the user's library songs.
    pub fn library_songs(&self, limit: u32) -> (r: Result<AppleRequest, String>)
        ensures
            request_view(r) == me_get(
                *self,
                "/library/songs"@,
                seq![("limit"@, limit_text(limit, 100))],
            ),
    {
        self.me("/library/songs", one_param("limit", &clamped(limit, 100)))
    }

    /// Asks for the tracks of one of the user's library playlists.
    pub fn library_playlist_tracks(&self, playlist_id: &str, limit: u32) -> (r: Result<
        AppleRequest,
        String,
    >)
        ensures
            request_view(r) == me_get(
                *self,
                "/library/playlists/"@ + playlist_id@ + "/tracks"@,
                seq![("limit"@, limit_text(limit, 100))],
            ),
    {
        let path = text3("/library/playlists/", playlist_id, "/tracks");
        self.me(&path, one_param("limit", &clamped(limit, 100)))
    }

    /// Looks up a song by its catalog id. See [`song_reply`].
    pub fn song(&self, id: &str) -> (r: Result<AppleRequest, String>)
        ensures
            request_view(r) == catalog_get(*self, "/songs/"@ + id@, Seq::empty()),
    {
        let none: Vec<(String, String)> = Vec::new();
        assert(weburl::pair_views(none@) =~= Seq::empty());
        let path = text2("/songs/", id);
        self.catalog(&path, none)
    }

    /// Searches for the top song. See [`search_top_reply`].
    pub fn search_top_song(&self, term: &str) -> (r: Result<AppleRequest, String>)
        ensures
            request_view(r) == catalog_get(
                *self,
                "/search"@,
                seq![("term"@, term@), ("types"@, "songs"@), ("limit"@, number::nat_text(1))],
            ),
    {
        self.search_songs(term, 1)
    }

    /// Searches for songs; the catalog gives 25 at most. See [`search_reply`].
    pub fn search_songs(&self, term: &str, limit: u32) -> (r: Result<AppleRequest, String>)
        ensures
            request_view(r) == catalog_get(
                *self,
                "/search"@,
                seq![("term"@, term@), ("types"@, "songs"@), ("limit"@, limit_text(limit, 25))],
            ),
    {
        let query = three_params("term", term, "types", "songs", "limit", &clamped(limit, 25));
        self.catalog("/search", query)
    }

    /// Asks for the top songs of the storefront. See [`chart_reply`].
    pub fn chart_songs(&self, limit: u32) -> (r: Result<AppleRequest, String>)
        ensures
            request_view(r) == catalog_get(
                *self,
                "/charts"@,
                seq![("types"@, "songs"@), ("limit"@, number::nat_text(limit as nat))],
            ),
    {
        self.catalog("/charts", two_params("types", "songs", "limit", &u64_text(limit as u64)))
    }

    /// Asks for the top songs of a genre. See [`chart_reply`].
    pub fn genre_chart_songs(&self, genre_id: &str, limit: u32) -> (r: Result<AppleRequest, String>)
        ensures
            request_view(r) == catalog_get(
                *self,
                "/charts"@,
                seq![
                    ("types"@, "songs"@),
                    ("genre"@, genre_id@),
                    ("limit"@, limit_text(limit, 25)),
                ],
            ),
    {
        let query = three_params(
            "types",
            "songs",
            "genre",
            genre_id,
            "limit",
            &clamped(limit, 25),
        );
        self.catalog("/charts", query)
    }

    /// Searches for the top entity of a kind. See [`search_entity_reply`].
    pub fn search_entity(&self, kind: EntityKind, term: &str) -> (r: Result<AppleRequest, String>)
        ensures
            request_view(r) == catalog_get(
                *self,
                "/search"@,
                seq![("term"@, term@), ("types"@, kind_text(kind)), ("limit"@, "1"@)],
            ),
    {
        self.catalog("/search", three_params("term", term, "types", kind.as_str(), "limit", "1"))
    }

    /// Asks for an artist's albums. See [`artist_latest_album_reply`].
    pub fn artist_latest_album(&self, artist_id: &str) -> (r: Result<AppleRequest, String>)
        ensures
            request_view(r) == catalog_get(
                *self,
                "/artists/"@ + artist_id@ + "/albums"@,
                seq![("limit"@, "25"@)],
            ),
    {
        let path = text3("/artists/", artist_id, "/albums");
        self.catalog(&path, one_param("limit", "25"))
    }

    /// Asks for an artist's top songs. See [`songs_into`].
    pub fn artist_top_songs(&self, artist_id: &str, limit: u32) -> (r: Result<AppleRequest, String>)
        ensures
            request_view(r) == catalog_get(
                *self,
                "/artists/"@ + artist_id@ + "/view/top-songs"@,
                seq![("limit"@, number::nat_text(limit as nat))],
            ),
    {
        let path = text3("/artists/", artist_id, "/view/top-songs");
        self.catalog(&path, one_param("limit", &u64_text(limit as u64)))
    }

    /// Asks for an album's tracks. See [`songs_into`].
    pub fn album_tracks(&self, album_id: &str, limit: u32) -> (r: Result<AppleRequest, String>)
        ensures
            request_view(r) == catalog_get(
                *self,
                "/albums/"@ + album_id@ + "/tracks"@,
                seq![("limit"@, number::nat_text(limit as nat))],
            ),
    {
        let path = text3("/albums/", album_id, "/tracks");
        self.catalog(&path, one_param("limit", &u64_text(limit as u64)))
    }

    /// Asks for a playlist's tracks. See [`songs_into`].
    pub fn playlist_tracks(&self, playlist_id: &str, limit: u32) -> (r: Result<
        AppleRequest,
        String,
    >)
        ensures
            request_view(r) == catalog_get(
                *self,
                "/playlists/"@ + playlist_id@ + "/tracks"@,
                seq![("limit"@, number::nat_text(limit as nat))],
            ),
    {
        let path = text3("/playlists/", playlist_id, "/tracks");
        self.catalog(&path, one_param("limit", &u64_text(limit as u64)))
    }
}

// ---- Laws ----

/// A song of the catalog is told by its own attributes, and only by its id where it has none.
pub proof fn law_catalog_song_tells_its_attributes(s: SongResource)
    ensures
        catalog_song(s).id == s.id@,
        s.attributes matches Some(a) ==> {
            &&& catalog_song(s).name == a.name@
            &&& catalog_song(s).artist == a.artist_name@
            &&& catalog_song(s).album == a.album_name@
            &&& catalog_song(s).duration_ms == a.duration_in_millis
            &&& catalog_song(s).artwork_url == chars::opt_text(a.artwork_url)
        },
        s.attributes is None ==> catalog_song(s).name.len() == 0 && catalog_song(s).artist.len() == 0
            && catalog_song(s).album.len() == 0 && catalog_song(s).duration_ms == 0,
{
}

/// Every song that is found is told, in order.
pub proof fn law_every_song_is_told(data: Seq<SongResource>)
    ensures
        catalog_songs(data).len() == data.len(),
        forall|i: int|
            0 <= i < data.len() ==> (#[trigger] catalog_songs(data)[i]).id == data[i].id@,
{
}

/// A song of the user's library goes by its id in the catalog if it has one, so that it can be
/// played, and else by its own; one without attributes is left out.
pub proof fn law_library_song_prefers_the_catalog(s: LibrarySong)
    ensures
        library_song(s) is Some <==> s.attributes is Some,
        s.attributes matches Some(a) ==> {
            &&& a.catalog_id matches Some(id) ==> library_song(s)->0.id == id@
            &&& a.catalog_id is None ==> library_song(s)->0.id == s.id@
            &&& library_song(s)->0.name == a.name@
            &&& a.artist_name matches Some(n) ==> library_song(s)->0.artist == n@
            &&& a.artist_name is None ==> library_song(s)->0.artist.len() == 0
            &&& a.album_name matches Some(n) ==> library_song(s)->0.album == n@
            &&& a.album_name is None ==> library_song(s)->0.album.len() == 0
            &&& a.duration_ms matches Some(n) ==> library_song(s)->0.duration_ms == n
            &&& a.duration_ms is None ==> library_song(s)->0.duration_ms == 0
        },
{
}

/// The songs of the library come in order, and only those without attributes are left out.
pub proof fn law_library_keeps_its_songs(data: Seq<LibrarySong>, last: LibrarySong)
    ensures
        library_song_views(Seq::empty()).len() == 0,
        last.attributes is None ==> library_song_views(data.push(last)) == library_song_views(data),
        last.attributes matches Some(a) ==> {
            &&& library_song_views(data.push(last)).drop_last() == library_song_views(data)
            &&& library_song_views(data.push(last)).last().name == a.name@
        },
{
    assert(data.push(last).drop_last() =~= data);
    if last.attributes is Some {
        assert(library_song_views(data.push(last)).drop_last() =~= library_song_views(data));
    }
}

/// The kinds of entities go by the names that the catalog has for them.
pub proof fn law_kinds_have_names()
    ensures
        kind_text(EntityKind::Artists) == "artists"@,
        kind_text(EntityKind::Albums) == "albums"@,
        kind_text(EntityKind::Playlists) == "playlists"@,
{
}

/// An entity is told by its id, and its name and number of tracks as its attributes say; without an
/// id it is none.
pub proof fn law_entity_tells_its_attributes(v: json::JsonView)
    ensures
        entity_of(v) is Some <==> json::string_member(v, "id"@) is Some,
        entity_of(v) matches Some(e) ==> {
            &&& json::string_member(v, "id"@) == Some(e.0)
            &&& json::string_at(v, seq!["attributes"@, "name"@]) matches Some(n) ==> e.1 == n
            &&& json::string_at(v, seq!["attributes"@, "name"@]) is None ==> e.1.len() == 0
            &&& json::u64_at(v, seq!["attributes"@, "trackCount"@]) is None <==> e.2 is None
            &&& json::u64_at(v, seq!["attributes"@, "trackCount"@]) matches Some(n) ==> n <= u32::MAX
                ==> e.2 == Some(n as u32)
        },
{
}

/// An album counts by its title, its date and its number of tracks, as its attributes say.
pub proof fn law_album_tells_its_attributes(v: json::JsonView)
    ensures
        album_of(v) is Some <==> json::string_at(v, seq!["attributes"@, "name"@]) is Some,
        album_of(v) matches Some(a) ==> {
            &&& json::string_at(v, seq!["attributes"@, "name"@]) == Some(a.name)
            &&& json::string_at(v, seq!["attributes"@, "releaseDate"@]) matches Some(d) ==> a.date == d
            &&& json::string_at(v, seq!["attributes"@, "releaseDate"@]) is None ==> a.date.len() == 0
            &&& json::u64_at(v, seq!["attributes"@, "trackCount"@]) matches Some(n) ==> a.tracks == n
            &&& json::u64_at(v, seq!["attributes"@, "trackCount"@]) is None ==> a.tracks == 0
        },
{
}

/// The newest album of an artist is the title of a full album if there is any, and none of those
/// came out later. Only without a full album does a single or an EP count.
pub proof fn law_newest_title_prefers_full_albums(albums: Seq<AlbumView>, k: int)
    requires
        0 <= k < albums.len(),
        albums[k].tracks > 3,
        !chars::ends_with(albums[k].name, "- Single"@),
    ensures
        newest_title(albums) is Some,
        exists|i: int|
            0 <= i < albums.len() && (#[trigger] albums[i]).tracks > 3 && !chars::ends_with(
                albums[i].name,
                "- Single"@,
            ) && newest_title(albums) == Some(albums[i].name) && !chars::text_less(
                albums[i].date,
                albums[k].date,
            ),
{
    law_newest_is_newest(albums, true);
    assert(is_full_album(albums[k]));
    let i = newest(albums, true)->0;
    assert(is_full_album(albums[i]));
    assert(!chars::text_less(albums[i].date, albums[k].date));
    assert(newest_title(albums) == Some(albums[i].name));
}

/// Where there is any album at all, one of them is the newest, and none without.
pub proof fn law_there_is_a_newest_title(albums: Seq<AlbumView>)
    ensures
        newest_title(albums) is Some <==> albums.len() > 0,
        newest_title(albums) matches Some(t) ==> exists|i: int|
            0 <= i < albums.len() && (#[trigger] albums[i]).name == t,
{
    law_newest_is_newest(albums, true);
    law_newest_is_newest(albums, false);
    if albums.len() > 0 {
        if newest(albums, false) is None {
            assert(is_full_album(albums[0]) || !is_full_album(albums[0]));
        }
        match newest(albums, true) {
            Some(i) => {
                assert(albums[i].name == newest_title(albums)->0);
            },
            None => {
                let i = newest(albums, false)->0;
                assert(albums[i].name == newest_title(albums)->0);
            },
        }
    }
}

/// A request to the catalog carries the developer's token alone, and one for the user's library
/// the user's as well; without a user's token there is no such request.
pub proof fn law_requests_carry_their_tokens(
    c: AppleMusicClient,
    path: Seq<char>,
    query: Seq<(Seq<char>, Seq<char>)>,
)
    ensures
        catalog_get(c, path, query) matches Ok(q) ==> q.bearer == c.developer_token@ && q.user_token is None
            && weburl::query_url(
            "https://api.music.apple.com/v1/catalog"@ + "/"@ + c.storefront@ + path,
            query,
        ) == Ok::<Seq<char>, Seq<char>>(q.url),
        c.user_token is None ==> me_get(c, path, query) == Err::<RequestView, Seq<char>>(
            "apple: no Music-User-Token configured"@,
        ),
        me_get(c, path, query) matches Ok(q) ==> q.bearer == c.developer_token@ && c.user_token is Some
            && q.user_token == Some(c.user_token->0@) && weburl::query_url(
            "https://api.music.apple.com/v1/me"@ + path,
            query,
        ) == Ok::<Seq<char>, Seq<char>>(q.url),
        c.user_token is Some && weburl::query_url(ME_BASE@ + path, query) is Ok ==> me_get(
            c,
            path,
            query,
        ) is Ok,
{
}

/// As many are asked for as are wanted, but one at least and no more than may be.
pub proof fn law_limit_is_kept_in_bounds(limit: u32, most: u32)
    requires
        most >= 1,
    ensures
        1 <= limit <= most ==> limit_text(limit, most) == number::nat_text(limit as nat),
        limit == 0 ==> limit_text(limit, most) == number::nat_text(1),
        limit > most ==> limit_text(limit, most) == number::nat_text(most as nat),
{
}

/// The song of a reply is the first in it, and a reply without one names the id that was not found.
pub proof fn law_first_song_is_the_reply(
    id: &str,
    data: Vec<SongResource>,
    song: Result<AppleSong, String>,
    top: Option<AppleSong>,
)
    requires
        call_ensures(song_reply, (id, data), song),
        call_ensures(search_top_reply, (Some(data),), top),
    ensures
        data@.len() > 0 ==> song is Ok && song->Ok_0@ == catalog_song(data@[0]),
        data@.len() > 0 ==> top is Some && top->0@ == catalog_song(data@[0]),
        data@.len() == 0 ==> top is None && (song matches Err(e) && e@ == "apple catalog: song "@ + id@
            + " not found"@),
{
}

/// Of the charts the first is told; without one nothing is.
pub proof fn law_first_chart_is_told(charts: Vec<Vec<SongResource>>, r: Vec<AppleSong>)
    requires
        call_ensures(chart_reply, (charts,), r),
    ensures
        charts@.len() > 0 ==> song_views(r@) == catalog_songs(charts@[0]@),
        charts@.len() == 0 ==> r@.len() == 0,
{
    assert(song_views(r@).len() == r@.len());
}

/// Every playlist of the library is told, in order, with its id and its name, and with no number of
/// tracks, which the library does not tell.
pub proof fn law_library_playlists_are_told(
    data: Vec<LibraryPlaylist>,
    r: Vec<AppleEntity>,
    i: int,
)
    requires
        call_ensures(library_playlists_into, (data,), r),
        0 <= i < data@.len(),
    ensures
        r@.len() == data@.len(),
        r@[i].id == data@[i].id,
        data@[i].name matches Some(n) ==> r@[i].name@ == n@,
        data@[i].name is None ==> r@[i].name@.len() == 0,
        r@[i].track_count is None,
{
    assert(r@[i].id == data@[i].id);
}

/// A client keeps what it is made with, and takes a user's token only if it is not empty.
pub proof fn law_client_keeps_its_parts(
    developer: String,
    storefront: String,
    user: Option<String>,
    c: AppleMusicClient,
    d: AppleMusicClient,
    own: bool,
)
    requires
        call_ensures(AppleMusicClient::new, (developer, storefront), c),
        call_ensures(AppleMusicClient::with_user_token, (c, user), d),
        call_ensures(AppleMusicClient::has_user_token, (&d,), own),
    ensures
        c.developer_token == developer && c.storefront == storefront && c.user_token is None,
        d.developer_token == developer && d.storefront == storefront,
        own <==> (user matches Some(t) && t@.len() > 0),
        own ==> d.user_token == user,
{
}

/// Each request goes to the place of what it asks for.
pub proof fn law_requests_go_to_their_places(
    c: AppleMusicClient,
    t: &str,
    limit: u32,
    song: Result<AppleRequest, String>,
    top: Result<AppleRequest, String>,
    songs: Result<AppleRequest, String>,
    charts: Result<AppleRequest, String>,
    genre: Result<AppleRequest, String>,
)
    requires
        call_ensures(AppleMusicClient::song, (&c, t), song),
        call_ensures(AppleMusicClient::search_top_song, (&c, t), top),
        call_ensures(AppleMusicClient::search_songs, (&c, t, limit), songs),
        call_ensures(AppleMusicClient::chart_songs, (&c, limit), charts),
        call_ensures(AppleMusicClient::genre_chart_songs, (&c, t, limit), genre),
    ensures
        request_view(song) == catalog_get(c, "/songs/"@ + t@, Seq::empty()),
        limit <= 1 ==> request_view(songs) == request_view(top),
        1 <= limit <= 25 ==> request_view(songs) == catalog_get(
            c,
            "/search"@,
            seq![("term"@, t@), ("types"@, "songs"@), ("limit"@, number::nat_text(limit as nat))],
        ),
        request_view(charts) == catalog_get(
            c,
            "/charts"@,
            seq![("types"@, "songs"@), ("limit"@, number::nat_text(limit as nat))],
        ),
        1 <= limit <= 25 ==> request_view(genre) == catalog_get(
            c,
            "/charts"@,
            seq![
                ("types"@, "songs"@),
                ("genre"@, t@),
                ("limit"@, number::nat_text(limit as nat)),
            ],
        ),
{
}

/// What is seen of a song, an entity and a request are their own fields.
pub proof fn law_views_tell_the_fields(s: AppleSong, e: AppleEntity, q: AppleRequest)
    ensures
        s@.id == s.id@,
        s@.name == s.name@,
        s@.artist == s.artist@,
        s@.album == s.album@,
        s@.duration_ms == s.duration_ms,
        s@.artwork_url == chars::opt_text(s.artwork_url),
        entity_view(e) == (e.id@, e.name@, e.track_count),
        request_view(Ok(q)) == Ok::<RequestView, Seq<char>>(
            RequestView {
                url: q.url@,
                bearer: q.bearer@,
                user_token: chars::opt_text(q.user_token),
            },
        ),
{
}

/// The entity of a reply is the first of its kind, and there is none where the reply has none.
pub proof fn law_first_entity_is_the_reply(body: json::JsonView, kind: EntityKind)
    ensures
        json::path_into(body, seq!["results"@, kind_text(kind), "data"@, "0"@]) matches Some(v)
            ==> first_entity(body, kind) == entity_of(v),
        json::path_into(body, seq!["results"@, kind_text(kind), "data"@, "0"@]) is None
            ==> first_entity(body, kind) is None,
{
}

/// Every album of a reply that has a name counts, in order.
pub proof fn law_named_albums_count(items: Seq<json::JsonView>, v: json::JsonView)
    ensures
        albums_of(Seq::empty()).len() == 0,
        album_of(v) matches Some(a) ==> albums_of(items.push(v)) == albums_of(items).push(a),
        album_of(v) is None ==> albums_of(items.push(v)) == albums_of(items),
{
    assert(items.push(v).drop_last() =~= items);
}

/// The albums of a reply are those of its data.
pub proof fn law_albums_are_in_the_data(body: json::JsonView, items: Seq<json::JsonView>)
    ensures
        json::member(body, "data"@) == Some(json::JsonView::Array(items)) ==> reply_albums(body)
            == albums_of(items),
        json::member(body, "data"@) is None ==> reply_albums(body).len() == 0,
{
}

/// An address that cannot be built is told with the reason, and so is whose request it was.
pub proof fn law_unbuilt_address_is_an_error(c: AppleMusicClient, e: Seq<char>)
    ensures
        catalog_request(c, Err(e)) == Err::<RequestView, Seq<char>>(
            "apple catalog url build failed: "@ + e,
        ),
        c.user_token is Some ==> me_request(c, Err(e)) == Err::<RequestView, Seq<char>>(
            "apple me url build failed: "@ + e,
        ),
{
}

} // verus!
