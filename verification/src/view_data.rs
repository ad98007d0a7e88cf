//! Library and home views derived from the cached song list.
use vstd::prelude::*;
use rand::rngs::StdRng;
use rand::seq::SliceRandom;
use crate::models::{
    Album,
    AlbumV,
    Artist,
    ArtistV,
    Duplicate,
    HomeViewData,
    LibraryData,
    MobileHomeData,
    Song,
    SongV,
    album_views,
    artist_views,
    duplicate_songs,
    song_views,
};
use crate::order::{keyed_views, lemma_sort_desc_sorted, sort_desc, sort_desc_by_key};
use crate::table::Table;
use crate::text::{compare_str, opt_chars, owned, seq_le, views};
use crate::convergence::lemma_push_contains;
use vstd::string::*;

verus! {

/// The random number generator the home view is shuffled with.
#[verifier::external_type_specification]
#[verifier::external_body]
pub struct ExStdRng(StdRng);

/// Limits used when deriving home sections from a song list.
#[derive(Clone, Copy, Debug, PartialEq, Eq)]
pub struct HomeViewLimits {
    pub featured_albums: u32,
    pub random_albums: u32,
    pub recently_added_albums: u32,
}

impl Default for HomeViewLimits {
    fn default() -> (r: HomeViewLimits)
        ensures
            r == (HomeViewLimits { featured_albums: 20, random_albums: 20, recently_added_albums: 20 }),
    {
        HomeViewLimits { featured_albums: 20, random_albums: 20, recently_added_albums: 20 }
    }
}

/// Limits used when deriving mobile home sections from a song list.
#[derive(Clone, Copy, Debug, PartialEq, Eq)]
pub struct MobileHomeViewLimits {
    pub most_played: u32,
    pub recently_played: u32,
    pub album_section: u32,
    pub featured_albums: u32,
}

impl Default for MobileHomeViewLimits {
    fn default() -> (r: MobileHomeViewLimits)
        ensures
            r == (MobileHomeViewLimits {
                most_played: 10,
                recently_played: 10,
                album_section: 12,
                featured_albums: 5,
            }),
    {
        MobileHomeViewLimits { most_played: 10, recently_played: 10, album_section: 12, featured_albums: 5 }
    }
}

/// A requested limit as a count: negative requests count as 0, and the
/// count keeps the low 32 bits of the request (as `as u32` does).
pub open spec fn requested_limit(x: i64) -> u32 {
    (if x < 0 { 0 } else { x as int }) as u32
}

fn limit_of(x: i64) -> (r: u32)
    ensures
        r == requested_limit(x),
{
    let clamped: i64 = if x < 0 { 0 } else { x };
    clamped as u32
}

impl MobileHomeViewLimits {
    /// The limits for requested section sizes.
    pub fn from_requested(
        most_played: i64,
        recently_played: i64,
        album_section: i64,
        featured_albums: i64,
    ) -> (r: MobileHomeViewLimits)
        ensures
            r == (MobileHomeViewLimits {
                most_played: requested_limit(most_played),
                recently_played: requested_limit(recently_played),
                album_section: requested_limit(album_section),
                featured_albums: requested_limit(featured_albums),
            }),
    {
        MobileHomeViewLimits {
            most_played: limit_of(most_played),
            recently_played: limit_of(recently_played),
            album_section: limit_of(album_section),
            featured_albums: limit_of(featured_albums),
        }
    }
}

// ---------------------------------------------------------------------------
// Albums of a song list.
// ---------------------------------------------------------------------------

/// The song is on album `id`.
pub open spec fn on_album(x: SongV, id: Seq<char>) -> bool {
    x.album_id matches Some(a) && a@ == id
}

/// The songs of `s` on album `id`, in order.
pub open spec fn songs_on_album(s: Seq<SongV>, id: Seq<char>) -> Seq<SongV>
    decreases s.len(),
{
    if s.len() == 0 {
        seq![]
    } else {
        let r = songs_on_album(s.drop_last(), id);
        if on_album(s.last(), id) {
            r.push(s.last())
        } else {
            r
        }
    }
}

/// The distinct album ids of `s`, in order of first appearance.
pub open spec fn album_ids(s: Seq<SongV>) -> Seq<Seq<char>>
    decreases s.len(),
{
    if s.len() == 0 {
        seq![]
    } else {
        let r = album_ids(s.drop_last());
        match s.last().album_id {
            Some(a) => if r.contains(a@) {
                r
            } else {
                r.push(a@)
            },
            None => r,
        }
    }
}

/// An album id of a song list has at least one song.
pub proof fn lemma_album_ids_have_songs(s: Seq<SongV>, id: Seq<char>)
    requires
        album_ids(s).contains(id),
    ensures
        songs_on_album(s, id).len() > 0,
    decreases s.len(),
{
    let d = s.drop_last();
    let r = album_ids(d);
    match s.last().album_id {
        Some(a) => {
            if a@ == id {
            } else {
                if !r.contains(a@) {
                    lemma_push_contains(r, a@, id);
                }
                lemma_album_ids_have_songs(d, id);
            }
        },
        None => {
            lemma_album_ids_have_songs(d, id);
        },
    }
}

/// The distinct album ids of the songs, in order of first appearance.
fn distinct_album_ids(songs: &[Song]) -> (r: Vec<String>)
    ensures
        views(r@) == album_ids(song_views(songs@)),
{
    let ghost sv = song_views(songs@);
    let mut seen: Table<()> = Table::new();
    let mut r: Vec<String> = Vec::new();
    let mut i: usize = 0;
    while i < songs.len()
        invariant
            i <= songs@.len(),
            sv == song_views(songs@),
            seen.wf(),
            views(r@) == album_ids(sv.take(i as int)),
            forall|k: Seq<char>| #[trigger] seen@.contains_key(k) == views(r@).contains(k),
        decreases songs@.len() - i,
    {
        proof {
            assert(sv.take(i + 1).drop_last() =~= sv.take(i as int));
            assert(sv.take(i + 1).last() == songs@[i as int]@);
        }
        match &songs[i].album_id {
            Some(a) => {
                if !seen.contains_key(a.as_str()) {
                    let ghost before = views(r@);
                    seen.insert(a.clone(), ());
                    r.push(a.clone());
                    proof {
                        assert(views(r@) =~= before.push(a@));
                        assert forall|k: Seq<char>| #[trigger] seen@.contains_key(k) == views(r@).contains(k) by {
                            lemma_push_contains(before, a@, k);
                        }
                    }
                }
            },
            None => {},
        }
        i = i + 1;
    }
    assert(sv.take(songs@.len() as int) =~= sv);
    r
}

/// The key `max_by_key` orders an album's songs by: the creation date, or
/// the empty string.
pub open spec fn created_key(x: SongV) -> Seq<char> {
    match x.date_created {
        Some(d) => d@,
        None => seq![],
    }
}

/// The song `max_by_key` picks from `ss`: the last of those with the
/// greatest creation key.
pub open spec fn latest_song(ss: Seq<SongV>) -> SongV
    decreases ss.len(),
{
    if ss.len() <= 1 {
        ss[0]
    } else {
        let m = latest_song(ss.drop_last());
        if seq_le(created_key(m), created_key(ss.last())) {
            ss.last()
        } else {
            m
        }
    }
}

/// How an album's songs are found in the song list: their count, the first
/// of them and the latest created (by position).
struct AlbumScan {
    count: usize,
    first: usize,
    latest: usize,
}

fn created_key_of(s: &Song) -> (k: &str)
    ensures
        k@ == created_key(s@),
{
    match &s.date_created {
        Some(d) => d.as_str(),
        None => {
            proof {
                reveal_strlit("");
            }
            ""
        },
    }
}

/// Scans the songs of album `id`.
fn scan_album(songs: &[Song], id: &str) -> (r: AlbumScan)
    requires
        songs_on_album(song_views(songs@), id@).len() > 0,
    ensures
        r.count == songs_on_album(song_views(songs@), id@).len(),
        r.first < songs@.len(),
        songs@[r.first as int]@ == songs_on_album(song_views(songs@), id@)[0],
        r.latest < songs@.len(),
        songs@[r.latest as int]@ == latest_song(songs_on_album(song_views(songs@), id@)),
{
    let ghost sv = song_views(songs@);
    let mut count: usize = 0;
    let mut first: usize = 0;
    let mut latest: usize = 0;
    let mut i: usize = 0;
    while i < songs.len()
        invariant
            i <= songs@.len(),
            sv == song_views(songs@),
            count == songs_on_album(sv.take(i as int), id@).len(),
            count <= i,
            count > 0 ==> first < i && sv[first as int] == songs_on_album(sv.take(i as int), id@)[0],
            count > 0 ==> latest < i && sv[latest as int] == latest_song(
                songs_on_album(sv.take(i as int), id@),
            ),
        decreases songs@.len() - i,
    {
        let ghost prev = songs_on_album(sv.take(i as int), id@);
        proof {
            assert(sv.take(i + 1).drop_last() =~= sv.take(i as int));
            assert(sv.take(i + 1).last() == songs@[i as int]@);
        }
        let song = &songs[i];
        let matches = match &song.album_id {
            Some(a) => compare_str(a.as_str(), id) == 0,
            None => false,
        };
        if matches {
            let ghost cur = prev.push(song@);
            proof {
                assert(cur.drop_last() =~= prev);
                assert(cur.last() == song@);
            }
            if count == 0 {
                first = i;
                latest = i;
                assert(cur.len() == 1);
            } else {
                let c = compare_str(created_key_of(&songs[latest]), created_key_of(song));
                if c <= 0 {
                    latest = i;
                }
                assert(cur[0] == prev[0]);
            }
            count = count + 1;
        }
        i = i + 1;
    }
    assert(sv.take(songs@.len() as int) =~= sv);
    AlbumScan { count, first, latest }
}

/// The first entry of an optional list of strings, seen by view.
pub open spec fn first_of(o: Option<Seq<String>>) -> Option<Seq<char>> {
    match o {
        Some(v) => if v.len() > 0 {
            Some(v[0]@)
        } else {
            None
        },
        None => None,
    }
}

fn first_string(o: &Option<Vec<String>>) -> (r: Option<String>)
    ensures
        opt_chars(r) == first_of(match *o {
            Some(v) => Some(v@),
            None => None,
        }),
{
    match o {
        Some(v) => if v.len() > 0 {
            Some(v[0].clone())
        } else {
            None
        },
        None => None,
    }
}

// ---------------------------------------------------------------------------
// Library data.
// ---------------------------------------------------------------------------

/// `derive_library_data` keeps an album when the latest of its songs has a
/// first artist name and a list of artist ids.
pub open spec fn library_album_kept(ss: Seq<SongV>) -> bool {
    let f = latest_song(ss);
    &&& first_of(f.artists) is Some
    &&& f.artist_ids is Some
}

/// The album ids of `ids` (in order) whose album is kept.
pub open spec fn kept_album_ids(s: Seq<SongV>, ids: Seq<Seq<char>>) -> Seq<Seq<char>>
    decreases ids.len(),
{
    if ids.len() == 0 {
        seq![]
    } else {
        let r = kept_album_ids(s, ids.drop_last());
        if library_album_kept(songs_on_album(s, ids.last())) {
            r.push(ids.last())
        } else {
            r
        }
    }
}

/// `a` is the library album of album `id` with songs `ss`: built from the
/// latest created of them.
pub open spec fn library_album(a: AlbumV, id: Seq<char>, ss: Seq<SongV>) -> bool {
    let f = latest_song(ss);
    &&& opt_chars(a.id) == Some(id)
    &&& a.name@ == (match f.album {
        Some(n) => n@,
        None => "Unknown Album"@,
    })
    &&& Some(a.artist@) == first_of(f.artists)
    &&& opt_chars(a.artist_id) == first_of(f.artist_ids)
    &&& a.album_art_url == f.album_art_url
    &&& a.song_count == ss.len() as i64
    &&& a.songs is None
    &&& a.image_tags is None
    &&& a.provider_ids is None
    &&& a.date_created == f.date_created
    &&& a.date_modified is None
}

/// The name of the artist at position `i` of a song, or "Unknown Artist".
pub open spec fn artist_name_at(x: SongV, i: int) -> Seq<char> {
    match x.artists {
        Some(names) => if 0 <= i < names.len() {
            names[i]@
        } else {
            "Unknown Artist"@
        },
        None => "Unknown Artist"@,
    }
}

/// The (artist id, name) entries of a song, in order.
pub open spec fn song_artist_entries(x: SongV) -> Seq<(Seq<char>, Seq<char>)> {
    match x.artist_ids {
        Some(ids) => Seq::new(ids.len(), |i: int| (ids[i]@, artist_name_at(x, i))),
        None => seq![],
    }
}

/// The (artist id, name) entries of the songs of `s`, in order.
pub open spec fn artist_entries(s: Seq<SongV>) -> Seq<(Seq<char>, Seq<char>)>
    decreases s.len(),
{
    if s.len() == 0 {
        seq![]
    } else {
        artist_entries(s.drop_last()) + song_artist_entries(s.last())
    }
}

/// Some entry of `e` has id `k`.
pub open spec fn has_entry(e: Seq<(Seq<char>, Seq<char>)>, k: Seq<char>) -> bool {
    exists|i: int| 0 <= i < e.len() && #[trigger] e[i].0 == k
}

/// The first entry of each id, in order.
pub open spec fn first_entries(e: Seq<(Seq<char>, Seq<char>)>) -> Seq<(Seq<char>, Seq<char>)>
    decreases e.len(),
{
    if e.len() == 0 {
        seq![]
    } else {
        let r = first_entries(e.drop_last());
        if has_entry(r, e.last().0) {
            r
        } else {
            r.push(e.last())
        }
    }
}

/// `a` is the artist built from entry `e`.
pub open spec fn library_artist(a: ArtistV, e: (Seq<char>, Seq<char>)) -> bool {
    &&& a.id@ == e.0
    &&& a.name@ == e.1
    &&& a.image_tags is None
    &&& a.image_url is None
    &&& a.overview is None
    &&& a.provider_ids is None
    &&& a.community_rating_bits is None
    &&& a.song_count is None
    &&& a.date_modified is None
    &&& a.songs is None
}

fn library_artists(songs: &[Song]) -> (r: Vec<Artist>)
    ensures
        ({
            let fe = first_entries(artist_entries(song_views(songs@)));
            &&& r@.len() == fe.len()
            &&& forall|i: int| 0 <= i < fe.len() ==> library_artist(#[trigger] r@[i]@, fe[i])
        }),
{
    let ghost sv = song_views(songs@);
    let mut seen: Table<()> = Table::new();
    let mut r: Vec<Artist> = Vec::new();
    let mut i: usize = 0;
    while i < songs.len()
        invariant
            i <= songs@.len(),
            sv == song_views(songs@),
            seen.wf(),
            ({
                let fe = first_entries(artist_entries(sv.take(i as int)));
                &&& r@.len() == fe.len()
                &&& forall|j: int| 0 <= j < fe.len() ==> library_artist(#[trigger] r@[j]@, fe[j])
                &&& forall|k: Seq<char>| #[trigger] seen@.contains_key(k) == has_entry(fe, k)
            }),
        decreases songs@.len() - i,
    {
        let song = &songs[i];
        let ghost base = artist_entries(sv.take(i as int));
        let ghost t = song_artist_entries(song@);
        proof {
            assert(sv.take(i + 1).drop_last() =~= sv.take(i as int));
            assert(sv.take(i + 1).last() == song@);
            assert(base + t.take(0) =~= base);
        }
        match &song.artist_ids {
            Some(ids) => {
                let mut j: usize = 0;
                while j < ids.len()
                    invariant
                        j <= ids@.len(),
                        song.artist_ids == Some(*ids),
                        t == song_artist_entries(song@),
                        t.len() == ids@.len(),
                        seen.wf(),
                        ({
                            let fe = first_entries(base + t.take(j as int));
                            &&& r@.len() == fe.len()
                            &&& forall|m: int| 0 <= m < fe.len() ==> library_artist(#[trigger] r@[m]@, fe[m])
                            &&& forall|k: Seq<char>| #[trigger] seen@.contains_key(k) == has_entry(fe, k)
                        }),
                    decreases ids@.len() - j,
                {
                    let ghost prev = base + t.take(j as int);
                    let ghost fe0 = first_entries(prev);
                    proof {
                        assert((base + t.take(j + 1)).drop_last() =~= prev);
                        assert((base + t.take(j + 1)).last() == t[j as int]);
                    }
                    let artist_id = &ids[j];
                    if !seen.contains_key(artist_id.as_str()) {
                        let name = match &song.artists {
                            Some(names) => if j < names.len() {
                                names[j].clone()
                            } else {
                                owned("Unknown Artist")
                            },
                            None => owned("Unknown Artist"),
                        };
                        seen.insert(artist_id.clone(), ());
                        r.push(
                            Artist {
                                name,
                                id: artist_id.clone(),
                                image_tags: None,
                                image_url: None,
                                overview: None,
                                provider_ids: None,
                                community_rating_bits: None,
                                song_count: None,
                                date_modified: None,
                                songs: None,
                            },
                        );
                        proof {
                            let fe1 = fe0.push(t[j as int]);
                            assert forall|k: Seq<char>| #[trigger] seen@.contains_key(k) == has_entry(fe1, k) by {
                                if has_entry(fe0, k) {
                                    let m = choose|m: int| 0 <= m < fe0.len() && #[trigger] fe0[m].0 == k;
                                    assert(fe1[m].0 == k);
                                }
                                if k == artist_id@ {
                                    assert(fe1[fe0.len() as int].0 == k);
                                }
                                if has_entry(fe1, k) {
                                    let m = choose|m: int| 0 <= m < fe1.len() && #[trigger] fe1[m].0 == k;
                                    if m < fe0.len() {
                                        assert(fe0[m].0 == k);
                                    }
                                }
                            }
                        }
                    }
                    j = j + 1;
                }
                proof {
                    assert(t.take(ids@.len() as int) =~= t);
                }
            },
            None => {
                assert(t =~= Seq::<(Seq<char>, Seq<char>)>::empty());
                assert(base + t =~= base);
            },
        }
        i = i + 1;
    }
    assert(sv.take(songs@.len() as int) =~= sv);
    r
}

/// Builds the library (albums, artists and songs) from a cached song list.
/// Albums come in order of first appearance of their id, each built from
/// the latest created of its songs and kept when that song names a first
/// artist and has artist ids; artists come in order of first appearance,
/// each named by the name at the same position in the first song listing
/// it.
pub fn derive_library_data(songs: &[Song]) -> (r: LibraryData)
    ensures
        song_views(r.songs@) == song_views(songs@),
        ({
            let sv = song_views(songs@);
            let kept = kept_album_ids(sv, album_ids(sv));
            &&& r.albums@.len() == kept.len()
            &&& forall|i: int|
                0 <= i < kept.len() ==> library_album(
                    #[trigger] r.albums@[i]@,
                    kept[i],
                    songs_on_album(sv, kept[i]),
                )
        }),
        ({
            let fe = first_entries(artist_entries(song_views(songs@)));
            &&& r.artists@.len() == fe.len()
            &&& forall|i: int| 0 <= i < fe.len() ==> library_artist(#[trigger] r.artists@[i]@, fe[i])
        }),
{
    let ghost sv = song_views(songs@);
    let ids = distinct_album_ids(songs);
    let ghost idv = views(ids@);
    let mut albums: Vec<Album> = Vec::new();
    let mut k: usize = 0;
    while k < ids.len()
        invariant
            k <= ids@.len(),
            sv == song_views(songs@),
            idv == views(ids@),
            idv == album_ids(sv),
            ({
                let kept = kept_album_ids(sv, idv.take(k as int));
                &&& albums@.len() == kept.len()
                &&& forall|i: int|
                    0 <= i < kept.len() ==> library_album(
                        #[trigger] albums@[i]@,
                        kept[i],
                        songs_on_album(sv, kept[i]),
                    )
            }),
        decreases ids@.len() - k,
    {
        let id = &ids[k];
        proof {
            assert(idv.take(k + 1).drop_last() =~= idv.take(k as int));
            assert(idv.take(k + 1).last() == id@);
            assert(idv[k as int] == id@);
            lemma_album_ids_have_songs(sv, id@);
        }
        let scan = scan_album(songs, id.as_str());
        let f = &songs[scan.latest];
        let artist = first_string(&f.artists);
        match (artist, &f.artist_ids) {
            (Some(artist), Some(_)) => {
                let name = match &f.album {
                    Some(n) => n.clone(),
                    None => owned("Unknown Album"),
                };
                albums.push(
                    Album {
                        id: Some(id.clone()),
                        name,
                        artist,
                        artist_id: first_string(&f.artist_ids),
                        album_art_url: f.album_art_url.clone(),
                        song_count: scan.count as i64,
                        songs: None,
                        image_tags: None,
                        provider_ids: None,
                        date_created: f.date_created.clone(),
                        date_modified: None,
                    },
                );
            },
            _ => {},
        }
        k = k + 1;
    }
    assert(idv.take(ids@.len() as int) =~= idv);
    let artists = library_artists(songs);
    LibraryData { albums, artists, songs: duplicate_songs(songs) }
}

// ---------------------------------------------------------------------------
// Home views.
// ---------------------------------------------------------------------------

/// `a` is the home album of album `id` with songs `ss`: built from the
/// first of them.
pub open spec fn home_album(a: AlbumV, id: Seq<char>, ss: Seq<SongV>) -> bool {
    let f = ss[0];
    &&& opt_chars(a.id) == Some(id)
    &&& a.name@ == (match f.album {
        Some(n) => n@,
        None => seq![],
    })
    &&& a.artist@ == (match first_of(f.artists) {
        Some(n) => n,
        None => seq![],
    })
    &&& opt_chars(a.artist_id) == first_of(f.artist_ids)
    &&& a.album_art_url == f.album_art_url
    &&& a.song_count == ss.len() as i64
    &&& a.songs is None
    &&& a.image_tags is None
    &&& a.provider_ids is None
    &&& a.date_created == f.date_created
    &&& a.date_modified is None
}

/// `albums` are the home albums of the song list `s`: one per album id, in
/// order of first appearance.
pub open spec fn home_albums_of(albums: Seq<AlbumV>, s: Seq<SongV>) -> bool {
    let ids = album_ids(s);
    &&& albums.len() == ids.len()
    &&& forall|i: int|
        0 <= i < ids.len() ==> home_album(#[trigger] albums[i], ids[i], songs_on_album(s, ids[i]))
}

/// The home albums of the songs: one per album id, in order of first
/// appearance, built from the first song of the album.
pub fn home_albums(songs: &[Song]) -> (r: Vec<Album>)
    ensures
        home_albums_of(album_views(r@), song_views(songs@)),
{
    let ghost sv = song_views(songs@);
    let ids = distinct_album_ids(songs);
    let ghost idv = views(ids@);
    let mut albums: Vec<Album> = Vec::new();
    let mut k: usize = 0;
    while k < ids.len()
        invariant
            k <= ids@.len(),
            sv == song_views(songs@),
            idv == views(ids@),
            idv == album_ids(sv),
            albums@.len() == k,
            forall|i: int|
                0 <= i < k ==> home_album(#[trigger] albums@[i]@, idv[i], songs_on_album(sv, idv[i])),
        decreases ids@.len() - k,
    {
        let id = &ids[k];
        proof {
            assert(idv[k as int] == id@);
            lemma_album_ids_have_songs(sv, id@);
        }
        let scan = scan_album(songs, id.as_str());
        let f = &songs[scan.first];
        let name = match &f.album {
            Some(n) => n.clone(),
            None => String::new(),
        };
        let artist = match first_string(&f.artists) {
            Some(a) => a,
            None => String::new(),
        };
        albums.push(
            Album {
                id: Some(id.clone()),
                name,
                artist,
                artist_id: first_string(&f.artist_ids),
                album_art_url: f.album_art_url.clone(),
                song_count: scan.count as i64,
                songs: None,
                image_tags: None,
                provider_ids: None,
                date_created: f.date_created.clone(),
                date_modified: None,
            },
        );
        k = k + 1;
    }
    assert(album_views(albums@).len() == idv.len());
    albums
}

/// Each album keyed by its creation date.
pub open spec fn dated_albums(albums: Seq<AlbumV>) -> Seq<(Option<String>, AlbumV)> {
    albums.map_values(|a: AlbumV| (a.date_created, a))
}

/// The values of keyed entries.
pub open spec fn entry_values<K, V>(s: Seq<(K, V)>) -> Seq<V> {
    s.map_values(|p: (K, V)| p.1)
}

/// The albums at the given positions.
pub open spec fn albums_at(albums: Seq<AlbumV>, order: Seq<usize>) -> Seq<AlbumV> {
    order.map_values(|i: usize| albums[i as int])
}

/// The albums ordered by creation date, newest first (stably; albums
/// without a date last).
pub open spec fn albums_by_date(albums: Seq<AlbumV>) -> Seq<AlbumV> {
    entry_values(sort_desc(dated_albums(albums)))
}

fn clone_opt_string(o: &Option<String>) -> (r: Option<String>)
    ensures
        r == *o,
{
    match o {
        Some(s) => Some(s.clone()),
        None => None,
    }
}

/// Copies of the albums ordered by creation date, newest first.
fn sort_albums_by_date(albums: &Vec<Album>) -> (r: Vec<Album>)
    ensures
        album_views(r@) == albums_by_date(album_views(albums@)),
{
    let ghost av = album_views(albums@);
    let mut pairs: Vec<(Option<String>, Album)> = Vec::new();
    let mut i: usize = 0;
    while i < albums.len()
        invariant
            i <= albums@.len(),
            av == album_views(albums@),
            keyed_views(pairs@) == dated_albums(av.take(i as int)),
        decreases albums@.len() - i,
    {
        let a = &albums[i];
        let ghost prev = keyed_views(pairs@);
        pairs.push((clone_opt_string(&a.date_created), a.duplicate()));
        proof {
            assert(av[i as int] == a@);
            assert(keyed_views(pairs@) =~= prev.push((a.date_created, a@)));
            assert(dated_albums(av.take(i + 1)) =~= dated_albums(av.take(i as int)).push(
                (a.date_created, a@),
            ));
        }
        i = i + 1;
    }
    assert(av.take(albums@.len() as int) =~= av);
    let sorted = sort_desc_by_key(pairs);
    let ghost sd = sort_desc(dated_albums(av));
    let mut r: Vec<Album> = Vec::new();
    let mut j: usize = 0;
    while j < sorted.len()
        invariant
            j <= sorted@.len(),
            keyed_views(sorted@) == sd,
            album_views(r@) == entry_values(sd.take(j as int)),
        decreases sorted@.len() - j,
    {
        let ghost prev = album_views(r@);
        r.push(sorted[j].1.duplicate());
        proof {
            assert(keyed_views(sorted@)[j as int] == (sorted@[j as int].0, sorted@[j as int].1@));
            assert(album_views(r@) =~= prev.push(sd[j as int].1));
            assert(entry_values(sd.take(j + 1)) =~= entry_values(sd.take(j as int)).push(
                sd[j as int].1,
            ));
        }
        j = j + 1;
    }
    assert(sd.take(sorted@.len() as int) =~= sd);
    r
}

/// `order` lists each index below `n` exactly once.
pub open spec fn is_order(order: Seq<usize>, n: int) -> bool {
    &&& order.len() == n
    &&& order.no_duplicates()
    &&& forall|i: int| 0 <= i < order.len() ==> #[trigger] order[i] < n
}

/// `limit`, or `n` when that is smaller.
pub open spec fn capped(limit: u32, n: int) -> int {
    if (limit as int) < n {
        limit as int
    } else {
        n
    }
}

/// The album sections of a home view arranged from `albums` and the
/// shuffled order `order`: the newest albums first, the albums in shuffled
/// order, and the first of those as featured, each section cut to its limit.
pub open spec fn home_sections(
    recently_added: Seq<AlbumV>,
    random_albums: Seq<AlbumV>,
    featured_albums: Seq<AlbumV>,
    albums: Seq<AlbumV>,
    order: Seq<usize>,
    limits: HomeViewLimits,
) -> bool {
    let n = albums.len() as int;
    let k = capped(limits.random_albums, n);
    &&& recently_added == albums_by_date(albums).take(capped(limits.recently_added_albums, n))
    &&& random_albums == albums_at(albums, order.take(k))
    &&& featured_albums == random_albums.take(capped(limits.featured_albums, k))
}

/// Arranges a home view from its albums and a shuffled order of them.
pub fn arrange_home_view(
    albums: Vec<Album>,
    order: &[usize],
    recently_played: Vec<Song>,
    limits: HomeViewLimits,
) -> (r: HomeViewData)
    requires
        is_order(order@, albums@.len() as int),
    ensures
        song_views(r.recently_played@) == song_views(recently_played@),
        home_sections(
            album_views(r.recently_added@),
            album_views(r.random_albums@),
            album_views(r.featured_albums@),
            album_views(albums@),
            order@,
            limits,
        ),
{
    let ghost av = album_views(albums@);
    let mut recently_added = sort_albums_by_date(&albums);
    proof {
        lemma_sort_desc_sorted(dated_albums(av));
        assert(albums_by_date(av).len() == av.len());
    }
    let ghost before_cut = recently_added@;
    recently_added.truncate(limits.recently_added_albums as usize);
    proof {
        if (limits.recently_added_albums as int) < av.len() {
            assert(recently_added@ == before_cut.subrange(0, limits.recently_added_albums as int));
        } else {
            assert(recently_added@ == before_cut);
        }
        assert(album_views(recently_added@) =~= albums_by_date(av).take(
            capped(limits.recently_added_albums, av.len() as int),
        ));
    }
    let k: usize = if (limits.random_albums as usize) < order.len() {
        limits.random_albums as usize
    } else {
        order.len()
    };
    let mut random_albums: Vec<Album> = Vec::new();
    let mut j: usize = 0;
    while j < k
        invariant
            j <= k,
            k <= order@.len(),
            order@.len() == albums@.len(),
            is_order(order@, albums@.len() as int),
            av == album_views(albums@),
            album_views(random_albums@) == albums_at(av, order@.take(j as int)),
        decreases k - j,
    {
        let idx = order[j];
        assert(idx < albums@.len());
        let ghost prev = album_views(random_albums@);
        random_albums.push(albums[idx].duplicate());
        proof {
            assert(av[idx as int] == albums@[idx as int]@);
            assert(album_views(random_albums@) =~= prev.push(av[idx as int]));
            assert(albums_at(av, order@.take(j + 1)) =~= albums_at(av, order@.take(j as int)).push(
                av[idx as int],
            ));
        }
        j = j + 1;
    }
    let m: usize = if (limits.featured_albums as usize) < k {
        limits.featured_albums as usize
    } else {
        k
    };
    let mut featured_albums: Vec<Album> = Vec::new();
    let mut q: usize = 0;
    while q < m
        invariant
            q <= m,
            m <= k,
            random_albums@.len() == k,
            album_views(featured_albums@) == album_views(random_albums@).take(q as int),
        decreases m - q,
    {
        let ghost prev = album_views(featured_albums@);
        featured_albums.push(random_albums[q].duplicate());
        proof {
            assert(album_views(featured_albums@) =~= prev.push(random_albums@[q as int]@));
            assert(album_views(featured_albums@) =~= album_views(random_albums@).take(q + 1));
        }
        q = q + 1;
    }
    HomeViewData { recently_played, recently_added, random_albums, featured_albums }
}

/// The indices below `n`, in order.
fn identity_order(n: usize) -> (r: Vec<usize>)
    ensures
        r@.len() == n,
        forall|i: int| 0 <= i < n ==> #[trigger] r@[i] == i,
{
    let mut r: Vec<usize> = Vec::new();
    let mut i: usize = 0;
    while i < n
        invariant
            i <= n,
            r@.len() == i,
            forall|j: int| 0 <= j < i ==> #[trigger] r@[j] == j,
        decreases n - i,
    {
        r.push(i);
        i = i + 1;
    }
    r
}

/// Shuffles the order in place with `rng` (`SliceRandom::shuffle`).
#[verifier::external_body]
fn shuffle_order(order: &mut Vec<usize>, rng: &mut StdRng)
    ensures
        final(order)@.to_multiset() == old(order)@.to_multiset(),
{
    order.shuffle(rng);
}

/// A shuffled identity order lists each index once.
proof fn lemma_shuffled_order(id: Seq<usize>, s: Seq<usize>, n: int)
    requires
        id.len() == n,
        forall|i: int| 0 <= i < n ==> #[trigger] id[i] == i,
        s.to_multiset() == id.to_multiset(),
    ensures
        is_order(s, n),
{
    broadcast use vstd::seq_lib::group_seq_properties;
    assert(id.no_duplicates());
    id.lemma_multiset_has_no_duplicates();
    s.lemma_multiset_has_no_duplicates_conv();
    assert forall|i: int| 0 <= i < s.len() implies #[trigger] s[i] < n by {
        vstd::seq_lib::to_multiset_contains(s, s[i]);
        vstd::seq_lib::to_multiset_contains(id, s[i]);
        assert(s.contains(s[i]));
        let j = choose|j: int| 0 <= j < id.len() && id[j] == s[i];
    }
    vstd::seq_lib::to_multiset_len(s);
    vstd::seq_lib::to_multiset_len(id);
}

/// Builds the home view from the cached songs: the recently played songs as
/// given, the albums (one per album id, from its first song) newest first,
/// in an order shuffled with `rng`, and the first of those as featured.
pub fn derive_home_view_data(
    all_songs: &[Song],
    recently_played: Vec<Song>,
    limits: HomeViewLimits,
    rng: &mut StdRng,
) -> (r: HomeViewData)
    ensures
        song_views(r.recently_played@) == song_views(recently_played@),
        exists|albums: Seq<AlbumV>, order: Seq<usize>|
            {
                &&& home_albums_of(albums, song_views(all_songs@))
                &&& is_order(order, albums.len() as int)
                &&& home_sections(
                    album_views(r.recently_added@),
                    album_views(r.random_albums@),
                    album_views(r.featured_albums@),
                    albums,
                    order,
                    limits,
                )
            },
{
    let albums = home_albums(all_songs);
    let mut order = identity_order(albums.len());
    let ghost id = order@;
    shuffle_order(&mut order, rng);
    proof {
        lemma_shuffled_order(id, order@, albums@.len() as int);
    }
    let ghost av = album_views(albums@);
    let ghost ov = order@;
    let r = arrange_home_view(albums, order.as_slice(), recently_played, limits);
    assert(home_albums_of(av, song_views(all_songs@)) && is_order(ov, av.len() as int)
        && home_sections(
        album_views(r.recently_added@),
        album_views(r.random_albums@),
        album_views(r.featured_albums@),
        av,
        ov,
        limits,
    ));
    r
}

// ---------------------------------------------------------------------------
// Mobile home view.
// ---------------------------------------------------------------------------

/// A song's play count, 0 when absent.
pub open spec fn play_count_of(x: SongV) -> i32 {
    match x.play_count {
        Some(c) => c,
        None => 0,
    }
}

/// The songs of `s` with a positive play count, keyed by it, in order.
pub open spec fn played_entries(s: Seq<SongV>) -> Seq<(i32, SongV)>
    decreases s.len(),
{
    if s.len() == 0 {
        seq![]
    } else {
        let r = played_entries(s.drop_last());
        if play_count_of(s.last()) > 0 {
            r.push((play_count_of(s.last()), s.last()))
        } else {
            r
        }
    }
}

proof fn lemma_played_entries(s: Seq<SongV>)
    ensures
        forall|i: int|
            0 <= i < played_entries(s).len() ==> (#[trigger] played_entries(s)[i]).0 == play_count_of(
                played_entries(s)[i].1,
            ) && played_entries(s)[i].0 > 0,
        forall|k: int|
            0 <= k < s.len() && play_count_of(#[trigger] s[k]) > 0 ==> played_entries(s).contains(
                (play_count_of(s[k]), s[k]),
            ),
    decreases s.len(),
{
    if s.len() > 0 {
        let p = s.drop_last();
        lemma_played_entries(p);
        let r = played_entries(p);
        assert forall|k: int| 0 <= k < s.len() && play_count_of(#[trigger] s[k]) > 0 implies played_entries(s).contains(
            (play_count_of(s[k]), s[k]),
        ) by {
            if k < s.len() - 1 {
                assert(p[k] == s[k]);
                let e = (play_count_of(s[k]), s[k]);
                assert(r.contains(e));
                let j = choose|j: int| 0 <= j < r.len() && r[j] == e;
                if play_count_of(s.last()) > 0 {
                    assert(played_entries(s)[j] == e);
                }
            } else {
                assert(played_entries(s)[played_entries(s).len() - 1] == (play_count_of(s[k]), s[k]));
            }
        }
    }
}

/// The most played songs are songs of the library that were played (a
/// positive play count), greatest play count first, and none of the
/// played songs is left out except to keep to the limit.
pub proof fn lemma_most_played(sv: Seq<SongV>, most: Seq<SongV>, limit: u32)
    requires
        most == entry_values(sort_desc(played_entries(sv))).take(
            capped(limit, entry_values(sort_desc(played_entries(sv))).len() as int),
        ),
    ensures
        forall|i: int| 0 <= i < most.len() ==> play_count_of(#[trigger] most[i]) > 0 && sv.contains(most[i]),
        forall|i: int, j: int|
            0 <= i < j < most.len() ==> play_count_of(#[trigger] most[i]) >= play_count_of(#[trigger] most[j]),
        most.len() <= limit,
        most.len() < limit ==> forall|k: int|
            0 <= k < sv.len() && play_count_of(#[trigger] sv[k]) > 0 ==> most.contains(sv[k]),
{
    broadcast use vstd::seq_lib::group_seq_properties;
    let pe = played_entries(sv);
    let sorted = sort_desc(pe);
    let mp = entry_values(sorted);
    lemma_played_entries(sv);
    lemma_played_entries_from(sv);
    lemma_sort_desc_sorted(pe);
    assert forall|i: int| 0 <= i < sorted.len() implies pe.contains(#[trigger] sorted[i]) by {
        assert(sorted.to_multiset().count(sorted[i]) > 0);
        assert(pe.to_multiset().count(sorted[i]) > 0);
    }
    assert forall|i: int| 0 <= i < most.len() implies play_count_of(#[trigger] most[i]) > 0 && sv.contains(most[i]) by {
        assert(most[i] == sorted[i].1);
        assert(pe.contains(sorted[i]));
        let j = choose|j: int| 0 <= j < pe.len() && pe[j] == sorted[i];
        assert(pe[j].0 == play_count_of(pe[j].1));
    }
    assert forall|i: int, j: int| 0 <= i < j < most.len() implies play_count_of(#[trigger] most[i]) >= play_count_of(#[trigger] most[j]) by {
        assert(most[i] == sorted[i].1 && most[j] == sorted[j].1);
        assert(pe.contains(sorted[i]) && pe.contains(sorted[j]));
        let a = choose|a: int| 0 <= a < pe.len() && pe[a] == sorted[i];
        let b = choose|b: int| 0 <= b < pe.len() && pe[b] == sorted[j];
        assert(pe[a].0 == play_count_of(pe[a].1));
        assert(pe[b].0 == play_count_of(pe[b].1));
        assert(!(sorted[i].0 < sorted[j].0));
    }
    if most.len() < limit {
        assert(most == mp);
        assert forall|k: int| 0 <= k < sv.len() && play_count_of(#[trigger] sv[k]) > 0 implies most.contains(sv[k]) by {
            let e = (play_count_of(sv[k]), sv[k]);
            assert(pe.contains(e));
            assert(pe.to_multiset().count(e) > 0);
            assert(sorted.to_multiset().count(e) > 0);
            assert(sorted.contains(e));
            let j = choose|j: int| 0 <= j < sorted.len() && sorted[j] == e;
            assert(mp[j] == sv[k]);
        }
    }
}

/// Every entry of `played_entries(s)` holds a song of `s`.
proof fn lemma_played_entries_from(s: Seq<SongV>)
    ensures
        forall|i: int| 0 <= i < played_entries(s).len() ==> s.contains(#[trigger] played_entries(s)[i].1),
    decreases s.len(),
{
    if s.len() > 0 {
        let p = s.drop_last();
        lemma_played_entries_from(p);
        assert forall|i: int| 0 <= i < played_entries(s).len() implies s.contains(#[trigger] played_entries(s)[i].1) by {
            if i < played_entries(p).len() {
                assert(played_entries(s)[i] == played_entries(p)[i]);
                let x = played_entries(p)[i].1;
                assert(p.contains(x));
                let k = choose|k: int| 0 <= k < p.len() && p[k] == x;
                assert(s[k] == x);
            } else {
                assert(s[s.len() - 1] == played_entries(s)[i].1);
            }
        }
    }
}

/// The song was played at a recorded, non-empty date.
pub open spec fn has_played_date(x: SongV) -> bool {
    x.date_played matches Some(d) && d@.len() > 0
}

/// The songs of `s` with a played date, keyed by it, in order.
pub open spec fn dated_entries(s: Seq<SongV>) -> Seq<(Option<String>, SongV)>
    decreases s.len(),
{
    if s.len() == 0 {
        seq![]
    } else {
        let r = dated_entries(s.drop_last());
        if has_played_date(s.last()) {
            r.push((s.last().date_played, s.last()))
        } else {
            r
        }
    }
}

/// Copies of the songs of sorted entries.
fn entry_songs<K>(sorted: &Vec<(K, Song)>) -> (r: Vec<Song>)
    ensures
        song_views(r@) == entry_values(keyed_views(sorted@)),
{
    let ghost sd = keyed_views(sorted@);
    let mut r: Vec<Song> = Vec::new();
    let mut j: usize = 0;
    while j < sorted.len()
        invariant
            j <= sorted@.len(),
            sd == keyed_views(sorted@),
            song_views(r@) == entry_values(sd.take(j as int)),
        decreases sorted@.len() - j,
    {
        let ghost prev = song_views(r@);
        r.push(sorted[j].1.duplicate());
        proof {
            assert(sd[j as int] == (sorted@[j as int].0, sorted@[j as int].1@));
            assert(song_views(r@) =~= prev.push(sd[j as int].1));
            assert(entry_values(sd.take(j + 1)) =~= entry_values(sd.take(j as int)).push(
                sd[j as int].1,
            ));
        }
        j = j + 1;
    }
    assert(sd.take(sorted@.len() as int) =~= sd);
    r
}

/// The played songs, most played first (stably).
fn songs_by_play_count(songs: &[Song]) -> (r: Vec<Song>)
    ensures
        song_views(r@) == entry_values(sort_desc(played_entries(song_views(songs@)))),
{
    let ghost sv = song_views(songs@);
    let mut pairs: Vec<(i32, Song)> = Vec::new();
    let mut i: usize = 0;
    while i < songs.len()
        invariant
            i <= songs@.len(),
            sv == song_views(songs@),
            keyed_views(pairs@) == played_entries(sv.take(i as int)),
        decreases songs@.len() - i,
    {
        let song = &songs[i];
        proof {
            assert(sv.take(i + 1).drop_last() =~= sv.take(i as int));
            assert(sv.take(i + 1).last() == song@);
        }
        let count = match song.play_count {
            Some(c) => c,
            None => 0,
        };
        if count > 0 {
            let ghost prev = keyed_views(pairs@);
            pairs.push((count, song.duplicate()));
            assert(keyed_views(pairs@) =~= prev.push((count, song@)));
        }
        i = i + 1;
    }
    assert(sv.take(songs@.len() as int) =~= sv);
    let sorted = sort_desc_by_key(pairs);
    entry_songs(&sorted)
}

/// The songs with a played date, most recently played first (stably).
fn songs_by_date_played(songs: &[Song]) -> (r: Vec<Song>)
    ensures
        song_views(r@) == entry_values(sort_desc(dated_entries(song_views(songs@)))),
{
    let ghost sv = song_views(songs@);
    let mut pairs: Vec<(Option<String>, Song)> = Vec::new();
    let mut i: usize = 0;
    while i < songs.len()
        invariant
            i <= songs@.len(),
            sv == song_views(songs@),
            keyed_views(pairs@) == dated_entries(sv.take(i as int)),
        decreases songs@.len() - i,
    {
        let song = &songs[i];
        proof {
            assert(sv.take(i + 1).drop_last() =~= sv.take(i as int));
            assert(sv.take(i + 1).last() == song@);
        }
        let played = match &song.date_played {
            Some(d) => d.as_str().unicode_len() > 0,
            None => false,
        };
        if played {
            let ghost prev = keyed_views(pairs@);
            pairs.push((clone_opt_string(&song.date_played), song.duplicate()));
            assert(keyed_views(pairs@) =~= prev.push((song.date_played, song@)));
        }
        i = i + 1;
    }
    assert(sv.take(songs@.len() as int) =~= sv);
    let sorted = sort_desc_by_key(pairs);
    entry_songs(&sorted)
}

/// The first `limit` songs (all when there are fewer).
fn first_songs(mut v: Vec<Song>, limit: u32) -> (r: Vec<Song>)
    ensures
        song_views(r@) == song_views(v@).take(capped(limit, v@.len() as int)),
{
    let ghost before = v@;
    v.truncate(limit as usize);
    proof {
        if (limit as int) < before.len() {
            assert(v@ == before.subrange(0, limit as int));
        } else {
            assert(v@ == before);
        }
        assert(song_views(v@) =~= song_views(before).take(capped(limit, before.len() as int)));
    }
    v
}

/// Builds the mobile home view from the cached songs: the played songs most
/// played first, the songs with a played date most recently played first,
/// and the album sections of the home view (the album section limit for
/// recently added and random albums), each cut to its limit.
pub fn derive_mobile_home_data(
    all_songs: &[Song],
    limits: MobileHomeViewLimits,
    rng: &mut StdRng,
) -> (r: MobileHomeData)
    ensures
        ({
            let sv = song_views(all_songs@);
            let mp = entry_values(sort_desc(played_entries(sv)));
            let rp = entry_values(sort_desc(dated_entries(sv)));
            &&& song_views(r.most_played@) == mp.take(capped(limits.most_played, mp.len() as int))
            &&& song_views(r.recently_played@) == rp.take(
                capped(limits.recently_played, rp.len() as int),
            )
        }),
        exists|albums: Seq<AlbumV>, order: Seq<usize>|
            {
                &&& home_albums_of(albums, song_views(all_songs@))
                &&& is_order(order, albums.len() as int)
                &&& home_sections(
                    album_views(r.recently_added@),
                    album_views(r.random_albums@),
                    album_views(r.featured_albums@),
                    albums,
                    order,
                    HomeViewLimits {
                        featured_albums: limits.featured_albums,
                        random_albums: limits.album_section,
                        recently_added_albums: limits.album_section,
                    },
                )
            },
{
    let most_played = first_songs(songs_by_play_count(all_songs), limits.most_played);
    let recently_played = first_songs(songs_by_date_played(all_songs), limits.recently_played);
    let home_limits = HomeViewLimits {
        featured_albums: limits.featured_albums,
        random_albums: limits.album_section,
        recently_added_albums: limits.album_section,
    };
    let derived_home = derive_home_view_data(
        all_songs,
        duplicate_songs(recently_played.as_slice()),
        home_limits,
        rng,
    );
    let ghost w: (Seq<AlbumV>, Seq<usize>) = choose|albums: Seq<AlbumV>, order: Seq<usize>|
        {
            &&& home_albums_of(albums, song_views(all_songs@))
            &&& is_order(order, albums.len() as int)
            &&& home_sections(
                album_views(derived_home.recently_added@),
                album_views(derived_home.random_albums@),
                album_views(derived_home.featured_albums@),
                albums,
                order,
                home_limits,
            )
        };
    let r = MobileHomeData {
        most_played,
        recently_played: derived_home.recently_played,
        recently_added: derived_home.recently_added,
        random_albums: derived_home.random_albums,
        featured_albums: derived_home.featured_albums,
    };
    assert(home_albums_of(w.0, song_views(all_songs@)) && is_order(w.1, w.0.len() as int)
        && home_sections(
        album_views(r.recently_added@),
        album_views(r.random_albums@),
        album_views(r.featured_albums@),
        w.0,
        w.1,
        home_limits,
    ));
    r
}

/// The home sections keep to their limits, the featured albums lead the
/// random ones, the random albums hold no album twice, and the recently
/// added albums come newest first.
pub proof fn lemma_home_sections_respect_limits(
    added: Seq<AlbumV>,
    random: Seq<AlbumV>,
    featured: Seq<AlbumV>,
    albums: Seq<AlbumV>,
    order: Seq<usize>,
    limits: HomeViewLimits,
)
    requires
        is_order(order, albums.len() as int),
        home_sections(added, random, featured, albums, order, limits),
    ensures
        added.len() == capped(limits.recently_added_albums, albums.len() as int),
        random.len() == capped(limits.random_albums, albums.len() as int),
        featured.len() == capped(limits.featured_albums, random.len() as int),
        forall|i: int| 0 <= i < featured.len() ==> featured[i] == random[i],
        forall|i: int, j: int|
            0 <= i < j < random.len() ==> order[i] != order[j] && random[i] == albums[order[i] as int]
                && random[j] == albums[order[j] as int],
        forall|i: int, j: int|
            0 <= i < j < added.len() ==> !<Option<String> as crate::order::SortKey>::key_lt(
                #[trigger] added[i].date_created,
                #[trigger] added[j].date_created,
            ),
{
    broadcast use vstd::seq_lib::group_seq_properties;
    let d = dated_albums(albums);
    let sd = sort_desc(d);
    lemma_sort_desc_sorted(d);
    assert forall|i: int| 0 <= i < sd.len() implies #[trigger] sd[i].0 == sd[i].1.date_created by {
        vstd::seq_lib::to_multiset_contains(sd, sd[i]);
        vstd::seq_lib::to_multiset_contains(d, sd[i]);
        assert(sd.contains(sd[i]));
        let k = choose|k: int| 0 <= k < d.len() && d[k] == sd[i];
    }
    assert forall|i: int, j: int| 0 <= i < j < added.len() implies !<Option<
        String,
    > as crate::order::SortKey>::key_lt(
        #[trigger] added[i].date_created,
        #[trigger] added[j].date_created,
    ) by {
        assert(added[i] == sd[i].1 && added[j] == sd[j].1);
        assert(sd[i].0 == sd[i].1.date_created && sd[j].0 == sd[j].1.date_created);
    }
}

} // verus!
