//! The library database: the tables the library is cached in, and the
//! service that syncs them with the server's lists.
//!
//! The tables mirror the on-disk layout (songs, artists and albums by id,
//! the album/artist indexes, favorites, the sync state, credentials and
//! settings); loading and storing them is the caller's I/O.
use vstd::prelude::*;
use crate::domain::{SyncReport, SyncState};
use crate::models::{Album, AlbumV, Artist, ArtistV, Credentials, Duplicate, Song, SongV, album_views, artist_views, song_views};
use crate::table::{PairSet, Table};
use crate::domain::SyncDelta;
use crate::table::{lemma_rows_map_at, lemma_rows_map_contains, sorted_rows};
use crate::text::{opt_chars, opt_str_eq, owned, push_str, seq_lt, views};

verus! {

/// The tables of the library database.
pub struct LibraryDatabase {
    pub songs: Table<Song>,
    pub artists: Table<Artist>,
    pub albums: Table<Album>,
    /// Index (album id, song id).
    pub songs_by_album: PairSet,
    /// Index (artist id, song id).
    pub songs_by_artist: PairSet,
    /// Index (artist id, album key).
    pub albums_by_artist: PairSet,
    /// Favorite songs: song id to the time it was marked.
    pub favorites: Table<String>,
    /// The row "library" of the sync state table.
    pub sync_state: Option<SyncState>,
    /// The row "main" of the credentials table.
    pub credentials: Option<Credentials>,
    /// Free-form settings.
    pub settings: Table<String>,
}

impl LibraryDatabase {
    /// Every table is well formed.
    pub open spec fn wf(&self) -> bool {
        &&& self.songs.wf()
        &&& self.artists.wf()
        &&& self.albums.wf()
        &&& self.songs_by_album.wf()
        &&& self.songs_by_artist.wf()
        &&& self.albums_by_artist.wf()
        &&& self.favorites.wf()
        &&& self.settings.wf()
    }

    /// A database with empty tables.
    pub fn new() -> (db: LibraryDatabase)
        ensures
            db.wf(),
            db.songs@ == Map::<Seq<char>, SongV>::empty(),
            db.artists@ == Map::<Seq<char>, ArtistV>::empty(),
            db.albums@ == Map::<Seq<char>, AlbumV>::empty(),
            db.songs_by_album@ == Set::<(Seq<char>, Seq<char>)>::empty(),
            db.songs_by_artist@ == Set::<(Seq<char>, Seq<char>)>::empty(),
            db.albums_by_artist@ == Set::<(Seq<char>, Seq<char>)>::empty(),
            db.favorites@ == Map::<Seq<char>, Seq<char>>::empty(),
            db.sync_state is None,
            db.credentials is None,
            db.settings@ == Map::<Seq<char>, Seq<char>>::empty(),
    {
        LibraryDatabase {
            songs: Table::new(),
            artists: Table::new(),
            albums: Table::new(),
            songs_by_album: PairSet::new(),
            songs_by_artist: PairSet::new(),
            albums_by_artist: PairSet::new(),
            favorites: Table::new(),
            sync_state: None,
            credentials: None,
            settings: Table::new(),
        }
    }
}

// ---------------------------------------------------------------------------
// What writing a list of entities does to the tables.
// ---------------------------------------------------------------------------

/// The key an album is stored under: its id, or "artist-name" when it has none.
pub open spec fn album_key(a: AlbumV) -> Seq<char> {
    match a.id {
        Some(id) => id@,
        None => a.artist@ + seq!['-'] + a.name@,
    }
}

/// The songs table after writing `s` in order (a later song with the same
/// id replaces an earlier one).
pub open spec fn put_songs(m: Map<Seq<char>, SongV>, s: Seq<SongV>) -> Map<Seq<char>, SongV>
    decreases s.len(),
{
    if s.len() == 0 {
        m
    } else {
        put_songs(m, s.drop_last()).insert(s.last().id@, s.last())
    }
}

/// The artists table after writing `s` in order.
pub open spec fn put_artists(m: Map<Seq<char>, ArtistV>, s: Seq<ArtistV>) -> Map<
    Seq<char>,
    ArtistV,
>
    decreases s.len(),
{
    if s.len() == 0 {
        m
    } else {
        put_artists(m, s.drop_last()).insert(s.last().id@, s.last())
    }
}

/// The albums table after writing `s` in order, each under its key.
pub open spec fn put_albums(m: Map<Seq<char>, AlbumV>, s: Seq<AlbumV>) -> Map<Seq<char>, AlbumV>
    decreases s.len(),
{
    if s.len() == 0 {
        m
    } else {
        put_albums(m, s.drop_last()).insert(album_key(s.last()), s.last())
    }
}

/// The (album id, song id) pair of one song, if it has an album.
pub open spec fn song_album_pair(s: SongV) -> Set<(Seq<char>, Seq<char>)> {
    match s.album_id {
        Some(a) => set![(a@, s.id@)],
        None => Set::empty(),
    }
}

/// The (artist id, song id) pairs of one song.
pub open spec fn song_artist_pairs(s: SongV) -> Set<(Seq<char>, Seq<char>)> {
    match s.artist_ids {
        Some(ids) => Set::new(
            |p: (Seq<char>, Seq<char>)|
                exists|j: int| 0 <= j < ids.len() && p == (ids[j]@, s.id@),
        ),
        None => Set::empty(),
    }
}

/// The (artist id, album key) pair of one album, if it names its artist.
pub open spec fn album_artist_pair(a: AlbumV) -> Set<(Seq<char>, Seq<char>)> {
    match a.artist_id {
        Some(r) => set![(r@, album_key(a))],
        None => Set::empty(),
    }
}

/// The album index pairs of a list of songs.
pub open spec fn album_pairs(s: Seq<SongV>) -> Set<(Seq<char>, Seq<char>)>
    decreases s.len(),
{
    if s.len() == 0 {
        Set::empty()
    } else {
        album_pairs(s.drop_last()).union(song_album_pair(s.last()))
    }
}

/// The artist index pairs of a list of songs.
pub open spec fn artist_pairs(s: Seq<SongV>) -> Set<(Seq<char>, Seq<char>)>
    decreases s.len(),
{
    if s.len() == 0 {
        Set::empty()
    } else {
        artist_pairs(s.drop_last()).union(song_artist_pairs(s.last()))
    }
}

/// The artist index pairs of a list of albums.
pub open spec fn album_artist_pairs(s: Seq<AlbumV>) -> Set<(Seq<char>, Seq<char>)>
    decreases s.len(),
{
    if s.len() == 0 {
        Set::empty()
    } else {
        album_artist_pairs(s.drop_last()).union(album_artist_pair(s.last()))
    }
}

/// The favorites table after writing `s`: favorite songs are marked with
/// `now`, the others are left as they were.
pub open spec fn mark_favorites(m: Map<Seq<char>, Seq<char>>, s: Seq<SongV>, now: Seq<char>) -> Map<
    Seq<char>,
    Seq<char>,
>
    decreases s.len(),
{
    if s.len() == 0 {
        m
    } else {
        let r = mark_favorites(m, s.drop_last(), now);
        if s.last().is_favorite == Some(true) {
            r.insert(s.last().id@, now)
        } else {
            r
        }
    }
}

/// The favorites table after upserting `s`: favorite songs are marked with
/// `now`, the others are unmarked.
pub open spec fn refresh_favorites(
    m: Map<Seq<char>, Seq<char>>,
    s: Seq<SongV>,
    now: Seq<char>,
) -> Map<Seq<char>, Seq<char>>
    decreases s.len(),
{
    if s.len() == 0 {
        m
    } else {
        let r = refresh_favorites(m, s.drop_last(), now);
        if s.last().is_favorite == Some(true) {
            r.insert(s.last().id@, now)
        } else {
            r.remove(s.last().id@)
        }
    }
}

/// `st` is the state recorded by a sync at time `now` that wrote `ns`
/// songs, `na` artists and `nb` albums, after the state `prev`.
pub open spec fn synced_state(
    st: SyncState,
    prev: SyncState,
    full_sync: bool,
    now: Seq<char>,
    ns: u32,
    na: u32,
    nb: u32,
) -> bool {
    &&& st.last_sync_time@ == now
    &&& st.last_full_sync_time == (if full_sync {
        Some(st.last_sync_time)
    } else {
        prev.last_full_sync_time
    })
    &&& st.last_sync_version is None
    &&& st.song_count == ns
    &&& st.artist_count == na
    &&& st.album_count == nb
    &&& !st.full_sync_in_progress
    &&& st.full_sync_last_page_index == 0
    &&& st.full_sync_entity_type is None
}

/// The sync state a database holds, or the initial one.
pub open spec fn state_or_default(db: LibraryDatabase, st: SyncState) -> bool {
    match db.sync_state {
        Some(s) => st == s,
        None => crate::domain::initial_sync_state(st),
    }
}

// ---------------------------------------------------------------------------
// Single-entity writes.
// ---------------------------------------------------------------------------

/// The key an album is stored under.
pub fn album_storage_key(a: &Album) -> (k: String)
    ensures
        k@ == album_key(a@),
{
    match &a.id {
        Some(id) => id.clone(),
        None => {
            let mut k = a.artist.clone();
            push_str(&mut k, "-");
            proof {
                reveal_strlit("-");
            }
            push_str(&mut k, a.name.as_str());
            k
        },
    }
}

pub(crate) fn index_song_album(idx: &mut PairSet, s: &Song)
    requires
        old(idx).wf(),
    ensures
        final(idx).wf(),
        final(idx)@ == old(idx)@.union(song_album_pair(s@)),
{
    match &s.album_id {
        Some(a) => {
            idx.insert(a.as_str(), s.id.as_str());
            assert(idx@ =~= old(idx)@.union(song_album_pair(s@)));
        },
        None => {
            assert(idx@ =~= old(idx)@.union(song_album_pair(s@)));
        },
    }
}

pub(crate) fn index_song_artists(idx: &mut PairSet, s: &Song)
    requires
        old(idx).wf(),
    ensures
        final(idx).wf(),
        final(idx)@ == old(idx)@.union(song_artist_pairs(s@)),
{
    match &s.artist_ids {
        Some(ids) => {
            let mut j: usize = 0;
            while j < ids.len()
                invariant
                    idx.wf(),
                    j <= ids@.len(),
                    s.artist_ids == Some(*ids),
                    idx@ == old(idx)@.union(
                        Set::new(
                            |p: (Seq<char>, Seq<char>)|
                                exists|k: int| 0 <= k < j && p == (ids@[k]@, s.id@),
                        ),
                    ),
                decreases ids@.len() - j,
            {
                let ghost before = idx@;
                idx.insert(ids[j].as_str(), s.id.as_str());
                proof {
                    assert forall|p: (Seq<char>, Seq<char>)| #[trigger]
                        idx@.contains(p) == old(idx)@.union(
                            Set::new(
                                |p: (Seq<char>, Seq<char>)|
                                    exists|k: int| 0 <= k < j + 1 && p == (ids@[k]@, s.id@),
                            ),
                        ).contains(p) by {
                        if p == (ids@[j as int]@, s.id@) {
                            assert(exists|k: int| 0 <= k < j + 1 && p == (ids@[k]@, s.id@));
                        }
                        if exists|k: int| 0 <= k < j + 1 && p == (ids@[k]@, s.id@) {
                            let k = choose|k: int| 0 <= k < j + 1 && p == (ids@[k]@, s.id@);
                            if k < j {
                                assert(exists|k: int| 0 <= k < j && p == (ids@[k]@, s.id@));
                            }
                        }
                    }
                    assert(idx@ =~= old(idx)@.union(
                        Set::new(
                            |p: (Seq<char>, Seq<char>)|
                                exists|k: int| 0 <= k < j + 1 && p == (ids@[k]@, s.id@),
                        ),
                    ));
                }
                j = j + 1;
            }
            assert(idx@ =~= old(idx)@.union(song_artist_pairs(s@)));
        },
        None => {
            assert(idx@ =~= old(idx)@.union(song_artist_pairs(s@)));
        },
    }
}

fn index_album_artist(idx: &mut PairSet, a: &Album, key: &String)
    requires
        old(idx).wf(),
        key@ == album_key(a@),
    ensures
        final(idx).wf(),
        final(idx)@ == old(idx)@.union(album_artist_pair(a@)),
{
    match &a.artist_id {
        Some(r) => {
            idx.insert(r.as_str(), key.as_str());
            assert(idx@ =~= old(idx)@.union(album_artist_pair(a@)));
        },
        None => {
            assert(idx@ =~= old(idx)@.union(album_artist_pair(a@)));
        },
    }
}


// ---------------------------------------------------------------------------
// The delta between the local tables and the server's lists.
// ---------------------------------------------------------------------------

/// The ids of remote songs the local table does not hold, in remote order.
pub open spec fn new_song_ids(local: Map<Seq<char>, SongV>, remote: Seq<SongV>) -> Seq<Seq<char>>
    decreases remote.len(),
{
    if remote.len() == 0 {
        seq![]
    } else {
        let r = new_song_ids(local, remote.drop_last());
        if local.contains_key(remote.last().id@) {
            r
        } else {
            r.push(remote.last().id@)
        }
    }
}

/// The ids of remote songs the local table holds with another modification
/// date, in remote order.
pub open spec fn changed_song_ids(local: Map<Seq<char>, SongV>, remote: Seq<SongV>) -> Seq<
    Seq<char>,
>
    decreases remote.len(),
{
    if remote.len() == 0 {
        seq![]
    } else {
        let r = changed_song_ids(local, remote.drop_last());
        let s = remote.last();
        if local.contains_key(s.id@) && opt_chars(local[s.id@].date_modified) != opt_chars(
            s.date_modified,
        ) {
            r.push(s.id@)
        } else {
            r
        }
    }
}

/// The keys (in table order) that are not in `present`.
pub open spec fn missing_keys(keys: Seq<Seq<char>>, present: Set<Seq<char>>) -> Seq<Seq<char>>
    decreases keys.len(),
{
    if keys.len() == 0 {
        seq![]
    } else {
        let r = missing_keys(keys.drop_last(), present);
        if present.contains(keys.last()) {
            r
        } else {
            r.push(keys.last())
        }
    }
}

/// The ids of a list of songs.
pub open spec fn song_id_set(s: Seq<SongV>) -> Set<Seq<char>> {
    Set::new(|k: Seq<char>| exists|i: int| 0 <= i < s.len() && s[i].id@ == k)
}

/// The ids of a list of artists.
pub open spec fn artist_id_set(s: Seq<ArtistV>) -> Set<Seq<char>> {
    Set::new(|k: Seq<char>| exists|i: int| 0 <= i < s.len() && s[i].id@ == k)
}

/// The album has id `k`.
pub open spec fn album_has_id(a: AlbumV, k: Seq<char>) -> bool {
    a.id matches Some(x) && x@ == k
}

/// The ids of the albums of a list that have one.
pub open spec fn album_id_set(s: Seq<AlbumV>) -> Set<Seq<char>> {
    Set::new(
        |k: Seq<char>| exists|i: int| 0 <= i < s.len() && album_has_id(s[i], k),
    )
}

/// The ids of remote artists not in `local`, in remote order.
pub open spec fn new_artist_ids(local: Set<Seq<char>>, remote: Seq<ArtistV>) -> Seq<Seq<char>>
    decreases remote.len(),
{
    if remote.len() == 0 {
        seq![]
    } else {
        let r = new_artist_ids(local, remote.drop_last());
        if local.contains(remote.last().id@) {
            r
        } else {
            r.push(remote.last().id@)
        }
    }
}

/// The ids of remote albums (those with an id) not in `local`, in remote order.
pub open spec fn new_album_ids(local: Set<Seq<char>>, remote: Seq<AlbumV>) -> Seq<Seq<char>>
    decreases remote.len(),
{
    if remote.len() == 0 {
        seq![]
    } else {
        let r = new_album_ids(local, remote.drop_last());
        match remote.last().id {
            Some(id) => if local.contains(id@) {
                r
            } else {
                r.push(id@)
            },
            None => r,
        }
    }
}

/// `d` is the delta from the tables of `db` to the remote lists.
pub open spec fn is_delta(
    d: SyncDelta,
    db: LibraryDatabase,
    rs: Seq<SongV>,
    ra: Seq<ArtistV>,
    rb: Seq<AlbumV>,
) -> bool {
    &&& views(d.songs_to_add@) == new_song_ids(db.songs@, rs)
    &&& views(d.songs_to_update@) == changed_song_ids(db.songs@, rs)
    &&& views(d.songs_to_remove@) == missing_keys(db.songs.key_seq(), song_id_set(rs))
    &&& views(d.artists_to_add@) == new_artist_ids(db.artists@.dom(), ra)
    &&& views(d.artists_to_remove@) == missing_keys(db.artists.key_seq(), artist_id_set(ra))
    &&& d.artists_to_update@.len() == 0
    &&& views(d.albums_to_add@) == new_album_ids(db.albums@.dom(), rb)
    &&& views(d.albums_to_remove@) == missing_keys(db.albums.key_seq(), album_id_set(rb))
    &&& d.albums_to_update@.len() == 0
}

proof fn lemma_changed_song_ids_contains(local: Map<Seq<char>, SongV>, rs: Seq<SongV>, k: Seq<char>)
    ensures
        changed_song_ids(local, rs).contains(k) <==> (local.contains_key(k) && exists|i: int|
            0 <= i < rs.len() && (#[trigger] rs[i]).id@ == k && opt_chars(local[k].date_modified)
                != opt_chars(rs[i].date_modified)),
    decreases rs.len(),
{
    if rs.len() > 0 {
        let p = rs.drop_last();
        lemma_changed_song_ids_contains(local, p, k);
        let r = changed_song_ids(local, p);
        let s = rs.last();
        if local.contains_key(s.id@) && opt_chars(local[s.id@].date_modified) != opt_chars(s.date_modified) {
            assert(r.push(s.id@)[r.len() as int] == s.id@);
            assert forall|x: Seq<char>| r.push(s.id@).contains(x) == (r.contains(x) || x == s.id@) by {
                if r.push(s.id@).contains(x) {
                    let j = choose|j: int| 0 <= j < r.push(s.id@).len() && r.push(s.id@)[j] == x;
                    if j < r.len() {
                        assert(r[j] == x);
                    }
                }
                if r.contains(x) {
                    let j = choose|j: int| 0 <= j < r.len() && r[j] == x;
                    assert(r.push(s.id@)[j] == x);
                }
            }
        }
        if (exists|i: int| 0 <= i < rs.len() && (#[trigger] rs[i]).id@ == k && opt_chars(local[k].date_modified)
            != opt_chars(rs[i].date_modified)) {
            let i = choose|i: int| 0 <= i < rs.len() && (#[trigger] rs[i]).id@ == k && opt_chars(local[k].date_modified)
                != opt_chars(rs[i].date_modified);
            if i < rs.len() - 1 {
                assert(p[i] == rs[i]);
            }
        }
        if (exists|i: int| 0 <= i < p.len() && (#[trigger] p[i]).id@ == k && opt_chars(local[k].date_modified)
            != opt_chars(p[i].date_modified)) {
            let i = choose|i: int| 0 <= i < p.len() && (#[trigger] p[i]).id@ == k && opt_chars(local[k].date_modified)
                != opt_chars(p[i].date_modified);
            assert(rs[i] == p[i]);
        }
    }
}

/// A computed delta lists a song as updated exactly when the server sends a
/// song of that id that is held locally with another modification date.
pub proof fn lemma_delta_updates_changed_dates(
    d: SyncDelta,
    db: LibraryDatabase,
    rs: Seq<SongV>,
    ra: Seq<ArtistV>,
    rb: Seq<AlbumV>,
    k: Seq<char>,
)
    requires
        is_delta(d, db, rs, ra, rb),
    ensures
        views(d.songs_to_update@).contains(k) <==> (db.songs@.contains_key(k) && exists|i: int|
            0 <= i < rs.len() && (#[trigger] rs[i]).id@ == k && opt_chars(db.songs@[k].date_modified)
                != opt_chars(rs[i].date_modified)),
{
    lemma_changed_song_ids_contains(db.songs@, rs, k);
}

/// When every remote song that is held locally carries the stored
/// modification date, a computed delta updates no song.
pub proof fn lemma_unchanged_songs_not_updated(
    d: SyncDelta,
    db: LibraryDatabase,
    rs: Seq<SongV>,
    ra: Seq<ArtistV>,
    rb: Seq<AlbumV>,
)
    requires
        is_delta(d, db, rs, ra, rb),
        forall|i: int|
            0 <= i < rs.len() && db.songs@.contains_key((#[trigger] rs[i]).id@) ==> opt_chars(
                db.songs@[rs[i].id@].date_modified,
            ) == opt_chars(rs[i].date_modified),
    ensures
        d.songs_to_update@.len() == 0,
{
    if d.songs_to_update@.len() > 0 {
        let k = views(d.songs_to_update@)[0];
        assert(views(d.songs_to_update@).contains(k));
        lemma_delta_updates_changed_dates(d, db, rs, ra, rb, k);
    }
}

fn song_id_table(songs: &[Song]) -> (t: Table<()>)
    ensures
        t.wf(),
        t@.dom() == song_id_set(song_views(songs@)),
{
    let mut t: Table<()> = Table::new();
    let mut i: usize = 0;
    while i < songs.len()
        invariant
            t.wf(),
            i <= songs@.len(),
            t@.dom() == song_id_set(song_views(songs@.take(i as int))),
        decreases songs@.len() - i,
    {
        t.insert(songs[i].id.clone(), ());
        proof {
            let a = song_views(songs@.take(i as int));
            let b = song_views(songs@.take(i + 1));
            assert forall|k: Seq<char>| #[trigger] song_id_set(b).contains(k) == t@.dom().contains(k) by {
                if song_id_set(b).contains(k) {
                    let j = choose|j: int| 0 <= j < b.len() && b[j].id@ == k;
                    if j < i {
                        assert(a[j] == b[j]);
                    }
                }
                if song_id_set(a).contains(k) {
                    let j = choose|j: int| 0 <= j < a.len() && a[j].id@ == k;
                    assert(a[j] == b[j]);
                }
                if k == songs@[i as int].id@ {
                    assert(b[i as int].id@ == k);
                }
            }
            assert(t@.dom() =~= song_id_set(b));
        }
        i = i + 1;
    }
    assert(songs@.take(songs@.len() as int) =~= songs@);
    t
}

fn artist_id_table(artists: &[Artist]) -> (t: Table<()>)
    ensures
        t.wf(),
        t@.dom() == artist_id_set(artist_views(artists@)),
{
    let mut t: Table<()> = Table::new();
    let mut i: usize = 0;
    while i < artists.len()
        invariant
            t.wf(),
            i <= artists@.len(),
            t@.dom() == artist_id_set(artist_views(artists@.take(i as int))),
        decreases artists@.len() - i,
    {
        t.insert(artists[i].id.clone(), ());
        proof {
            let a = artist_views(artists@.take(i as int));
            let b = artist_views(artists@.take(i + 1));
            assert forall|k: Seq<char>| #[trigger] artist_id_set(b).contains(k) == t@.dom().contains(k) by {
                if artist_id_set(b).contains(k) {
                    let j = choose|j: int| 0 <= j < b.len() && b[j].id@ == k;
                    if j < i {
                        assert(a[j] == b[j]);
                    }
                }
                if artist_id_set(a).contains(k) {
                    let j = choose|j: int| 0 <= j < a.len() && a[j].id@ == k;
                    assert(a[j] == b[j]);
                }
                if k == artists@[i as int].id@ {
                    assert(b[i as int].id@ == k);
                }
            }
            assert(t@.dom() =~= artist_id_set(b));
        }
        i = i + 1;
    }
    assert(artists@.take(artists@.len() as int) =~= artists@);
    t
}

fn album_id_table(albums: &[Album]) -> (t: Table<()>)
    ensures
        t.wf(),
        t@.dom() == album_id_set(album_views(albums@)),
{
    let mut t: Table<()> = Table::new();
    let mut i: usize = 0;
    while i < albums.len()
        invariant
            t.wf(),
            i <= albums@.len(),
            t@.dom() == album_id_set(album_views(albums@.take(i as int))),
        decreases albums@.len() - i,
    {
        let ghost before = t@;
        match &albums[i].id {
            Some(id) => {
                t.insert(id.clone(), ());
            },
            None => {},
        }
        proof {
            let a = album_views(albums@.take(i as int));
            let b = album_views(albums@.take(i + 1));
            assert forall|k: Seq<char>| #[trigger] album_id_set(b).contains(k) == t@.dom().contains(k) by {
                if album_id_set(b).contains(k) {
                    let j = choose|j: int| 0 <= j < b.len() && album_has_id(b[j], k);
                    if j < i {
                        assert(a[j] == b[j]);
                    }
                }
                if album_id_set(a).contains(k) {
                    let j = choose|j: int| 0 <= j < a.len() && album_has_id(a[j], k);
                    assert(a[j] == b[j]);
                }
                if album_has_id(albums@[i as int]@, k) {
                    assert(album_has_id(b[i as int], k));
                }
            }
            assert(t@.dom() =~= album_id_set(b));
        }
        i = i + 1;
    }
    assert(albums@.take(albums@.len() as int) =~= albums@);
    t
}

/// The keys of `t`, in order, that are not keys of `present`.
fn missing_from<V: View>(t: &Table<V>, present: &Table<()>) -> (r: Vec<String>)
    requires
        t.wf(),
        present.wf(),
    ensures
        views(r@) == missing_keys(t.key_seq(), present@.dom()),
{
    let mut r: Vec<String> = Vec::new();
    let n = t.len();
    let mut i: usize = 0;
    while i < n
        invariant
            n == t.rows().len(),
            i <= n,
            t.wf(),
            present.wf(),
            views(r@) == missing_keys(t.key_seq().take(i as int), present@.dom()),
        decreases n - i,
    {
        let k = t.key_at(i);
        proof {
            assert(t.key_seq().take(i + 1).drop_last() =~= t.key_seq().take(i as int));
        }
        if !present.contains_key(k.as_str()) {
            r.push(k.clone());
            assert(views(r@) =~= missing_keys(t.key_seq().take(i + 1), present@.dom()));
        } else {
            assert(views(r@) =~= missing_keys(t.key_seq().take(i + 1), present@.dom()));
        }
        i = i + 1;
    }
    assert(t.key_seq().take(n as int) =~= t.key_seq());
    r
}


// ---------------------------------------------------------------------------
// What applying a delta does to the tables.
// ---------------------------------------------------------------------------

/// Position of the last song of `s` with each id.
pub open spec fn song_positions(s: Seq<SongV>) -> Map<Seq<char>, int>
    decreases s.len(),
{
    if s.len() == 0 {
        Map::empty()
    } else {
        song_positions(s.drop_last()).insert(s.last().id@, s.len() - 1)
    }
}

/// Position of the last artist of `s` with each id.
pub open spec fn artist_positions(s: Seq<ArtistV>) -> Map<Seq<char>, int>
    decreases s.len(),
{
    if s.len() == 0 {
        Map::empty()
    } else {
        artist_positions(s.drop_last()).insert(s.last().id@, s.len() - 1)
    }
}

/// Position of the last album of `s` with each id (albums without one are
/// not listed).
pub open spec fn album_positions(s: Seq<AlbumV>) -> Map<Seq<char>, int>
    decreases s.len(),
{
    if s.len() == 0 {
        Map::empty()
    } else {
        let r = album_positions(s.drop_last());
        match s.last().id {
            Some(id) => r.insert(id@, s.len() - 1),
            None => r,
        }
    }
}

pub proof fn lemma_song_positions(s: Seq<SongV>)
    ensures
        forall|k: Seq<char>| #[trigger]
            song_positions(s).contains_key(k) ==> 0 <= song_positions(s)[k] < s.len() && s[song_positions(s)[k]].id@ == k,
        forall|i: int| 0 <= i < s.len() ==> #[trigger] song_positions(s).contains_key(s[i].id@),
    decreases s.len(),
{
    if s.len() > 0 {
        lemma_song_positions(s.drop_last());
        assert forall|i: int| 0 <= i < s.len() implies #[trigger] song_positions(s).contains_key(s[i].id@) by {
            if i < s.len() - 1 {
                assert(s.drop_last()[i] == s[i]);
            }
        }
    }
}

pub proof fn lemma_artist_positions(s: Seq<ArtistV>)
    ensures
        forall|k: Seq<char>| #[trigger]
            artist_positions(s).contains_key(k) ==> 0 <= artist_positions(s)[k] < s.len() && s[artist_positions(s)[k]].id@ == k,
        forall|i: int| 0 <= i < s.len() ==> #[trigger] artist_positions(s).contains_key(s[i].id@),
    decreases s.len(),
{
    if s.len() > 0 {
        lemma_artist_positions(s.drop_last());
        assert forall|i: int| 0 <= i < s.len() implies #[trigger] artist_positions(s).contains_key(s[i].id@) by {
            if i < s.len() - 1 {
                assert(s.drop_last()[i] == s[i]);
            }
        }
    }
}

pub proof fn lemma_album_positions(s: Seq<AlbumV>)
    ensures
        forall|k: Seq<char>| #[trigger]
            album_positions(s).contains_key(k) ==> 0 <= album_positions(s)[k] < s.len() && album_has_id(s[album_positions(s)[k]], k),
        forall|i: int, k: Seq<char>| 0 <= i < s.len() && #[trigger] album_has_id(s[i], k) ==> #[trigger] album_positions(s).contains_key(k),
    decreases s.len(),
{
    if s.len() > 0 {
        let d = s.drop_last();
        lemma_album_positions(d);
        assert forall|k: Seq<char>| #[trigger] album_positions(s).contains_key(k) implies 0
            <= album_positions(s)[k] < s.len() && album_has_id(s[album_positions(s)[k]], k) by {
            match s.last().id {
                Some(id) => {
                    if k != id@ {
                        assert(d[album_positions(d)[k]] == s[album_positions(d)[k]]);
                    }
                },
                None => {
                    assert(d[album_positions(d)[k]] == s[album_positions(d)[k]]);
                },
            }
        }
        assert forall|i: int, k: Seq<char>| 0 <= i < s.len() && #[trigger] album_has_id(s[i], k) implies #[trigger] album_positions(s).contains_key(k) by {
            if i < s.len() - 1 {
                assert(d[i] == s[i]);
                assert(album_positions(d).contains_key(k));
            }
        }
    }
}

/// The last song of `s` with id `k`.
pub open spec fn last_song_with(s: Seq<SongV>, k: Seq<char>) -> Option<SongV> {
    if song_positions(s).contains_key(k) {
        Some(s[song_positions(s)[k]])
    } else {
        None
    }
}

/// The last artist of `s` with id `k`.
pub open spec fn last_artist_with(s: Seq<ArtistV>, k: Seq<char>) -> Option<ArtistV> {
    if artist_positions(s).contains_key(k) {
        Some(s[artist_positions(s)[k]])
    } else {
        None
    }
}

/// The last album of `s` with id `k`.
pub open spec fn last_album_with(s: Seq<AlbumV>, k: Seq<char>) -> Option<AlbumV> {
    if album_positions(s).contains_key(k) {
        Some(s[album_positions(s)[k]])
    } else {
        None
    }
}

/// The songs table after writing, for each id of `ids` in order, the last
/// song of `s` with that id (ids without a song are skipped).
pub open spec fn write_songs_by_id(m: Map<Seq<char>, SongV>, ids: Seq<Seq<char>>, s: Seq<SongV>) -> Map<
    Seq<char>,
    SongV,
>
    decreases ids.len(),
{
    if ids.len() == 0 {
        m
    } else {
        let r = write_songs_by_id(m, ids.drop_last(), s);
        match last_song_with(s, ids.last()) {
            Some(x) => r.insert(x.id@, x),
            None => r,
        }
    }
}

/// The favorites after marking, for each id of `ids`, its song of `s` if
/// that song is a favorite.
pub open spec fn mark_favorites_by_id(
    m: Map<Seq<char>, Seq<char>>,
    ids: Seq<Seq<char>>,
    s: Seq<SongV>,
    now: Seq<char>,
) -> Map<Seq<char>, Seq<char>>
    decreases ids.len(),
{
    if ids.len() == 0 {
        m
    } else {
        let r = mark_favorites_by_id(m, ids.drop_last(), s, now);
        match last_song_with(s, ids.last()) {
            Some(x) => if x.is_favorite == Some(true) {
                r.insert(x.id@, now)
            } else {
                r
            },
            None => r,
        }
    }
}

/// The album index pairs of the songs of `s` named by `ids`.
pub open spec fn album_pairs_by_id(ids: Seq<Seq<char>>, s: Seq<SongV>) -> Set<(Seq<char>, Seq<char>)>
    decreases ids.len(),
{
    if ids.len() == 0 {
        Set::empty()
    } else {
        let r = album_pairs_by_id(ids.drop_last(), s);
        match last_song_with(s, ids.last()) {
            Some(x) => r.union(song_album_pair(x)),
            None => r,
        }
    }
}

/// The artist index pairs of the songs of `s` named by `ids`.
pub open spec fn artist_pairs_by_id(ids: Seq<Seq<char>>, s: Seq<SongV>) -> Set<(Seq<char>, Seq<char>)>
    decreases ids.len(),
{
    if ids.len() == 0 {
        Set::empty()
    } else {
        let r = artist_pairs_by_id(ids.drop_last(), s);
        match last_song_with(s, ids.last()) {
            Some(x) => r.union(song_artist_pairs(x)),
            None => r,
        }
    }
}

/// The artists table after writing the artist of `s` named by each id.
pub open spec fn write_artists_by_id(
    m: Map<Seq<char>, ArtistV>,
    ids: Seq<Seq<char>>,
    s: Seq<ArtistV>,
) -> Map<Seq<char>, ArtistV>
    decreases ids.len(),
{
    if ids.len() == 0 {
        m
    } else {
        let r = write_artists_by_id(m, ids.drop_last(), s);
        match last_artist_with(s, ids.last()) {
            Some(x) => r.insert(x.id@, x),
            None => r,
        }
    }
}

/// The albums table after writing the album of `s` named by each id, under
/// that id.
pub open spec fn write_albums_by_id(m: Map<Seq<char>, AlbumV>, ids: Seq<Seq<char>>, s: Seq<AlbumV>) -> Map<
    Seq<char>,
    AlbumV,
>
    decreases ids.len(),
{
    if ids.len() == 0 {
        m
    } else {
        let r = write_albums_by_id(m, ids.drop_last(), s);
        match last_album_with(s, ids.last()) {
            Some(x) => r.insert(ids.last(), x),
            None => r,
        }
    }
}

/// A map with the given keys removed, in order.
pub open spec fn remove_keys<W>(m: Map<Seq<char>, W>, ids: Seq<Seq<char>>) -> Map<Seq<char>, W>
    decreases ids.len(),
{
    if ids.len() == 0 {
        m
    } else {
        remove_keys(m, ids.drop_last()).remove(ids.last())
    }
}

fn song_position_table(songs: &[Song]) -> (t: Table<usize>)
    ensures
        t.wf(),
        forall|k: Seq<char>| #[trigger] t@.contains_key(k) == song_positions(song_views(songs@)).contains_key(k),
        forall|k: Seq<char>| #[trigger] t@.contains_key(k) ==> t@[k] as int == song_positions(song_views(songs@))[k],
{
    let ghost sv = song_views(songs@);
    let mut t: Table<usize> = Table::new();
    let mut i: usize = 0;
    while i < songs.len()
        invariant
            t.wf(),
            i <= songs@.len(),
            sv == song_views(songs@),
            forall|k: Seq<char>| #[trigger] t@.contains_key(k) == song_positions(sv.take(i as int)).contains_key(k),
            forall|k: Seq<char>| #[trigger] t@.contains_key(k) ==> t@[k] as int == song_positions(sv.take(i as int))[k],
        decreases songs@.len() - i,
    {
        proof {
            assert(sv.take(i + 1).drop_last() =~= sv.take(i as int));
        }
        t.insert(songs[i].id.clone(), i);
        i = i + 1;
    }
    assert(sv.take(songs@.len() as int) =~= sv);
    t
}

fn artist_position_table(artists: &[Artist]) -> (t: Table<usize>)
    ensures
        t.wf(),
        forall|k: Seq<char>| #[trigger] t@.contains_key(k) == artist_positions(artist_views(artists@)).contains_key(k),
        forall|k: Seq<char>| #[trigger] t@.contains_key(k) ==> t@[k] as int == artist_positions(artist_views(artists@))[k],
{
    let ghost av = artist_views(artists@);
    let mut t: Table<usize> = Table::new();
    let mut i: usize = 0;
    while i < artists.len()
        invariant
            t.wf(),
            i <= artists@.len(),
            av == artist_views(artists@),
            forall|k: Seq<char>| #[trigger] t@.contains_key(k) == artist_positions(av.take(i as int)).contains_key(k),
            forall|k: Seq<char>| #[trigger] t@.contains_key(k) ==> t@[k] as int == artist_positions(av.take(i as int))[k],
        decreases artists@.len() - i,
    {
        proof {
            assert(av.take(i + 1).drop_last() =~= av.take(i as int));
        }
        t.insert(artists[i].id.clone(), i);
        i = i + 1;
    }
    assert(av.take(artists@.len() as int) =~= av);
    t
}

fn album_position_table(albums: &[Album]) -> (t: Table<usize>)
    ensures
        t.wf(),
        forall|k: Seq<char>| #[trigger] t@.contains_key(k) == album_positions(album_views(albums@)).contains_key(k),
        forall|k: Seq<char>| #[trigger] t@.contains_key(k) ==> t@[k] as int == album_positions(album_views(albums@))[k],
{
    let ghost bv = album_views(albums@);
    let mut t: Table<usize> = Table::new();
    let mut i: usize = 0;
    while i < albums.len()
        invariant
            t.wf(),
            i <= albums@.len(),
            bv == album_views(albums@),
            forall|k: Seq<char>| #[trigger] t@.contains_key(k) == album_positions(bv.take(i as int)).contains_key(k),
            forall|k: Seq<char>| #[trigger] t@.contains_key(k) ==> t@[k] as int == album_positions(bv.take(i as int))[k],
        decreases albums@.len() - i,
    {
        proof {
            assert(bv.take(i + 1).drop_last() =~= bv.take(i as int));
        }
        match &albums[i].id {
            Some(id) => {
                t.insert(id.clone(), i);
            },
            None => {},
        }
        i = i + 1;
    }
    assert(bv.take(albums@.len() as int) =~= bv);
    t
}


/// The facts a position table gives about the songs it indexes.
pub open spec fn song_positions_of(pos: Map<Seq<char>, usize>, sv: Seq<SongV>) -> bool {
    &&& forall|k: Seq<char>| #[trigger] pos.contains_key(k) == song_positions(sv).contains_key(k)
    &&& forall|k: Seq<char>| #[trigger] pos.contains_key(k) ==> pos[k] as int == song_positions(sv)[k]
}

fn add_songs_by_id(
    table: &mut Table<Song>,
    by_album: &mut PairSet,
    by_artist: &mut PairSet,
    favorites: &mut Table<String>,
    ids: &Vec<String>,
    songs: &[Song],
    pos: &Table<usize>,
    now: &str,
)
    requires
        old(table).wf(),
        old(by_album).wf(),
        old(by_artist).wf(),
        old(favorites).wf(),
        pos.wf(),
        song_positions_of(pos@, song_views(songs@)),
    ensures
        final(table).wf(),
        final(by_album).wf(),
        final(by_artist).wf(),
        final(favorites).wf(),
        final(table)@ == write_songs_by_id(old(table)@, views(ids@), song_views(songs@)),
        final(favorites)@ == mark_favorites_by_id(
            old(favorites)@,
            views(ids@),
            song_views(songs@),
            now@,
        ),
        final(by_album)@ == old(by_album)@.union(album_pairs_by_id(views(ids@), song_views(songs@))),
        final(by_artist)@ == old(by_artist)@.union(
            artist_pairs_by_id(views(ids@), song_views(songs@)),
        ),
{
    let ghost sv = song_views(songs@);
    let ghost iv = views(ids@);
    proof {
        lemma_song_positions(sv);
    }
    let mut i: usize = 0;
    while i < ids.len()
        invariant
            i <= ids@.len(),
            sv == song_views(songs@),
            iv == views(ids@),
            pos.wf(),
            song_positions_of(pos@, sv),
            forall|k: Seq<char>| #[trigger]
                song_positions(sv).contains_key(k) ==> 0 <= song_positions(sv)[k] < sv.len()
                    && sv[song_positions(sv)[k]].id@ == k,
            table.wf(),
            by_album.wf(),
            by_artist.wf(),
            favorites.wf(),
            table@ == write_songs_by_id(old(table)@, iv.take(i as int), sv),
            favorites@ == mark_favorites_by_id(old(favorites)@, iv.take(i as int), sv, now@),
            by_album@ == old(by_album)@.union(album_pairs_by_id(iv.take(i as int), sv)),
            by_artist@ == old(by_artist)@.union(artist_pairs_by_id(iv.take(i as int), sv)),
        decreases ids@.len() - i,
    {
        proof {
            assert(iv.take(i + 1).drop_last() =~= iv.take(i as int));
            assert(iv.take(i + 1).last() == ids@[i as int]@);
        }
        match pos.get(ids[i].as_str()) {
            Some(p) => {
                let p = *p;
                let song = &songs[p];
                assert(sv[p as int] == song@);
                table.insert(song.id.clone(), song.duplicate());
                index_song_album(by_album, song);
                index_song_artists(by_artist, song);
                if song.is_favorite == Some(true) {
                    favorites.insert(song.id.clone(), owned(now));
                }
                proof {
                    assert(old(by_album)@.union(album_pairs_by_id(iv.take(i as int), sv)).union(
                        song_album_pair(song@),
                    ) =~= old(by_album)@.union(album_pairs_by_id(iv.take(i + 1), sv)));
                    assert(old(by_artist)@.union(artist_pairs_by_id(iv.take(i as int), sv)).union(
                        song_artist_pairs(song@),
                    ) =~= old(by_artist)@.union(artist_pairs_by_id(iv.take(i + 1), sv)));
                }
            },
            None => {},
        }
        i = i + 1;
    }
    assert(iv.take(ids@.len() as int) =~= iv);
}

fn update_songs_by_id(table: &mut Table<Song>, ids: &Vec<String>, songs: &[Song], pos: &Table<usize>)
    requires
        old(table).wf(),
        pos.wf(),
        song_positions_of(pos@, song_views(songs@)),
    ensures
        final(table).wf(),
        final(table)@ == write_songs_by_id(old(table)@, views(ids@), song_views(songs@)),
{
    let ghost sv = song_views(songs@);
    let ghost iv = views(ids@);
    proof {
        lemma_song_positions(sv);
    }
    let mut i: usize = 0;
    while i < ids.len()
        invariant
            i <= ids@.len(),
            sv == song_views(songs@),
            iv == views(ids@),
            pos.wf(),
            song_positions_of(pos@, sv),
            forall|k: Seq<char>| #[trigger]
                song_positions(sv).contains_key(k) ==> 0 <= song_positions(sv)[k] < sv.len()
                    && sv[song_positions(sv)[k]].id@ == k,
            table.wf(),
            table@ == write_songs_by_id(old(table)@, iv.take(i as int), sv),
        decreases ids@.len() - i,
    {
        proof {
            assert(iv.take(i + 1).drop_last() =~= iv.take(i as int));
            assert(iv.take(i + 1).last() == ids@[i as int]@);
        }
        match pos.get(ids[i].as_str()) {
            Some(p) => {
                let p = *p;
                let song = &songs[p];
                assert(sv[p as int] == song@);
                table.insert(song.id.clone(), song.duplicate());
            },
            None => {},
        }
        i = i + 1;
    }
    assert(iv.take(ids@.len() as int) =~= iv);
}

fn add_artists_by_id(table: &mut Table<Artist>, ids: &Vec<String>, artists: &[Artist], pos: &Table<usize>)
    requires
        old(table).wf(),
        pos.wf(),
        forall|k: Seq<char>| #[trigger] pos@.contains_key(k) == artist_positions(artist_views(artists@)).contains_key(k),
        forall|k: Seq<char>| #[trigger] pos@.contains_key(k) ==> pos@[k] as int == artist_positions(artist_views(artists@))[k],
    ensures
        final(table).wf(),
        final(table)@ == write_artists_by_id(old(table)@, views(ids@), artist_views(artists@)),
{
    let ghost av = artist_views(artists@);
    let ghost iv = views(ids@);
    proof {
        lemma_artist_positions(av);
    }
    let mut i: usize = 0;
    while i < ids.len()
        invariant
            i <= ids@.len(),
            av == artist_views(artists@),
            iv == views(ids@),
            pos.wf(),
            forall|k: Seq<char>| #[trigger] pos@.contains_key(k) == artist_positions(av).contains_key(k),
            forall|k: Seq<char>| #[trigger] pos@.contains_key(k) ==> pos@[k] as int == artist_positions(av)[k],
            forall|k: Seq<char>| #[trigger]
                artist_positions(av).contains_key(k) ==> 0 <= artist_positions(av)[k] < av.len()
                    && av[artist_positions(av)[k]].id@ == k,
            table.wf(),
            table@ == write_artists_by_id(old(table)@, iv.take(i as int), av),
        decreases ids@.len() - i,
    {
        proof {
            assert(iv.take(i + 1).drop_last() =~= iv.take(i as int));
            assert(iv.take(i + 1).last() == ids@[i as int]@);
        }
        match pos.get(ids[i].as_str()) {
            Some(p) => {
                let p = *p;
                let artist = &artists[p];
                assert(av[p as int] == artist@);
                table.insert(artist.id.clone(), artist.duplicate());
            },
            None => {},
        }
        i = i + 1;
    }
    assert(iv.take(ids@.len() as int) =~= iv);
}

fn add_albums_by_id(table: &mut Table<Album>, ids: &Vec<String>, albums: &[Album], pos: &Table<usize>)
    requires
        old(table).wf(),
        pos.wf(),
        forall|k: Seq<char>| #[trigger] pos@.contains_key(k) == album_positions(album_views(albums@)).contains_key(k),
        forall|k: Seq<char>| #[trigger] pos@.contains_key(k) ==> pos@[k] as int == album_positions(album_views(albums@))[k],
    ensures
        final(table).wf(),
        final(table)@ == write_albums_by_id(old(table)@, views(ids@), album_views(albums@)),
{
    let ghost bv = album_views(albums@);
    let ghost iv = views(ids@);
    proof {
        lemma_album_positions(bv);
    }
    let mut i: usize = 0;
    while i < ids.len()
        invariant
            i <= ids@.len(),
            bv == album_views(albums@),
            iv == views(ids@),
            pos.wf(),
            forall|k: Seq<char>| #[trigger] pos@.contains_key(k) == album_positions(bv).contains_key(k),
            forall|k: Seq<char>| #[trigger] pos@.contains_key(k) ==> pos@[k] as int == album_positions(bv)[k],
            forall|k: Seq<char>| #[trigger]
                album_positions(bv).contains_key(k) ==> 0 <= album_positions(bv)[k] < bv.len(),
            table.wf(),
            table@ == write_albums_by_id(old(table)@, iv.take(i as int), bv),
        decreases ids@.len() - i,
    {
        proof {
            assert(iv.take(i + 1).drop_last() =~= iv.take(i as int));
            assert(iv.take(i + 1).last() == ids@[i as int]@);
        }
        match pos.get(ids[i].as_str()) {
            Some(p) => {
                let p = *p;
                let album = &albums[p];
                assert(bv[p as int] == album@);
                table.insert(ids[i].clone(), album.duplicate());
            },
            None => {},
        }
        i = i + 1;
    }
    assert(iv.take(ids@.len() as int) =~= iv);
}

fn remove_ids<V: View>(table: &mut Table<V>, ids: &Vec<String>)
    requires
        old(table).wf(),
    ensures
        final(table).wf(),
        final(table)@ == remove_keys(old(table)@, views(ids@)),
{
    let ghost iv = views(ids@);
    let mut i: usize = 0;
    while i < ids.len()
        invariant
            i <= ids@.len(),
            iv == views(ids@),
            table.wf(),
            table@ == remove_keys(old(table)@, iv.take(i as int)),
        decreases ids@.len() - i,
    {
        proof {
            assert(iv.take(i + 1).drop_last() =~= iv.take(i as int));
            assert(iv.take(i + 1).last() == ids@[i as int]@);
        }
        table.remove(ids[i].as_str());
        i = i + 1;
    }
    assert(iv.take(ids@.len() as int) =~= iv);
}


/// `new` is `old` after applying the id lists `l` (laid out as
/// `delta_lists` lays out a delta) with the remote lists `sv`, `av`, `bv`
/// at time `now`.
pub open spec fn applied_lists(
    new: LibraryDatabase,
    old: LibraryDatabase,
    l: Seq<Seq<Seq<char>>>,
    sv: Seq<SongV>,
    av: Seq<ArtistV>,
    bv: Seq<AlbumV>,
    now: Seq<char>,
) -> bool {
    &&& new.songs@ == remove_keys(
        write_songs_by_id(write_songs_by_id(old.songs@, l[0], sv), l[2], sv),
        l[1],
    )
    &&& new.favorites@ == remove_keys(mark_favorites_by_id(old.favorites@, l[0], sv, now), l[1])
    &&& new.songs_by_album@ == old.songs_by_album@.union(album_pairs_by_id(l[0], sv))
    &&& new.songs_by_artist@ == old.songs_by_artist@.union(artist_pairs_by_id(l[0], sv))
    &&& new.artists@ == remove_keys(write_artists_by_id(old.artists@, l[3], av), l[4])
    &&& new.albums@ == remove_keys(write_albums_by_id(old.albums@, l[6], bv), l[7])
    &&& new.albums_by_artist == old.albums_by_artist
    &&& new.credentials == old.credentials
    &&& new.settings == old.settings
    &&& new.songs@.dom().finite()
    &&& new.artists@.dom().finite()
    &&& new.albums@.dom().finite()
    &&& new.sync_state matches Some(st)
    &&& forall|p: SyncState|
        state_or_default(old, p) ==> synced_state(
            st,
            p,
            false,
            now,
            new.songs@.dom().len() as u32,
            new.artists@.dom().len() as u32,
            new.albums@.dom().len() as u32,
        )
}

/// `new` is `old` after applying delta `d` with the remote lists `sv`,
/// `av`, `bv` at time `now`.
pub open spec fn applied_delta(
    new: LibraryDatabase,
    old: LibraryDatabase,
    d: SyncDelta,
    sv: Seq<SongV>,
    av: Seq<ArtistV>,
    bv: Seq<AlbumV>,
    now: Seq<char>,
) -> bool {
    applied_lists(new, old, crate::domain::delta_lists(d), sv, av, bv, now)
}

/// The id lists of the delta from the tables of `db` to the remote lists,
/// laid out as `delta_lists` lays out a delta.
pub open spec fn remote_delta(
    db: LibraryDatabase,
    rs: Seq<SongV>,
    ra: Seq<ArtistV>,
    rb: Seq<AlbumV>,
) -> Seq<Seq<Seq<char>>> {
    seq![
        new_song_ids(db.songs@, rs),
        missing_keys(db.songs.key_seq(), song_id_set(rs)),
        changed_song_ids(db.songs@, rs),
        new_artist_ids(db.artists@.dom(), ra),
        missing_keys(db.artists.key_seq(), artist_id_set(ra)),
        Seq::<Seq<char>>::empty(),
        new_album_ids(db.albums@.dom(), rb),
        missing_keys(db.albums.key_seq(), album_id_set(rb)),
        Seq::<Seq<char>>::empty(),
    ]
}

/// Every list is empty.
pub open spec fn lists_empty(l: Seq<Seq<Seq<char>>>) -> bool {
    forall|i: int| 0 <= i < l.len() ==> #[trigger] l[i].len() == 0
}

/// The number of ids over the nine lists.
pub open spec fn lists_total(l: Seq<Seq<Seq<char>>>) -> int {
    (l[0].len() as int) + l[1].len() + l[2].len() + l[3].len() + l[4].len() + l[5].len() + l[6].len()
        + l[7].len() + l[8].len()
}

/// A computed delta lists exactly the remote delta.
pub proof fn lemma_delta_lists(
    d: SyncDelta,
    db: LibraryDatabase,
    rs: Seq<SongV>,
    ra: Seq<ArtistV>,
    rb: Seq<AlbumV>,
)
    requires
        is_delta(d, db, rs, ra, rb),
    ensures
        crate::domain::delta_lists(d) == remote_delta(db, rs, ra, rb),
        crate::domain::delta_is_empty(d) == lists_empty(remote_delta(db, rs, ra, rb)),
        crate::domain::delta_size(d) == lists_total(remote_delta(db, rs, ra, rb)),
{
    let l = remote_delta(db, rs, ra, rb);
    assert(views(d.artists_to_update@) =~= l[5]);
    assert(views(d.albums_to_update@) =~= l[8]);
    assert(crate::domain::delta_lists(d) =~= l);
    if lists_empty(l) {
        assert(l[0].len() == 0 && l[1].len() == 0 && l[2].len() == 0);
        assert(l[3].len() == 0 && l[4].len() == 0 && l[6].len() == 0 && l[7].len() == 0);
    }
}

/// `after` is `before` after an incremental sync with the remote lists at
/// time `now`: the remote delta is applied, and an empty one changes nothing.
pub open spec fn incremental_synced(
    after: LibraryDatabase,
    before: LibraryDatabase,
    rs: Seq<SongV>,
    ra: Seq<ArtistV>,
    rb: Seq<AlbumV>,
    now: Seq<char>,
) -> bool {
    let l = remote_delta(before, rs, ra, rb);
    if lists_empty(l) {
        after == before
    } else {
        applied_lists(after, before, l, rs, ra, rb, now)
    }
}

/// A key set holding the given ids.
pub fn id_table(ids: &[String]) -> (t: Table<()>)
    ensures
        t.wf(),
        t@.dom() == views(ids@).to_set(),
{
    let mut t: Table<()> = Table::new();
    let mut i: usize = 0;
    while i < ids.len()
        invariant
            t.wf(),
            i <= ids@.len(),
            t@.dom() == views(ids@.take(i as int)).to_set(),
        decreases ids@.len() - i,
    {
        t.insert(ids[i].clone(), ());
        proof {
            let a = views(ids@.take(i as int));
            let b = views(ids@.take(i + 1));
            assert(b =~= a.push(ids@[i as int]@));
            assert forall|x: Seq<char>| #[trigger] b.contains(x) == (a.contains(x) || x == ids@[i as int]@) by {
                if a.contains(x) {
                    let j = choose|j: int| 0 <= j < a.len() && a[j] == x;
                    assert(b[j] == x);
                }
                if x == ids@[i as int]@ {
                    assert(b[i as int] == x);
                }
                if b.contains(x) {
                    let j = choose|j: int| 0 <= j < b.len() && b[j] == x;
                    if j < i {
                        assert(a[j] == x);
                    }
                }
            }
            assert(t@.dom() =~= b.to_set());
        }
        i = i + 1;
    }
    assert(ids@.take(ids@.len() as int) =~= ids@);
    t
}

/// `after` is `before` after writing the lists `sv`, `av`, `bv` with their
/// indexes at time `now` and recording the sync; a full sync first empties
/// the song, artist and album tables, their indexes and the favorites.
pub open spec fn library_synced(
    after: LibraryDatabase,
    before: LibraryDatabase,
    sv: Seq<SongV>,
    av: Seq<ArtistV>,
    bv: Seq<AlbumV>,
    full_sync: bool,
    now: Seq<char>,
) -> bool {
    let empty_pairs = Set::<(Seq<char>, Seq<char>)>::empty();
    &&& after.songs@ == put_songs(
        if full_sync { Map::empty() } else { before.songs@ },
        sv,
    )
    &&& after.artists@ == put_artists(
        if full_sync { Map::empty() } else { before.artists@ },
        av,
    )
    &&& after.albums@ == put_albums(
        if full_sync { Map::empty() } else { before.albums@ },
        bv,
    )
    &&& after.songs_by_album@ == (if full_sync { empty_pairs } else { before.songs_by_album@ }).union(
        album_pairs(sv),
    )
    &&& after.songs_by_artist@ == (if full_sync { empty_pairs } else { before.songs_by_artist@ }).union(
        artist_pairs(sv),
    )
    &&& after.albums_by_artist@ == (if full_sync { empty_pairs } else { before.albums_by_artist@ }).union(
        album_artist_pairs(bv),
    )
    &&& after.favorites@ == mark_favorites(
        if full_sync { Map::empty() } else { before.favorites@ },
        sv,
        now,
    )
    &&& after.sync_state matches Some(st)
    &&& forall|p: SyncState|
        state_or_default(before, p) ==> synced_state(
            st,
            p,
            full_sync,
            now,
            sv.len() as u32,
            av.len() as u32,
            bv.len() as u32,
        )
    &&& after.credentials == before.credentials
    &&& after.settings == before.settings
}

/// Handle on the library database: syncs it with the server's lists.
pub struct LibraryService {
    pub db: LibraryDatabase,
}

impl LibraryService {
    /// A service over `db`.
    pub fn new(db: LibraryDatabase) -> (s: LibraryService)
        ensures
            s.db == db,
    {
        LibraryService { db }
    }

    /// The stored sync state, or the initial state when none is stored.
    pub fn get_sync_state(&self) -> (st: SyncState)
        ensures
            state_or_default(self.db, st),
    {
        match &self.db.sync_state {
            Some(s) => s.duplicate(),
            None => SyncState::default(),
        }
    }

    /// Stores `state` as the sync state.
    pub fn update_sync_state(&mut self, state: SyncState)
        ensures
            final(self).db == (LibraryDatabase { sync_state: Some(state), ..old(self).db }),
    {
        self.db.sync_state = Some(state);
    }

    /// Empties the song, artist and album tables, their indexes and the
    /// favorites.
    pub fn clear_all_tables(&mut self)
        requires
            old(self).db.wf(),
        ensures
            final(self).db.wf(),
            final(self).db.songs@ == Map::<Seq<char>, SongV>::empty(),
            final(self).db.artists@ == Map::<Seq<char>, ArtistV>::empty(),
            final(self).db.albums@ == Map::<Seq<char>, AlbumV>::empty(),
            final(self).db.songs_by_album@ == Set::<(Seq<char>, Seq<char>)>::empty(),
            final(self).db.songs_by_artist@ == Set::<(Seq<char>, Seq<char>)>::empty(),
            final(self).db.albums_by_artist@ == Set::<(Seq<char>, Seq<char>)>::empty(),
            final(self).db.favorites@ == Map::<Seq<char>, Seq<char>>::empty(),
            final(self).db.sync_state == old(self).db.sync_state,
            final(self).db.credentials == old(self).db.credentials,
            final(self).db.settings == old(self).db.settings,
    {
        self.db.songs.clear();
        self.db.artists.clear();
        self.db.albums.clear();
        self.db.songs_by_album.clear();
        self.db.songs_by_artist.clear();
        self.db.albums_by_artist.clear();
        self.db.favorites.clear();
    }

    /// The number of songs, artists and albums stored.
    pub fn get_library_stats(&self) -> (r: (u32, u32, u32))
        requires
            self.db.wf(),
        ensures
            r.0 == self.db.songs@.dom().len() as u32,
            r.1 == self.db.artists@.dom().len() as u32,
            r.2 == self.db.albums@.dom().len() as u32,
            self.db.songs@.dom().finite(),
            self.db.artists@.dom().finite(),
            self.db.albums@.dom().finite(),
    {
        (self.db.songs.len() as u32, self.db.artists.len() as u32, self.db.albums.len() as u32)
    }

    /// Each song id with its modification date, as stored.
    pub fn get_local_songs_metadata(&self) -> (m: Table<Option<String>>)
        requires
            self.db.wf(),
        ensures
            m.wf(),
            m@ == Map::new(
                |k: Seq<char>| self.db.songs@.contains_key(k),
                |k: Seq<char>| self.db.songs@[k].date_modified,
            ),
    {
        let songs = &self.db.songs;
        let n = songs.len();
        let mut m: Table<Option<String>> = Table::new();
        let mut i: usize = 0;
        while i < n
            invariant
                n == songs.rows().len(),
                i <= n,
                songs.wf(),
                m.wf(),
                m.rows().len() == i,
                forall|j: int|
                    0 <= j < i ==> #[trigger] m.rows()[j] == (
                        songs.rows()[j].0,
                        songs.rows()[j].1.date_modified,
                    ),
            decreases n - i,
        {
            let k = songs.key_at(i);
            let v = songs.value_at(i);
            proof {
                assert forall|j: int| 0 <= j < m.rows().len() implies seq_lt(
                    #[trigger] m.rows()[j].0,
                    k@,
                ) by {
                    assert(seq_lt(songs.rows()[j].0, songs.rows()[i as int].0));
                }
            }
            m.push_last(k.clone(), v.date_modified.clone());
            i = i + 1;
        }
        proof {
            let target = Map::new(
                |k: Seq<char>| self.db.songs@.contains_key(k),
                |k: Seq<char>| self.db.songs@[k].date_modified,
            );
            assert forall|k: Seq<char>| #[trigger] m@.contains_key(k) == target.contains_key(k) by {
                lemma_rows_map_contains(m.rows(), k);
                lemma_rows_map_contains(songs.rows(), k);
                if m@.contains_key(k) {
                    let j = choose|j: int| 0 <= j < m.rows().len() && m.rows()[j].0 == k;
                    assert(songs.rows()[j].0 == k);
                }
                if target.contains_key(k) {
                    let j = choose|j: int| 0 <= j < songs.rows().len() && songs.rows()[j].0 == k;
                    assert(m.rows()[j].0 == k);
                }
            }
            assert forall|k: Seq<char>| #[trigger] m@.contains_key(k) implies m@[k] == target[k] by {
                lemma_rows_map_contains(m.rows(), k);
                let j = choose|j: int| 0 <= j < m.rows().len() && m.rows()[j].0 == k;
                lemma_rows_map_at(m.rows(), j);
                lemma_rows_map_at(songs.rows(), j);
            }
            assert(m@ =~= target);
        }
        m
    }

    /// The delta from the local tables to the remote lists: remote songs
    /// that are new or whose modification date differs, local songs the
    /// server no longer lists, and the same (without updates) for artists
    /// and for albums that have an id.
    pub fn compute_delta(
        &self,
        remote_songs: &[Song],
        remote_artists: &[Artist],
        remote_albums: &[Album],
    ) -> (d: SyncDelta)
        requires
            self.db.wf(),
        ensures
            is_delta(
                d,
                self.db,
                song_views(remote_songs@),
                artist_views(remote_artists@),
                album_views(remote_albums@),
            ),
    {
        let mut delta = SyncDelta::default();
        let local_songs = self.get_local_songs_metadata();
        let remote_song_ids = song_id_table(remote_songs);
        let remote_artist_ids = artist_id_table(remote_artists);
        let remote_album_ids = album_id_table(remote_albums);
        let ghost rs = song_views(remote_songs@);
        let ghost local = self.db.songs@;

        let mut i: usize = 0;
        while i < remote_songs.len()
            invariant
                i <= remote_songs@.len(),
                rs == song_views(remote_songs@),
                local == self.db.songs@,
                local_songs.wf(),
                local_songs@ == Map::new(
                    |k: Seq<char>| local.contains_key(k),
                    |k: Seq<char>| local[k].date_modified,
                ),
                views(delta.songs_to_add@) == new_song_ids(local, rs.take(i as int)),
                views(delta.songs_to_update@) == changed_song_ids(local, rs.take(i as int)),
                delta.songs_to_remove@.len() == 0,
                delta.artists_to_add@.len() == 0,
                delta.artists_to_remove@.len() == 0,
                delta.artists_to_update@.len() == 0,
                delta.albums_to_add@.len() == 0,
                delta.albums_to_remove@.len() == 0,
                delta.albums_to_update@.len() == 0,
            decreases remote_songs@.len() - i,
        {
            let song = &remote_songs[i];
            proof {
                assert(rs.take(i + 1).drop_last() =~= rs.take(i as int));
                assert(rs.take(i + 1).last() == song@);
            }
            match local_songs.get(song.id.as_str()) {
                Some(local_date) => {
                    if !opt_str_eq(local_date, &song.date_modified) {
                        delta.songs_to_update.push(song.id.clone());
                        assert(views(delta.songs_to_update@) =~= changed_song_ids(
                            local,
                            rs.take(i + 1),
                        ));
                    } else {
                        assert(views(delta.songs_to_update@) =~= changed_song_ids(
                            local,
                            rs.take(i + 1),
                        ));
                    }
                    assert(views(delta.songs_to_add@) =~= new_song_ids(local, rs.take(i + 1)));
                },
                None => {
                    delta.songs_to_add.push(song.id.clone());
                    assert(views(delta.songs_to_add@) =~= new_song_ids(local, rs.take(i + 1)));
                    assert(views(delta.songs_to_update@) =~= changed_song_ids(
                        local,
                        rs.take(i + 1),
                    ));
                },
            }
            i = i + 1;
        }
        assert(rs.take(remote_songs@.len() as int) =~= rs);
        delta.songs_to_remove = missing_from(&self.db.songs, &remote_song_ids);

        let ghost ra = artist_views(remote_artists@);
        let mut j: usize = 0;
        while j < remote_artists.len()
            invariant
                j <= remote_artists@.len(),
                ra == artist_views(remote_artists@),
                self.db.wf(),
                rs == song_views(remote_songs@),
                local == self.db.songs@,
                views(delta.songs_to_add@) == new_song_ids(local, rs),
                views(delta.songs_to_update@) == changed_song_ids(local, rs),
                views(delta.songs_to_remove@) == missing_keys(
                    self.db.songs.key_seq(),
                    song_id_set(rs),
                ),
                delta.artists_to_update@.len() == 0,
                delta.albums_to_update@.len() == 0,
                delta.albums_to_add@.len() == 0,
                delta.albums_to_remove@.len() == 0,
                views(delta.artists_to_add@) == new_artist_ids(
                    self.db.artists@.dom(),
                    ra.take(j as int),
                ),
            decreases remote_artists@.len() - j,
        {
            let artist = &remote_artists[j];
            proof {
                assert(ra.take(j + 1).drop_last() =~= ra.take(j as int));
                assert(ra.take(j + 1).last() == artist@);
            }
            if !self.db.artists.contains_key(artist.id.as_str()) {
                delta.artists_to_add.push(artist.id.clone());
            }
            assert(views(delta.artists_to_add@) =~= new_artist_ids(
                self.db.artists@.dom(),
                ra.take(j + 1),
            ));
            j = j + 1;
        }
        assert(ra.take(remote_artists@.len() as int) =~= ra);
        delta.artists_to_remove = missing_from(&self.db.artists, &remote_artist_ids);

        let ghost rb = album_views(remote_albums@);
        let mut k: usize = 0;
        while k < remote_albums.len()
            invariant
                k <= remote_albums@.len(),
                rb == album_views(remote_albums@),
                self.db.wf(),
                rs == song_views(remote_songs@),
                local == self.db.songs@,
                views(delta.songs_to_add@) == new_song_ids(local, rs),
                views(delta.songs_to_update@) == changed_song_ids(local, rs),
                views(delta.songs_to_remove@) == missing_keys(
                    self.db.songs.key_seq(),
                    song_id_set(rs),
                ),
                delta.artists_to_update@.len() == 0,
                delta.albums_to_update@.len() == 0,
                ra == artist_views(remote_artists@),
                views(delta.artists_to_add@) == new_artist_ids(self.db.artists@.dom(), ra),
                views(delta.artists_to_remove@) == missing_keys(
                    self.db.artists.key_seq(),
                    artist_id_set(ra),
                ),
                delta.albums_to_remove@.len() == 0,
                views(delta.albums_to_add@) == new_album_ids(
                    self.db.albums@.dom(),
                    rb.take(k as int),
                ),
            decreases remote_albums@.len() - k,
        {
            let album = &remote_albums[k];
            proof {
                assert(rb.take(k + 1).drop_last() =~= rb.take(k as int));
                assert(rb.take(k + 1).last() == album@);
            }
            match &album.id {
                Some(id) => {
                    if !self.db.albums.contains_key(id.as_str()) {
                        delta.albums_to_add.push(id.clone());
                    }
                },
                None => {},
            }
            assert(views(delta.albums_to_add@) =~= new_album_ids(
                self.db.albums@.dom(),
                rb.take(k + 1),
            ));
            k = k + 1;
        }
        assert(rb.take(remote_albums@.len() as int) =~= rb);
        delta.albums_to_remove = missing_from(&self.db.albums, &remote_album_ids);
        delta
    }

    /// Applies a computed delta: adds and updates the songs it names (from
    /// `songs`), removes the songs it lists for removal, does the same for
    /// artists and albums, and records the sync. An empty delta changes
    /// nothing.
    pub fn apply_delta(
        &mut self,
        delta: &SyncDelta,
        songs: &[Song],
        artists: &[Artist],
        albums: &[Album],
        now: &str,
    ) -> (report: SyncReport)
        requires
            old(self).db.wf(),
            delta.songs_to_add@.len() + delta.songs_to_update@.len() + delta.songs_to_remove@.len()
                <= usize::MAX,
            delta.artists_to_add@.len() + delta.artists_to_remove@.len() <= usize::MAX,
            delta.albums_to_add@.len() + delta.albums_to_remove@.len() <= usize::MAX,
        ensures
            final(self).db.wf(),
            crate::domain::delta_is_empty(*delta) ==> final(self).db == old(self).db && report == (
            SyncReport {
                full_sync: false,
                songs_updated: 0,
                artists_updated: 0,
                albums_updated: 0,
                duration_ms: 0,
            }),
            !crate::domain::delta_is_empty(*delta) ==> applied_delta(
                final(self).db,
                old(self).db,
                *delta,
                song_views(songs@),
                artist_views(artists@),
                album_views(albums@),
                now@,
            ) && report == (SyncReport {
                full_sync: false,
                songs_updated: (delta.songs_to_add@.len() + delta.songs_to_update@.len()
                    + delta.songs_to_remove@.len()) as u32,
                artists_updated: (delta.artists_to_add@.len()
                    + delta.artists_to_remove@.len()) as u32,
                albums_updated: (delta.albums_to_add@.len() + delta.albums_to_remove@.len()) as u32,
                duration_ms: 0,
            }),
    {
        if delta.is_empty() {
            return SyncReport {
                full_sync: false,
                songs_updated: 0,
                artists_updated: 0,
                albums_updated: 0,
                duration_ms: 0,
            };
        }
        let current_state = self.get_sync_state();
        let songs_map = song_position_table(songs);
        let artists_map = artist_position_table(artists);
        let albums_map = album_position_table(albums);

        add_songs_by_id(
            &mut self.db.songs,
            &mut self.db.songs_by_album,
            &mut self.db.songs_by_artist,
            &mut self.db.favorites,
            &delta.songs_to_add,
            songs,
            &songs_map,
            now,
        );
        update_songs_by_id(&mut self.db.songs, &delta.songs_to_update, songs, &songs_map);
        remove_ids(&mut self.db.songs, &delta.songs_to_remove);
        remove_ids(&mut self.db.favorites, &delta.songs_to_remove);

        add_artists_by_id(&mut self.db.artists, &delta.artists_to_add, artists, &artists_map);
        remove_ids(&mut self.db.artists, &delta.artists_to_remove);

        add_albums_by_id(&mut self.db.albums, &delta.albums_to_add, albums, &albums_map);
        remove_ids(&mut self.db.albums, &delta.albums_to_remove);

        let new_state = SyncState {
            last_sync_time: owned(now),
            last_full_sync_time: current_state.last_full_sync_time,
            last_sync_version: None,
            song_count: self.db.songs.len() as u32,
            artist_count: self.db.artists.len() as u32,
            album_count: self.db.albums.len() as u32,
            full_sync_in_progress: false,
            full_sync_last_page_index: 0,
            full_sync_entity_type: None,
        };
        self.db.sync_state = Some(new_state);
        SyncReport {
            full_sync: false,
            songs_updated: (delta.songs_to_add.len() + delta.songs_to_update.len()
                + delta.songs_to_remove.len()) as u32,
            artists_updated: (delta.artists_to_add.len() + delta.artists_to_remove.len()) as u32,
            albums_updated: (delta.albums_to_add.len() + delta.albums_to_remove.len()) as u32,
            duration_ms: 0,
        }
    }

    /// Upserts songs with their indexes: each favorite song is marked with
    /// `now`, each other song is unmarked. Returns the number of songs
    /// given.
    pub fn upsert_songs(&mut self, songs: &[Song], now: &str) -> (n: u32)
        requires
            old(self).db.wf(),
        ensures
            final(self).db.wf(),
            final(self).db.songs@ == put_songs(old(self).db.songs@, song_views(songs@)),
            final(self).db.songs_by_album@ == old(self).db.songs_by_album@.union(
                album_pairs(song_views(songs@)),
            ),
            final(self).db.songs_by_artist@ == old(self).db.songs_by_artist@.union(
                artist_pairs(song_views(songs@)),
            ),
            final(self).db.favorites@ == refresh_favorites(
                old(self).db.favorites@,
                song_views(songs@),
                now@,
            ),
            final(self).db == (LibraryDatabase {
                songs: final(self).db.songs,
                songs_by_album: final(self).db.songs_by_album,
                songs_by_artist: final(self).db.songs_by_artist,
                favorites: final(self).db.favorites,
                ..old(self).db
            }),
            n == songs@.len() as u32,
    {
        let ghost sv = song_views(songs@);
        let ghost db0 = self.db;
        if songs.len() == 0 {
            assert(sv.take(0) =~= sv);
            assert(db0.songs_by_album@.union(album_pairs(sv)) =~= db0.songs_by_album@);
            assert(db0.songs_by_artist@.union(artist_pairs(sv)) =~= db0.songs_by_artist@);
            return 0;
        }
        let mut i: usize = 0;
        while i < songs.len()
            invariant
                self.db.wf(),
                i <= songs@.len(),
                sv == song_views(songs@),
                self.db.songs@ == put_songs(db0.songs@, sv.take(i as int)),
                self.db.songs_by_album@ == db0.songs_by_album@.union(album_pairs(sv.take(i as int))),
                self.db.songs_by_artist@ == db0.songs_by_artist@.union(
                    artist_pairs(sv.take(i as int)),
                ),
                self.db.favorites@ == refresh_favorites(db0.favorites@, sv.take(i as int), now@),
                self.db == (LibraryDatabase {
                    songs: self.db.songs,
                    songs_by_album: self.db.songs_by_album,
                    songs_by_artist: self.db.songs_by_artist,
                    favorites: self.db.favorites,
                    ..db0
                }),
            decreases songs@.len() - i,
        {
            let song = &songs[i];
            proof {
                assert(sv.take(i + 1).drop_last() =~= sv.take(i as int));
                assert(sv.take(i + 1).last() == song@);
            }
            self.db.songs.insert(song.id.clone(), song.duplicate());
            index_song_album(&mut self.db.songs_by_album, song);
            index_song_artists(&mut self.db.songs_by_artist, song);
            if song.is_favorite == Some(true) {
                self.db.favorites.insert(song.id.clone(), owned(now));
            } else {
                self.db.favorites.remove(song.id.as_str());
            }
            proof {
                assert(db0.songs_by_album@.union(album_pairs(sv.take(i as int))).union(
                    song_album_pair(song@),
                ) =~= db0.songs_by_album@.union(album_pairs(sv.take(i + 1))));
                assert(db0.songs_by_artist@.union(artist_pairs(sv.take(i as int))).union(
                    song_artist_pairs(song@),
                ) =~= db0.songs_by_artist@.union(artist_pairs(sv.take(i + 1))));
            }
            i = i + 1;
        }
        assert(sv.take(songs@.len() as int) =~= sv);
        songs.len() as u32
    }

    /// Upserts albums, each under its key, with the artist index. Returns
    /// the number of albums given.
    pub fn upsert_albums(&mut self, albums: &[Album]) -> (n: u32)
        requires
            old(self).db.wf(),
        ensures
            final(self).db.wf(),
            final(self).db.albums@ == put_albums(old(self).db.albums@, album_views(albums@)),
            final(self).db.albums_by_artist@ == old(self).db.albums_by_artist@.union(
                album_artist_pairs(album_views(albums@)),
            ),
            final(self).db == (LibraryDatabase {
                albums: final(self).db.albums,
                albums_by_artist: final(self).db.albums_by_artist,
                ..old(self).db
            }),
            n == albums@.len() as u32,
    {
        let ghost bv = album_views(albums@);
        let ghost db0 = self.db;
        let mut k: usize = 0;
        while k < albums.len()
            invariant
                self.db.wf(),
                k <= albums@.len(),
                bv == album_views(albums@),
                self.db.albums@ == put_albums(db0.albums@, bv.take(k as int)),
                self.db.albums_by_artist@ == db0.albums_by_artist@.union(
                    album_artist_pairs(bv.take(k as int)),
                ),
                self.db == (LibraryDatabase {
                    albums: self.db.albums,
                    albums_by_artist: self.db.albums_by_artist,
                    ..db0
                }),
            decreases albums@.len() - k,
        {
            let album = &albums[k];
            proof {
                assert(bv.take(k + 1).drop_last() =~= bv.take(k as int));
                assert(bv.take(k + 1).last() == album@);
            }
            let key = album_storage_key(album);
            index_album_artist(&mut self.db.albums_by_artist, album, &key);
            self.db.albums.insert(key, album.duplicate());
            proof {
                assert(db0.albums_by_artist@.union(album_artist_pairs(bv.take(k as int))).union(
                    album_artist_pair(album@),
                ) =~= db0.albums_by_artist@.union(album_artist_pairs(bv.take(k + 1))));
            }
            k = k + 1;
        }
        assert(bv.take(albums@.len() as int) =~= bv);
        assert(db0.albums_by_artist@.union(album_artist_pairs(bv.take(0))) =~= db0.albums_by_artist@);
        albums.len() as u32
    }

    /// Upserts artists. Returns the number of artists given.
    pub fn upsert_artists(&mut self, artists: &[Artist]) -> (n: u32)
        requires
            old(self).db.wf(),
        ensures
            final(self).db.wf(),
            final(self).db.artists@ == put_artists(old(self).db.artists@, artist_views(artists@)),
            final(self).db == (LibraryDatabase { artists: final(self).db.artists, ..old(self).db }),
            n == artists@.len() as u32,
    {
        let ghost av = artist_views(artists@);
        let ghost db0 = self.db;
        let mut j: usize = 0;
        while j < artists.len()
            invariant
                self.db.wf(),
                j <= artists@.len(),
                av == artist_views(artists@),
                self.db.artists@ == put_artists(db0.artists@, av.take(j as int)),
                self.db == (LibraryDatabase { artists: self.db.artists, ..db0 }),
            decreases artists@.len() - j,
        {
            let artist = &artists[j];
            proof {
                assert(av.take(j + 1).drop_last() =~= av.take(j as int));
                assert(av.take(j + 1).last() == artist@);
            }
            self.db.artists.insert(artist.id.clone(), artist.duplicate());
            j = j + 1;
        }
        assert(av.take(artists@.len() as int) =~= av);
        artists.len() as u32
    }

    /// Removes the songs whose ids are not among `valid_remote_ids`, and
    /// their favorite marks. Returns the number removed.
    pub fn remove_deleted_songs(&mut self, valid_remote_ids: &[String]) -> (n: u32)
        requires
            old(self).db.wf(),
        ensures
            final(self).db.wf(),
            ({
                let valid = views(valid_remote_ids@).to_set();
                let gone = missing_keys(old(self).db.songs.key_seq(), valid);
                &&& final(self).db.songs@ == old(self).db.songs@.restrict(valid)
                &&& final(self).db.favorites@ == old(self).db.favorites@.remove_keys(
                    old(self).db.songs@.dom().difference(valid),
                )
                &&& n == gone.len() as u32
                &&& gone.len() == old(self).db.songs@.dom().difference(valid).len()
            }),
            final(self).db == (LibraryDatabase {
                songs: final(self).db.songs,
                favorites: final(self).db.favorites,
                ..old(self).db
            }),
    {
        let valid = id_table(valid_remote_ids);
        let to_remove = missing_from(&self.db.songs, &valid);
        proof {
            crate::convergence::lemma_remove_missing(self.db.songs, views(valid_remote_ids@).to_set());
            crate::convergence::lemma_missing_count(self.db.songs, views(valid_remote_ids@).to_set());
            crate::convergence::lemma_remove_keys_set(self.db.favorites@, views(to_remove@));
        }
        remove_ids(&mut self.db.songs, &to_remove);
        remove_ids(&mut self.db.favorites, &to_remove);
        to_remove.len() as u32
    }

    /// Removes the albums whose ids are not among `valid_remote_ids`.
    /// Returns the number removed.
    pub fn remove_deleted_albums(&mut self, valid_remote_ids: &[String]) -> (n: u32)
        requires
            old(self).db.wf(),
        ensures
            final(self).db.wf(),
            ({
                let valid = views(valid_remote_ids@).to_set();
                let gone = missing_keys(old(self).db.albums.key_seq(), valid);
                &&& final(self).db.albums@ == old(self).db.albums@.restrict(valid)
                &&& n == gone.len() as u32
                &&& gone.len() == old(self).db.albums@.dom().difference(valid).len()
            }),
            final(self).db == (LibraryDatabase { albums: final(self).db.albums, ..old(self).db }),
    {
        let valid = id_table(valid_remote_ids);
        let to_remove = missing_from(&self.db.albums, &valid);
        proof {
            crate::convergence::lemma_remove_missing(self.db.albums, views(valid_remote_ids@).to_set());
            crate::convergence::lemma_missing_count(self.db.albums, views(valid_remote_ids@).to_set());
        }
        remove_ids(&mut self.db.albums, &to_remove);
        to_remove.len() as u32
    }

    /// Removes the artists whose ids are not among `valid_remote_ids`.
    /// Returns the number removed.
    pub fn remove_deleted_artists(&mut self, valid_remote_ids: &[String]) -> (n: u32)
        requires
            old(self).db.wf(),
        ensures
            final(self).db.wf(),
            ({
                let valid = views(valid_remote_ids@).to_set();
                let gone = missing_keys(old(self).db.artists.key_seq(), valid);
                &&& final(self).db.artists@ == old(self).db.artists@.restrict(valid)
                &&& n == gone.len() as u32
                &&& gone.len() == old(self).db.artists@.dom().difference(valid).len()
            }),
            final(self).db == (LibraryDatabase { artists: final(self).db.artists, ..old(self).db }),
    {
        let valid = id_table(valid_remote_ids);
        let to_remove = missing_from(&self.db.artists, &valid);
        proof {
            crate::convergence::lemma_remove_missing(self.db.artists, views(valid_remote_ids@).to_set());
            crate::convergence::lemma_missing_count(self.db.artists, views(valid_remote_ids@).to_set());
        }
        remove_ids(&mut self.db.artists, &to_remove);
        to_remove.len() as u32
    }

    /// Writes the given songs, artists and albums with their indexes, and
    /// records the sync. A full sync first empties the song, artist and
    /// album tables, their indexes and the favorites.
    pub fn sync_library(
        &mut self,
        songs: &[Song],
        artists: &[Artist],
        albums: &[Album],
        full_sync: bool,
        now: &str,
    ) -> (report: SyncReport)
        requires
            old(self).db.wf(),
        ensures
            final(self).db.wf(),
            library_synced(
                final(self).db,
                old(self).db,
                song_views(songs@),
                artist_views(artists@),
                album_views(albums@),
                full_sync,
                now@,
            ),
            report == (SyncReport {
                full_sync,
                songs_updated: songs@.len() as u32,
                artists_updated: artists@.len() as u32,
                albums_updated: albums@.len() as u32,
                duration_ms: 0,
            }),
    {
        let current_state = self.get_sync_state();
        if full_sync {
            self.clear_all_tables();
        }
        let ghost db0 = self.db;
        let ghost s0 = self.db.songs@;
        let ghost a0 = self.db.songs_by_album@;
        let ghost r0 = self.db.songs_by_artist@;
        let ghost f0 = self.db.favorites@;
        let ghost sv = song_views(songs@);
        let mut i: usize = 0;
        while i < songs.len()
            invariant
                self.db.wf(),
                i <= songs@.len(),
                sv == song_views(songs@),
                self.db.songs@ == put_songs(s0, sv.take(i as int)),
                self.db.songs_by_album@ == a0.union(album_pairs(sv.take(i as int))),
                self.db.songs_by_artist@ == r0.union(artist_pairs(sv.take(i as int))),
                self.db.favorites@ == mark_favorites(f0, sv.take(i as int), now@),
                self.db.artists == db0.artists,
                self.db.albums == db0.albums,
                self.db.albums_by_artist == db0.albums_by_artist,
                self.db.sync_state == old(self).db.sync_state,
                self.db.credentials == old(self).db.credentials,
                self.db.settings == old(self).db.settings,
            decreases songs@.len() - i,
        {
            let song = &songs[i];
            proof {
                assert(sv.take(i + 1).drop_last() =~= sv.take(i as int));
                assert(sv.take(i + 1).last() == song@);
            }
            self.db.songs.insert(song.id.clone(), song.duplicate());
            index_song_album(&mut self.db.songs_by_album, song);
            index_song_artists(&mut self.db.songs_by_artist, song);
            if song.is_favorite == Some(true) {
                self.db.favorites.insert(song.id.clone(), owned(now));
            }
            proof {
                assert(a0.union(album_pairs(sv.take(i as int))).union(song_album_pair(song@))
                    =~= a0.union(album_pairs(sv.take(i + 1))));
                assert(r0.union(artist_pairs(sv.take(i as int))).union(song_artist_pairs(song@))
                    =~= r0.union(artist_pairs(sv.take(i + 1))));
            }
            i = i + 1;
        }
        assert(sv.take(songs@.len() as int) =~= sv);

        let ghost t0 = self.db.artists@;
        let ghost av = artist_views(artists@);
        let mut j: usize = 0;
        while j < artists.len()
            invariant
                self.db.wf(),
                j <= artists@.len(),
                av == artist_views(artists@),
                self.db.artists@ == put_artists(t0, av.take(j as int)),
                self.db.songs@ == put_songs(s0, sv),
                self.db.songs_by_album@ == a0.union(album_pairs(sv)),
                self.db.songs_by_artist@ == r0.union(artist_pairs(sv)),
                self.db.favorites@ == mark_favorites(f0, sv, now@),
                self.db.albums == db0.albums,
                self.db.albums_by_artist == db0.albums_by_artist,
                self.db.sync_state == old(self).db.sync_state,
                self.db.credentials == old(self).db.credentials,
                self.db.settings == old(self).db.settings,
            decreases artists@.len() - j,
        {
            let artist = &artists[j];
            proof {
                assert(av.take(j + 1).drop_last() =~= av.take(j as int));
                assert(av.take(j + 1).last() == artist@);
            }
            self.db.artists.insert(artist.id.clone(), artist.duplicate());
            j = j + 1;
        }
        assert(av.take(artists@.len() as int) =~= av);

        let ghost b0 = self.db.albums@;
        let ghost x0 = self.db.albums_by_artist@;
        let ghost bv = album_views(albums@);
        let mut k: usize = 0;
        while k < albums.len()
            invariant
                self.db.wf(),
                k <= albums@.len(),
                bv == album_views(albums@),
                self.db.albums@ == put_albums(b0, bv.take(k as int)),
                self.db.albums_by_artist@ == x0.union(album_artist_pairs(bv.take(k as int))),
                self.db.artists@ == put_artists(t0, av),
                self.db.songs@ == put_songs(s0, sv),
                self.db.songs_by_album@ == a0.union(album_pairs(sv)),
                self.db.songs_by_artist@ == r0.union(artist_pairs(sv)),
                self.db.favorites@ == mark_favorites(f0, sv, now@),
                self.db.sync_state == old(self).db.sync_state,
                self.db.credentials == old(self).db.credentials,
                self.db.settings == old(self).db.settings,
            decreases albums@.len() - k,
        {
            let album = &albums[k];
            proof {
                assert(bv.take(k + 1).drop_last() =~= bv.take(k as int));
                assert(bv.take(k + 1).last() == album@);
            }
            let key = album_storage_key(album);
            index_album_artist(&mut self.db.albums_by_artist, album, &key);
            self.db.albums.insert(key, album.duplicate());
            proof {
                assert(x0.union(album_artist_pairs(bv.take(k as int))).union(
                    album_artist_pair(album@),
                ) =~= x0.union(album_artist_pairs(bv.take(k + 1))));
            }
            k = k + 1;
        }
        assert(bv.take(albums@.len() as int) =~= bv);

        let sync_time = owned(now);
        let full_time = if full_sync {
            Some(sync_time.clone())
        } else {
            current_state.last_full_sync_time
        };
        let new_state = SyncState {
            last_sync_time: sync_time,
            last_full_sync_time: full_time,
            last_sync_version: None,
            song_count: songs.len() as u32,
            artist_count: artists.len() as u32,
            album_count: albums.len() as u32,
            full_sync_in_progress: false,
            full_sync_last_page_index: 0,
            full_sync_entity_type: None,
        };
        self.db.sync_state = Some(new_state);
        SyncReport {
            full_sync,
            songs_updated: songs.len() as u32,
            artists_updated: artists.len() as u32,
            albums_updated: albums.len() as u32,
            duration_ms: 0,
        }
    }
}

} // verus!
