//! Song and artist repositories: single-entity reads and writes on the
//! library tables.
use vstd::prelude::*;
use crate::models::{Artist, ArtistV, Duplicate, Song, SongV};
use crate::store::{LibraryDatabase, song_album_pair, song_artist_pairs};
use crate::table::{PairSet, Table, lemma_rows_map_at};
use crate::text::owned;

verus! {

/// The keys of `keys` (in order) that are in `s`.
pub open spec fn kept_keys(keys: Seq<Seq<char>>, s: Set<Seq<char>>) -> Seq<Seq<char>>
    decreases keys.len(),
{
    if keys.len() == 0 {
        seq![]
    } else {
        let r = kept_keys(keys.drop_last(), s);
        if s.contains(keys.last()) {
            r.push(keys.last())
        } else {
            r
        }
    }
}

/// The second keys paired with `a` in a set of pairs.
pub open spec fn paired_with(pairs: Set<(Seq<char>, Seq<char>)>, a: Seq<char>) -> Set<Seq<char>> {
    Set::new(|k: Seq<char>| pairs.contains((a, k)))
}

/// The values stored under `keys`, in order.
pub open spec fn values_at<W>(m: Map<Seq<char>, W>, keys: Seq<Seq<char>>) -> Seq<W> {
    keys.map_values(|k: Seq<char>| m[k])
}

/// A song with its favorite flag set to `fav`.
pub open spec fn with_favorite(s: SongV, fav: bool) -> SongV {
    SongV { is_favorite: Some(fav), ..s }
}

/// The songs table and favorites after setting the favorite flag of song
/// `id` to `fav` at time `now`: the song (if stored) gets the flag, and the
/// favorites mark it with `now` or drop it.
pub open spec fn favorite_set(
    after: LibraryDatabase,
    before: LibraryDatabase,
    id: Seq<char>,
    fav: bool,
    now: Seq<char>,
) -> bool {
    &&& after.songs@ == (if before.songs@.contains_key(id) {
        before.songs@.insert(id, with_favorite(before.songs@[id], fav))
    } else {
        before.songs@
    })
    &&& after.favorites@ == (if fav {
        before.favorites@.insert(id, now)
    } else {
        before.favorites@.remove(id)
    })
    &&& after == (LibraryDatabase { songs: after.songs, favorites: after.favorites, ..before })
}

/// Sets the favorite flag of song `song_id` and marks or unmarks it in the
/// favorites.
pub fn set_song_favorite(db: &mut LibraryDatabase, song_id: &str, is_favorite: bool, now: &str)
    requires
        old(db).wf(),
    ensures
        final(db).wf(),
        favorite_set(*final(db), *old(db), song_id@, is_favorite, now@),
{
    let found = match db.songs.get(song_id) {
        Some(song) => {
            let mut s = song.duplicate();
            s.is_favorite = Some(is_favorite);
            Some(s)
        },
        None => None,
    };
    match found {
        Some(s) => {
            assert(s@ == with_favorite(old(db).songs@[song_id@], is_favorite));
            db.songs.insert(owned(song_id), s);
        },
        None => {},
    }
    if is_favorite {
        db.favorites.insert(owned(song_id), owned(now));
    } else {
        db.favorites.remove(song_id);
    }
}

/// Copies of the songs of `songs` paired with `a` in `index`, in song id
/// order.
fn songs_paired_with(songs: &Table<Song>, index: &PairSet, a: &str) -> (r: Vec<Song>)
    requires
        songs.wf(),
    ensures
        r@.map_values(|s: Song| s@) == values_at(
            songs@,
            kept_keys(songs.key_seq(), paired_with(index@, a@)),
        ),
{
    let n = songs.len();
    let ghost keys = songs.key_seq();
    let ghost p = paired_with(index@, a@);
    let mut r: Vec<Song> = Vec::new();
    let mut i: usize = 0;
    while i < n
        invariant
            n == songs.rows().len(),
            keys == songs.key_seq(),
            p == paired_with(index@, a@),
            songs.wf(),
            i <= n,
            r@.map_values(|s: Song| s@) == values_at(songs@, kept_keys(keys.take(i as int), p)),
        decreases n - i,
    {
        let k = songs.key_at(i);
        proof {
            assert(keys.take(i + 1).drop_last() =~= keys.take(i as int));
            assert(keys.take(i + 1).last() == k@);
            lemma_rows_map_at(songs.rows(), i as int);
        }
        if index.contains(a, k.as_str()) {
            let ghost before = r@.map_values(|s: Song| s@);
            r.push(songs.value_at(i).duplicate());
            assert(r@.map_values(|s: Song| s@) =~= before.push(songs@[k@]));
            assert(values_at(songs@, kept_keys(keys.take(i + 1), p)) =~= values_at(
                songs@,
                kept_keys(keys.take(i as int), p),
            ).push(songs@[k@]));
        }
        i = i + 1;
    }
    assert(keys.take(n as int) =~= keys);
    r
}

/// Keeps the single-entity operations on the songs of the library.
pub struct SongRepository {
    pub db: LibraryDatabase,
}

impl SongRepository {
    /// A repository over `db`.
    pub fn new(db: LibraryDatabase) -> (r: SongRepository)
        ensures
            r.db == db,
    {
        SongRepository { db }
    }

    /// The song stored under `id`.
    pub fn get(&self, id: &str) -> (r: Option<Song>)
        requires
            self.db.wf(),
        ensures
            match r {
                Some(s) => self.db.songs@.contains_key(id@) && s@ == self.db.songs@[id@],
                None => !self.db.songs@.contains_key(id@),
            },
    {
        match self.db.songs.get(id) {
            Some(s) => Some(s.duplicate()),
            None => None,
        }
    }

    /// Every stored song, in id order.
    pub fn get_all(&self) -> (r: Vec<Song>)
        requires
            self.db.wf(),
        ensures
            r@.map_values(|s: Song| s@) == self.db.songs.value_seq(),
    {
        self.db.songs.values()
    }

    /// Stores `item` under `id`.
    pub fn insert(&mut self, id: &str, item: &Song)
        requires
            old(self).db.wf(),
        ensures
            final(self).db.wf(),
            final(self).db == (LibraryDatabase { songs: final(self).db.songs, ..old(self).db }),
            final(self).db.songs@ == old(self).db.songs@.insert(id@, item@),
    {
        self.db.songs.insert(owned(id), item.duplicate());
    }

    /// Stores `song` under its id with its album and artist index entries;
    /// a favorite song is also marked in the favorites with `now`.
    pub fn upsert_with_indexes(&mut self, song: &Song, now: &str)
        requires
            old(self).db.wf(),
        ensures
            final(self).db.wf(),
            final(self).db.songs@ == old(self).db.songs@.insert(song.id@, song@),
            final(self).db.songs_by_album@ == old(self).db.songs_by_album@.union(
                song_album_pair(song@),
            ),
            final(self).db.songs_by_artist@ == old(self).db.songs_by_artist@.union(
                song_artist_pairs(song@),
            ),
            final(self).db.favorites@ == (if song.is_favorite == Some(true) {
                old(self).db.favorites@.insert(song.id@, now@)
            } else {
                old(self).db.favorites@
            }),
            final(self).db == (LibraryDatabase {
                songs: final(self).db.songs,
                songs_by_album: final(self).db.songs_by_album,
                songs_by_artist: final(self).db.songs_by_artist,
                favorites: final(self).db.favorites,
                ..old(self).db
            }),
    {
        self.db.songs.insert(song.id.clone(), song.duplicate());
        crate::store::index_song_album(&mut self.db.songs_by_album, song);
        crate::store::index_song_artists(&mut self.db.songs_by_artist, song);
        if song.is_favorite == Some(true) {
            self.db.favorites.insert(song.id.clone(), owned(now));
        }
    }

    /// The stored songs the album index lists under `album_id`, in song id
    /// order.
    pub fn get_by_album(&self, album_id: &str) -> (r: Vec<Song>)
        requires
            self.db.wf(),
        ensures
            r@.map_values(|s: Song| s@) == values_at(
                self.db.songs@,
                kept_keys(self.db.songs.key_seq(), paired_with(self.db.songs_by_album@, album_id@)),
            ),
    {
        songs_paired_with(&self.db.songs, &self.db.songs_by_album, album_id)
    }

    /// The stored songs the artist index lists under `artist_id`, in song id
    /// order.
    pub fn get_by_artist(&self, artist_id: &str) -> (r: Vec<Song>)
        requires
            self.db.wf(),
        ensures
            r@.map_values(|s: Song| s@) == values_at(
                self.db.songs@,
                kept_keys(
                    self.db.songs.key_seq(),
                    paired_with(self.db.songs_by_artist@, artist_id@),
                ),
            ),
    {
        songs_paired_with(&self.db.songs, &self.db.songs_by_artist, artist_id)
    }

    /// The stored songs marked as favorites, in song id order.
    pub fn get_favorites(&self) -> (r: Vec<Song>)
        requires
            self.db.wf(),
        ensures
            r@.map_values(|s: Song| s@) == values_at(
                self.db.songs@,
                kept_keys(self.db.favorites.key_seq(), self.db.songs@.dom()),
            ),
    {
        let favorites = &self.db.favorites;
        let songs = &self.db.songs;
        let n = favorites.len();
        let ghost keys = favorites.key_seq();
        let ghost d = songs@.dom();
        let mut r: Vec<Song> = Vec::new();
        let mut i: usize = 0;
        while i < n
            invariant
                n == favorites.rows().len(),
                keys == favorites.key_seq(),
                d == songs@.dom(),
                songs.wf(),
                i <= n,
                r@.map_values(|s: Song| s@) == values_at(songs@, kept_keys(keys.take(i as int), d)),
            decreases n - i,
        {
            let k = favorites.key_at(i);
            proof {
                assert(keys.take(i + 1).drop_last() =~= keys.take(i as int));
                assert(keys.take(i + 1).last() == k@);
            }
            match songs.get(k.as_str()) {
                Some(s) => {
                    let ghost before = r@.map_values(|s: Song| s@);
                    r.push(s.duplicate());
                    assert(r@.map_values(|s: Song| s@) =~= before.push(songs@[k@]));
                    assert(values_at(songs@, kept_keys(keys.take(i + 1), d)) =~= values_at(
                        songs@,
                        kept_keys(keys.take(i as int), d),
                    ).push(songs@[k@]));
                },
                None => {},
            }
            i = i + 1;
        }
        assert(keys.take(n as int) =~= keys);
        r
    }

    /// Sets the favorite flag of the song stored under `song_id` (if any),
    /// and marks it in the favorites with `now` or unmarks it.
    pub fn update_favorite_status(&mut self, song_id: &str, is_favorite: bool, now: &str)
        requires
            old(self).db.wf(),
        ensures
            final(self).db.wf(),
            favorite_set(final(self).db, old(self).db, song_id@, is_favorite, now@),
    {
        set_song_favorite(&mut self.db, song_id, is_favorite, now);
    }

    /// Empties the songs table and its album and artist indexes.
    pub fn clear(&mut self)
        requires
            old(self).db.wf(),
        ensures
            final(self).db.wf(),
            final(self).db.songs@ == Map::<Seq<char>, SongV>::empty(),
            final(self).db.songs_by_album@ == Set::<(Seq<char>, Seq<char>)>::empty(),
            final(self).db.songs_by_artist@ == Set::<(Seq<char>, Seq<char>)>::empty(),
            final(self).db == (LibraryDatabase {
                songs: final(self).db.songs,
                songs_by_album: final(self).db.songs_by_album,
                songs_by_artist: final(self).db.songs_by_artist,
                ..old(self).db
            }),
    {
        self.db.songs.clear();
        self.db.songs_by_album.clear();
        self.db.songs_by_artist.clear();
    }
}

/// Keeps the single-entity operations on the artists of the library.
pub struct ArtistRepository {
    pub db: LibraryDatabase,
}

impl ArtistRepository {
    /// A repository over `db`.
    pub fn new(db: LibraryDatabase) -> (r: ArtistRepository)
        ensures
            r.db == db,
    {
        ArtistRepository { db }
    }

    /// The artist stored under `id`.
    pub fn get(&self, id: &str) -> (r: Option<Artist>)
        requires
            self.db.wf(),
        ensures
            match r {
                Some(a) => self.db.artists@.contains_key(id@) && a@ == self.db.artists@[id@],
                None => !self.db.artists@.contains_key(id@),
            },
    {
        match self.db.artists.get(id) {
            Some(a) => Some(a.duplicate()),
            None => None,
        }
    }

    /// Every stored artist, in id order.
    pub fn get_all(&self) -> (r: Vec<Artist>)
        requires
            self.db.wf(),
        ensures
            r@.map_values(|a: Artist| a@) == self.db.artists.value_seq(),
    {
        self.db.artists.values()
    }

    /// Stores `item` under `id`.
    pub fn insert(&mut self, id: &str, item: &Artist)
        requires
            old(self).db.wf(),
        ensures
            final(self).db.wf(),
            final(self).db == (LibraryDatabase { artists: final(self).db.artists, ..old(self).db }),
            final(self).db.artists@ == old(self).db.artists@.insert(id@, item@),
    {
        self.db.artists.insert(owned(id), item.duplicate());
    }

    /// Stores `artist` under its id.
    pub fn upsert(&mut self, artist: &Artist)
        requires
            old(self).db.wf(),
        ensures
            final(self).db.wf(),
            final(self).db == (LibraryDatabase { artists: final(self).db.artists, ..old(self).db }),
            final(self).db.artists@ == old(self).db.artists@.insert(artist.id@, artist@),
    {
        self.db.artists.insert(artist.id.clone(), artist.duplicate());
    }

    /// Empties the artists table.
    pub fn clear(&mut self)
        requires
            old(self).db.wf(),
        ensures
            final(self).db.wf(),
            final(self).db.artists@ == Map::<Seq<char>, ArtistV>::empty(),
            final(self).db == (LibraryDatabase { artists: final(self).db.artists, ..old(self).db }),
    {
        self.db.artists.clear();
    }
}

} // verus!
