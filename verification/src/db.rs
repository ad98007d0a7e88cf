//! Library-wide database operations: full, incremental and songs-only
//! syncs, the favorites refresh and the sync-state bookkeeping.
use vstd::prelude::*;
use crate::domain::{SyncState, initial_sync_state};
use crate::models::{Album, Artist, Song, SongV, AlbumV, ArtistV, album_views, artist_views, song_views};
use crate::store::{
    LibraryDatabase,
    LibraryService,
    applied_lists,
    changed_song_ids,
    incremental_synced,
    library_synced,
    lemma_delta_lists,
    lists_empty,
    lists_total,
    missing_keys,
    new_album_ids,
    new_artist_ids,
    new_song_ids,
    remote_delta,
    remove_keys,
    write_albums_by_id,
    write_artists_by_id,
    state_or_default,
};
use crate::db::repositories::{set_song_favorite, with_favorite};
use crate::table::{Table, lemma_rows_map_finite};
use crate::text::{opt_chars, owned, views};
use crate::store::id_table;

pub mod albums;
pub mod artists;
pub mod repositories;
pub mod songs;

verus! {

proof fn lemma_new_song_ids_len(local: Map<Seq<char>, SongV>, rs: Seq<SongV>)
    ensures
        new_song_ids(local, rs).len() <= rs.len(),
        changed_song_ids(local, rs).len() <= rs.len(),
    decreases rs.len(),
{
    if rs.len() > 0 {
        lemma_new_song_ids_len(local, rs.drop_last());
    }
}

proof fn lemma_new_artist_ids_len(local: Set<Seq<char>>, ra: Seq<ArtistV>)
    ensures
        new_artist_ids(local, ra).len() <= ra.len(),
    decreases ra.len(),
{
    if ra.len() > 0 {
        lemma_new_artist_ids_len(local, ra.drop_last());
    }
}

proof fn lemma_new_album_ids_len(local: Set<Seq<char>>, rb: Seq<AlbumV>)
    ensures
        new_album_ids(local, rb).len() <= rb.len(),
    decreases rb.len(),
{
    if rb.len() > 0 {
        lemma_new_album_ids_len(local, rb.drop_last());
    }
}

proof fn lemma_missing_keys_len(keys: Seq<Seq<char>>, present: Set<Seq<char>>)
    ensures
        missing_keys(keys, present).len() <= keys.len(),
    decreases keys.len(),
{
    if keys.len() > 0 {
        lemma_missing_keys_len(keys.drop_last(), present);
    }
}

/// Each list of the remote delta is no longer than the list or table it
/// is drawn from.
proof fn lemma_delta_bounds(db: LibraryDatabase, rs: Seq<SongV>, ra: Seq<ArtistV>, rb: Seq<AlbumV>)
    requires
        db.wf(),
    ensures
        ({
            let l = remote_delta(db, rs, ra, rb);
            &&& l[0].len() <= rs.len()
            &&& l[1].len() <= db.songs@.dom().len()
            &&& l[2].len() <= rs.len()
            &&& l[3].len() <= ra.len()
            &&& l[4].len() <= db.artists@.dom().len()
            &&& l[5].len() == 0
            &&& l[6].len() <= rb.len()
            &&& l[7].len() <= db.albums@.dom().len()
            &&& l[8].len() == 0
        }),
{
    lemma_new_song_ids_len(db.songs@, rs);
    lemma_new_artist_ids_len(db.artists@.dom(), ra);
    lemma_new_album_ids_len(db.albums@.dom(), rb);
    lemma_missing_keys_len(db.songs.key_seq(), crate::store::song_id_set(rs));
    lemma_missing_keys_len(db.artists.key_seq(), crate::store::artist_id_set(ra));
    lemma_missing_keys_len(db.albums.key_seq(), crate::store::album_id_set(rb));
    lemma_rows_map_finite(db.songs.rows());
    lemma_rows_map_finite(db.artists.rows());
    lemma_rows_map_finite(db.albums.rows());
}

/// Whether an incremental sync falls back to a full one: the library holds
/// no songs and no artists (as counted in `u32`), or the delta counts more
/// changes than half the remote items.
pub open spec fn incremental_needs_full(
    db: LibraryDatabase,
    rs: Seq<SongV>,
    ra: Seq<ArtistV>,
    rb: Seq<AlbumV>,
) -> bool {
    ||| (db.songs@.dom().len() as u32 == 0 && db.artists@.dom().len() as u32 == 0)
    ||| lists_total(remote_delta(db, rs, ra, rb)) > (rs.len() + ra.len() + rb.len()) / 2
}

/// The remote lists and the local tables are small enough for the delta
/// counts to fit in a `usize`.
pub open spec fn delta_fits(db: LibraryDatabase, rs_len: nat, ra_len: nat, rb_len: nat) -> bool {
    2 * rs_len + ra_len + rb_len + db.songs@.dom().len() + db.artists@.dom().len()
        + db.albums@.dom().len() <= usize::MAX
}

/// Full sync: replaces the library with the given lists.
pub fn sync_all(
    service: &mut LibraryService,
    songs: &[Song],
    artists: &[Artist],
    albums: &[Album],
    now: &str,
)
    requires
        old(service).db.wf(),
    ensures
        final(service).db.wf(),
        library_synced(
            final(service).db,
            old(service).db,
            song_views(songs@),
            artist_views(artists@),
            album_views(albums@),
            true,
            now@,
        ),
{
    let _ = service.sync_library(songs, artists, albums, true, now);
}

/// Incremental sync: applies only what changed since the local copy, and
/// falls back to a full sync when the library is empty or the changes are
/// more than half the items. Returns whether a full sync was done.
pub fn sync_incremental(
    service: &mut LibraryService,
    songs: &[Song],
    artists: &[Artist],
    albums: &[Album],
    now: &str,
) -> (full: bool)
    requires
        old(service).db.wf(),
        delta_fits(old(service).db, songs@.len(), artists@.len(), albums@.len()),
    ensures
        final(service).db.wf(),
        full == incremental_needs_full(
            old(service).db,
            song_views(songs@),
            artist_views(artists@),
            album_views(albums@),
        ),
        full ==> library_synced(
            final(service).db,
            old(service).db,
            song_views(songs@),
            artist_views(artists@),
            album_views(albums@),
            true,
            now@,
        ),
        !full ==> incremental_synced(
            final(service).db,
            old(service).db,
            song_views(songs@),
            artist_views(artists@),
            album_views(albums@),
            now@,
        ),
{
    let ghost sv = song_views(songs@);
    let ghost av = artist_views(artists@);
    let ghost bv = album_views(albums@);
    let (song_count, artist_count, _album_count) = service.get_library_stats();
    if song_count == 0 && artist_count == 0 {
        let _ = service.sync_library(songs, artists, albums, true, now);
        return true;
    }
    let delta = service.compute_delta(songs, artists, albums);
    proof {
        lemma_delta_lists(delta, old(service).db, sv, av, bv);
        lemma_delta_bounds(old(service).db, sv, av, bv);
    }
    let total_items = songs.len() + artists.len() + albums.len();
    let threshold = total_items / 2;
    if delta.total_changes() > threshold {
        let _ = service.sync_library(songs, artists, albums, true, now);
        return true;
    }
    if !delta.is_empty() {
        let _ = service.apply_delta(&delta, songs, artists, albums, now);
    }
    false
}

/// The song lists of the delta lists `l`, with every artist and album list
/// emptied.
pub open spec fn song_lists(l: Seq<Seq<Seq<char>>>) -> Seq<Seq<Seq<char>>> {
    seq![
        l[0],
        l[1],
        l[2],
        Seq::<Seq<char>>::empty(),
        Seq::<Seq<char>>::empty(),
        Seq::<Seq<char>>::empty(),
        Seq::<Seq<char>>::empty(),
        Seq::<Seq<char>>::empty(),
        Seq::<Seq<char>>::empty(),
    ]
}

/// `after` is `before` after a songs-only incremental sync with the remote
/// songs `rs` at time `now`: the song lists of the delta against the songs
/// are applied when they are not all empty; the artists and albums stay
/// as they were.
pub open spec fn songs_only_synced(
    after: LibraryDatabase,
    before: LibraryDatabase,
    rs: Seq<SongV>,
    now: Seq<char>,
) -> bool {
    let l = remote_delta(before, rs, Seq::empty(), Seq::empty());
    if l[0].len() == 0 && l[1].len() == 0 && l[2].len() == 0 {
        after == before
    } else {
        applied_lists(after, before, song_lists(l), rs, Seq::empty(), Seq::empty(), now)
    }
}

/// Songs-only incremental sync: a full songs sync (which empties the
/// other tables too) when no song is stored, else only the song changes
/// are applied and the artists and albums (fetched on demand) are kept.
/// Returns whether a full sync was done.
pub fn sync_songs_only(service: &mut LibraryService, songs: &[Song], now: &str) -> (full: bool)
    requires
        old(service).db.wf(),
        delta_fits(old(service).db, songs@.len(), 0, 0),
    ensures
        final(service).db.wf(),
        full == (old(service).db.songs@.dom().len() as u32 == 0),
        full ==> library_synced(
            final(service).db,
            old(service).db,
            song_views(songs@),
            Seq::empty(),
            Seq::empty(),
            true,
            now@,
        ),
        !full ==> songs_only_synced(final(service).db, old(service).db, song_views(songs@), now@),
        !full ==> final(service).db.artists@ == old(service).db.artists@
            && final(service).db.albums@ == old(service).db.albums@,
{
    let ghost sv = song_views(songs@);
    let no_artists: Vec<Artist> = Vec::new();
    let no_albums: Vec<Album> = Vec::new();
    assert(artist_views(no_artists@) =~= Seq::<ArtistV>::empty());
    assert(album_views(no_albums@) =~= Seq::<AlbumV>::empty());
    let (song_count, _, _) = service.get_library_stats();
    if song_count == 0 {
        let _ = service.sync_library(songs, no_artists.as_slice(), no_albums.as_slice(), true, now);
        return true;
    }
    let mut delta = service.compute_delta(songs, no_artists.as_slice(), no_albums.as_slice());
    proof {
        lemma_delta_lists(delta, old(service).db, sv, Seq::empty(), Seq::empty());
        lemma_delta_bounds(old(service).db, sv, Seq::empty(), Seq::empty());
        assert(views(delta.songs_to_add@).len() == delta.songs_to_add@.len());
        assert(views(delta.songs_to_remove@).len() == delta.songs_to_remove@.len());
        assert(views(delta.songs_to_update@).len() == delta.songs_to_update@.len());
    }
    if delta.songs_to_add.len() == 0 && delta.songs_to_remove.len() == 0
        && delta.songs_to_update.len() == 0 {
    } else {
        let ghost l = remote_delta(old(service).db, sv, Seq::empty(), Seq::empty());
        let ghost d0 = delta;
        assert(crate::domain::delta_lists(d0) == l);
        delta.artists_to_add = Vec::new();
        delta.artists_to_remove = Vec::new();
        delta.artists_to_update = Vec::new();
        delta.albums_to_add = Vec::new();
        delta.albums_to_remove = Vec::new();
        delta.albums_to_update = Vec::new();
        proof {
            assert(crate::domain::delta_lists(d0)[0] == l[0]);
            assert(crate::domain::delta_lists(d0)[1] == l[1]);
            assert(crate::domain::delta_lists(d0)[2] == l[2]);
            assert(views(delta.artists_to_add@) =~= Seq::<Seq<char>>::empty());
            assert(views(delta.artists_to_remove@) =~= Seq::<Seq<char>>::empty());
            assert(views(delta.artists_to_update@) =~= Seq::<Seq<char>>::empty());
            assert(views(delta.albums_to_add@) =~= Seq::<Seq<char>>::empty());
            assert(views(delta.albums_to_remove@) =~= Seq::<Seq<char>>::empty());
            assert(views(delta.albums_to_update@) =~= Seq::<Seq<char>>::empty());
            assert(crate::domain::delta_lists(delta) =~= song_lists(l));
        }
        let _ = service.apply_delta(
            &delta,
            songs,
            no_artists.as_slice(),
            no_albums.as_slice(),
            now,
        );
        proof {
            let e = Seq::<Seq<char>>::empty();
            assert(write_artists_by_id(old(service).db.artists@, e, Seq::empty()) == old(service).db.artists@);
            assert(remove_keys(old(service).db.artists@, e) == old(service).db.artists@);
            assert(write_albums_by_id(old(service).db.albums@, e, Seq::empty()) == old(service).db.albums@);
            assert(remove_keys(old(service).db.albums@, e) == old(service).db.albums@);
        }
    }
    false
}

/// The songs table after setting, for each key of `keys` in order, the
/// favorite flag of the stored song to whether `favs` holds its id.
pub open spec fn refavorited(
    m: Map<Seq<char>, SongV>,
    keys: Seq<Seq<char>>,
    favs: Set<Seq<char>>,
) -> Map<Seq<char>, SongV>
    decreases keys.len(),
{
    if keys.len() == 0 {
        m
    } else {
        let r = refavorited(m, keys.drop_last(), favs);
        let k = keys.last();
        if r.contains_key(k) {
            r.insert(k, with_favorite(r[k], favs.contains(k)))
        } else {
            r
        }
    }
}

/// The keys of `keys` (in order) whose stored song had its flag changed by
/// `refavorited`.
pub open spec fn refavorite_changes(
    m: Map<Seq<char>, SongV>,
    keys: Seq<Seq<char>>,
    favs: Set<Seq<char>>,
) -> Seq<Seq<char>>
    decreases keys.len(),
{
    if keys.len() == 0 {
        seq![]
    } else {
        let r = refavorite_changes(m, keys.drop_last(), favs);
        let cur = refavorited(m, keys.drop_last(), favs);
        let k = keys.last();
        if cur.contains_key(k) && cur[k].is_favorite != Some(favs.contains(k)) {
            r.push(k)
        } else {
            r
        }
    }
}

/// Every stored song's flag says whether `favs` holds its id.
pub open spec fn favorites_settled(m: Map<Seq<char>, SongV>, favs: Set<Seq<char>>) -> bool {
    forall|x: Seq<char>| #[trigger] m.contains_key(x) ==> m[x].is_favorite == Some(favs.contains(x))
}

proof fn lemma_refavorited_shape(m: Map<Seq<char>, SongV>, k: Seq<Seq<char>>, favs: Set<Seq<char>>)
    ensures
        refavorited(m, k, favs).dom() == m.dom(),
        forall|x: Seq<char>| #[trigger] refavorited(m, k, favs).contains_key(x) ==> (if k.contains(x) {
            refavorited(m, k, favs)[x] == with_favorite(m[x], favs.contains(x))
        } else {
            refavorited(m, k, favs)[x] == m[x]
        }),
    decreases k.len(),
{
    if k.len() > 0 {
        lemma_refavorited_shape(m, k.drop_last(), favs);
        let r = refavorited(m, k.drop_last(), favs);
        assert forall|x: Seq<char>| #[trigger] k.contains(x) == (k.drop_last().contains(x) || x == k.last()) by {
            if k.contains(x) {
                let i = choose|i: int| 0 <= i < k.len() && k[i] == x;
                if i < k.len() - 1 {
                    assert(k.drop_last()[i] == x);
                }
            }
            if k.drop_last().contains(x) {
                let i = choose|i: int| 0 <= i < k.drop_last().len() && k.drop_last()[i] == x;
                assert(k[i] == x);
            }
            if x == k.last() {
                assert(k[k.len() - 1] == x);
            }
        }
        if r.contains_key(k.last()) {
            assert(r.insert(k.last(), with_favorite(r[k.last()], favs.contains(k.last()))).dom() =~= m.dom());
        }
    }
}

/// Refreshing flags that are already settled changes no song and keeps
/// them settled.
proof fn lemma_refavorite_settled(r: Map<Seq<char>, SongV>, k: Seq<Seq<char>>, favs: Set<Seq<char>>)
    requires
        favorites_settled(r, favs),
    ensures
        refavorited(r, k, favs) == r,
        refavorite_changes(r, k, favs).len() == 0,
    decreases k.len(),
{
    if k.len() > 0 {
        lemma_refavorite_settled(r, k.drop_last(), favs);
        let x = k.last();
        if r.contains_key(x) {
            assert(with_favorite(r[x], favs.contains(x)) == r[x]);
            assert(r.insert(x, r[x]) =~= r);
        }
    }
}

/// Refreshing the favorite flags a second time with the same favorite ids
/// changes nothing: once every stored key has been refreshed, no key
/// sequence finds a flag to change, and the songs stay as they are.
pub proof fn lemma_refavorite_idempotent(
    m: Map<Seq<char>, SongV>,
    k: Seq<Seq<char>>,
    k2: Seq<Seq<char>>,
    favs: Set<Seq<char>>,
)
    requires
        forall|x: Seq<char>| #[trigger] m.contains_key(x) ==> k.contains(x),
    ensures
        refavorite_changes(refavorited(m, k, favs), k2, favs).len() == 0,
        refavorited(refavorited(m, k, favs), k2, favs) == refavorited(m, k, favs),
{
    let r = refavorited(m, k, favs);
    lemma_refavorited_shape(m, k, favs);
    assert forall|x: Seq<char>| #[trigger] r.contains_key(x) implies r[x].is_favorite == Some(favs.contains(x)) by {
        assert(m.contains_key(x));
    }
    lemma_refavorite_settled(r, k2, favs);
}

/// The stored ids whose favorite flag does not say whether `favs` holds
/// them.
pub open spec fn stale_favorites(m: Map<Seq<char>, SongV>, favs: Set<Seq<char>>) -> Set<Seq<char>> {
    Set::new(|k: Seq<char>| m.contains_key(k) && m[k].is_favorite != Some(favs.contains(k)))
}

/// Refreshing the flags along distinct keys changes exactly the stale ids
/// among them.
proof fn lemma_refavorite_changes_count(m: Map<Seq<char>, SongV>, keys: Seq<Seq<char>>, favs: Set<Seq<char>>)
    requires
        keys.no_duplicates(),
    ensures
        keys.to_set().intersect(stale_favorites(m, favs)).finite(),
        refavorite_changes(m, keys, favs).len() == keys.to_set().intersect(stale_favorites(m, favs)).len(),
    decreases keys.len(),
{
    let st = stale_favorites(m, favs);
    vstd::seq_lib::seq_to_set_is_finite(keys);
    if keys.len() == 0 {
        assert(keys.to_set().intersect(st) =~= Set::<Seq<char>>::empty());
    } else {
        let p = keys.drop_last();
        let k = keys.last();
        assert(p.no_duplicates()) by {
            assert forall|i: int, j: int| 0 <= i < p.len() && 0 <= j < p.len() && i != j implies p[i] != p[j] by {
                assert(p[i] == keys[i] && p[j] == keys[j]);
            }
        }
        lemma_refavorite_changes_count(m, p, favs);
        vstd::seq_lib::seq_to_set_is_finite(p);
        assert(!p.contains(k)) by {
            if p.contains(k) {
                let i = choose|i: int| 0 <= i < p.len() && p[i] == k;
                assert(keys[i] == keys[keys.len() - 1]);
            }
        }
        lemma_refavorited_shape(m, p, favs);
        let cur = refavorited(m, p, favs);
        assert(cur.contains_key(k) == m.contains_key(k));
        if cur.contains_key(k) {
            assert(cur[k] == m[k]);
        }
        let before = p.to_set().intersect(st);
        assert forall|x: Seq<char>| keys.to_set().contains(x) == (p.to_set().contains(x) || x == k) by {
            if keys.contains(x) {
                let i = choose|i: int| 0 <= i < keys.len() && keys[i] == x;
                if i < keys.len() - 1 {
                    assert(p[i] == x);
                }
            }
            if p.contains(x) {
                let i = choose|i: int| 0 <= i < p.len() && p[i] == x;
                assert(keys[i] == x);
            }
            if x == k {
                assert(keys[keys.len() - 1] == x);
            }
        }
        if st.contains(k) {
            assert(keys.to_set().intersect(st) =~= before.insert(k));
            assert(!before.contains(k));
        } else {
            assert(keys.to_set().intersect(st) =~= before);
        }
    }
}

/// The number of songs a refresh of every stored key changes is the number
/// of stored ids whose flag is stale.
proof fn lemma_refavorite_changes_stale(m: Map<Seq<char>, SongV>, keys: Seq<Seq<char>>, favs: Set<Seq<char>>)
    requires
        keys.no_duplicates(),
        forall|k: Seq<char>| #[trigger] keys.contains(k) == m.contains_key(k),
    ensures
        stale_favorites(m, favs).finite(),
        refavorite_changes(m, keys, favs).len() == stale_favorites(m, favs).len(),
{
    lemma_refavorite_changes_count(m, keys, favs);
    assert(keys.to_set().intersect(stale_favorites(m, favs)) =~= stale_favorites(m, favs));
}

/// The favorites after marking (with `now`) or unmarking each id of `ids`
/// as `favs` holds it or not.
pub open spec fn favorites_marked(
    f: Map<Seq<char>, Seq<char>>,
    ids: Seq<Seq<char>>,
    favs: Set<Seq<char>>,
    now: Seq<char>,
) -> Map<Seq<char>, Seq<char>>
    decreases ids.len(),
{
    if ids.len() == 0 {
        f
    } else {
        let r = favorites_marked(f, ids.drop_last(), favs, now);
        if favs.contains(ids.last()) {
            r.insert(ids.last(), now)
        } else {
            r.remove(ids.last())
        }
    }
}

/// Sets the favorite flag of every stored song to whether its id is among
/// `favorite_ids`, updating the favorites (marks with `now`) for the songs
/// whose flag changed. Returns the number of songs changed: the stored
/// songs whose flag was stale.
pub fn update_songs_favorite_status(
    service: &mut LibraryService,
    favorite_ids: &[String],
    now: &str,
) -> (n: u32)
    requires
        old(service).db.wf(),
        old(service).db.songs@.dom().len() <= u32::MAX,
    ensures
        final(service).db.wf(),
        ({
            let favs = views(favorite_ids@).to_set();
            let before = old(service).db;
            let changed = refavorite_changes(before.songs@, before.songs.key_seq(), favs);
            &&& final(service).db.songs@ == refavorited(before.songs@, before.songs.key_seq(), favs)
            &&& final(service).db.favorites@ == favorites_marked(before.favorites@, changed, favs, now@)
            &&& n == changed.len()
            &&& n == stale_favorites(before.songs@, favs).len()
            &&& final(service).db.songs@.dom() == before.songs@.dom()
            &&& forall|k: Seq<char>| #[trigger] final(service).db.songs@.contains_key(k)
                ==> final(service).db.songs@[k] == with_favorite(before.songs@[k], favs.contains(k))
        }),
        final(service).db == (LibraryDatabase {
            songs: final(service).db.songs,
            favorites: final(service).db.favorites,
            ..old(service).db
        }),
{
    let ghost favs = views(favorite_ids@).to_set();
    let ghost db0 = service.db;
    let favorite_set = id_table(favorite_ids);
    let keys = service.db.songs.keys();
    let ghost ks = views(keys@);
    proof {
        lemma_rows_map_finite(db0.songs.rows());
    }
    let mut updated_count: u32 = 0;
    let mut i: usize = 0;
    while i < keys.len()
        invariant
            service.db.wf(),
            favorite_set.wf(),
            favorite_set@.dom() == favs,
            ks == views(keys@),
            ks == db0.songs.key_seq(),
            ks.len() == db0.songs@.dom().len(),
            db0.songs@.dom().len() <= u32::MAX,
            i <= keys@.len(),
            service.db.songs@ == refavorited(db0.songs@, ks.take(i as int), favs),
            service.db.favorites@ == favorites_marked(
                db0.favorites@,
                refavorite_changes(db0.songs@, ks.take(i as int), favs),
                favs,
                now@,
            ),
            updated_count == refavorite_changes(db0.songs@, ks.take(i as int), favs).len(),
            updated_count <= i,
            service.db == (LibraryDatabase {
                songs: service.db.songs,
                favorites: service.db.favorites,
                ..db0
            }),
        decreases keys@.len() - i,
    {
        let k = &keys[i];
        let ghost cur = service.db.songs@;
        let ghost prev_changes = refavorite_changes(db0.songs@, ks.take(i as int), favs);
        proof {
            assert(ks.take(i + 1).drop_last() =~= ks.take(i as int));
            assert(ks.take(i + 1).last() == k@);
        }
        let is_favorite = favorite_set.contains_key(k.as_str());
        let stale = match service.db.songs.get(k.as_str()) {
            Some(song) => song.is_favorite != Some(is_favorite),
            None => false,
        };
        if stale {
            proof {
                assert(prev_changes.push(k@).drop_last() =~= prev_changes);
            }
            set_song_favorite(&mut service.db, k.as_str(), is_favorite, now);
            updated_count = updated_count + 1;
        } else {
            proof {
                if cur.contains_key(k@) {
                    assert(with_favorite(cur[k@], favs.contains(k@)) == cur[k@]);
                    assert(cur.insert(k@, cur[k@]) =~= cur);
                }
            }
        }
        i = i + 1;
    }
    assert(ks.take(keys@.len() as int) =~= ks);
    proof {
        crate::convergence::lemma_key_seq_distinct(db0.songs);
        assert forall|k: Seq<char>| #[trigger] ks.contains(k) == db0.songs@.contains_key(k) by {
            crate::convergence::lemma_key_seq(db0.songs, k);
        }
        lemma_refavorite_changes_stale(db0.songs@, ks, favs);
        lemma_refavorited_shape(db0.songs@, ks, favs);
    }
    updated_count
}

/// Resets the sync state so that the next sync is a full one.
pub fn reset_sync_state(service: &mut LibraryService)
    ensures
        final(service).db == (LibraryDatabase {
            sync_state: final(service).db.sync_state,
            ..old(service).db
        }),
        final(service).db.sync_state matches Some(st) && initial_sync_state(st),
{
    service.update_sync_state(SyncState::default());
}

/// Records that a full sync is under way at page `page_index` of
/// `entity_type`, keeping the rest of the sync state.
pub fn update_full_sync_progress(service: &mut LibraryService, entity_type: &str, page_index: u32)
    ensures
        final(service).db == (LibraryDatabase {
            sync_state: final(service).db.sync_state,
            ..old(service).db
        }),
        final(service).db.sync_state matches Some(st) && forall|p: SyncState|
            state_or_default(old(service).db, p) ==> {
                &&& st.full_sync_in_progress
                &&& st.full_sync_last_page_index == page_index
                &&& opt_chars(st.full_sync_entity_type) == Some(entity_type@)
                &&& st.last_sync_time@ == p.last_sync_time@
                &&& opt_chars(st.last_full_sync_time) == opt_chars(p.last_full_sync_time)
                &&& opt_chars(st.last_sync_version) == opt_chars(p.last_sync_version)
                &&& st.song_count == p.song_count
                &&& st.artist_count == p.artist_count
                &&& st.album_count == p.album_count
            },
{
    let mut state = service.get_sync_state();
    state.full_sync_in_progress = true;
    state.full_sync_entity_type = Some(owned(entity_type));
    state.full_sync_last_page_index = page_index;
    service.update_sync_state(state);
}

/// Empties every table: songs, artists, albums, their indexes, the
/// favorites, the sync state and the credentials.
pub fn reset_for_tests(db: &mut LibraryDatabase)
    requires
        old(db).wf(),
    ensures
        final(db).wf(),
        final(db).songs@ == Map::<Seq<char>, SongV>::empty(),
        final(db).artists@ == Map::<Seq<char>, ArtistV>::empty(),
        final(db).albums@ == Map::<Seq<char>, AlbumV>::empty(),
        final(db).songs_by_album@ == Set::<(Seq<char>, Seq<char>)>::empty(),
        final(db).songs_by_artist@ == Set::<(Seq<char>, Seq<char>)>::empty(),
        final(db).albums_by_artist@ == Set::<(Seq<char>, Seq<char>)>::empty(),
        final(db).favorites@ == Map::<Seq<char>, Seq<char>>::empty(),
        final(db).sync_state is None,
        final(db).credentials is None,
        final(db).settings == old(db).settings,
{
    db.songs.clear();
    db.artists.clear();
    db.albums.clear();
    db.favorites.clear();
    db.sync_state = None;
    db.credentials = None;
    db.songs_by_album.clear();
    db.songs_by_artist.clear();
    db.albums_by_artist.clear();
}

} // verus!
