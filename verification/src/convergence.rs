//! What an incremental sync leaves in the tables: once a computed delta is
//! applied, the local song, artist and album ids are exactly the ids the
//! server listed.
use vstd::prelude::*;
use crate::models::{AlbumV, ArtistV, SongV};
use crate::store::{
    LibraryDatabase,
    album_has_id,
    album_id_set,
    album_positions,
    artist_id_set,
    artist_positions,
    incremental_synced,
    lists_empty,
    remote_delta,
    last_album_with,
    last_artist_with,
    last_song_with,
    library_synced,
    put_artists,
    put_songs,
    lemma_album_positions,
    lemma_artist_positions,
    lemma_song_positions,
    missing_keys,
    new_album_ids,
    new_artist_ids,
    new_song_ids,
    remove_keys,
    song_id_set,
    song_positions,
    write_albums_by_id,
    write_artists_by_id,
    write_songs_by_id,
};
use crate::db::{song_lists, songs_only_synced};
use crate::table::{Table, keys_of, lemma_rows_map_contains};
use crate::text::views;

verus! {

/// A key survives `remove_keys` exactly when it was there and is not listed.
pub proof fn lemma_remove_keys_dom<W>(m: Map<Seq<char>, W>, ids: Seq<Seq<char>>, k: Seq<char>)
    ensures
        remove_keys(m, ids).contains_key(k) == (m.contains_key(k) && !ids.contains(k)),
    decreases ids.len(),
{
    if ids.len() > 0 {
        lemma_remove_keys_dom(m, ids.drop_last(), k);
        if ids.drop_last().contains(k) {
            let i = choose|i: int| 0 <= i < ids.drop_last().len() && ids.drop_last()[i] == k;
            assert(ids[i] == k);
        }
        if ids.contains(k) && k != ids.last() {
            let i = choose|i: int| 0 <= i < ids.len() && ids[i] == k;
            assert(ids.drop_last()[i] == k);
        }
    }
}

/// `missing_keys` lists exactly the keys that are not present.
pub proof fn lemma_missing_keys(keys: Seq<Seq<char>>, present: Set<Seq<char>>, k: Seq<char>)
    ensures
        missing_keys(keys, present).contains(k) == (keys.contains(k) && !present.contains(k)),
    decreases keys.len(),
{
    if keys.len() > 0 {
        let d = keys.drop_last();
        lemma_missing_keys(d, present, k);
        let r = missing_keys(d, present);
        if d.contains(k) {
            let i = choose|i: int| 0 <= i < d.len() && d[i] == k;
            assert(keys[i] == k);
        }
        if keys.contains(k) && k != keys.last() {
            let i = choose|i: int| 0 <= i < keys.len() && keys[i] == k;
            assert(d[i] == k);
        }
        if !present.contains(keys.last()) {
            if r.push(keys.last()).contains(k) && k != keys.last() {
                let i = choose|i: int| 0 <= i < r.push(keys.last()).len() && r.push(keys.last())[i] == k;
                assert(r[i] == k);
            }
            if r.contains(k) {
                let i = choose|i: int| 0 <= i < r.len() && r[i] == k;
                assert(r.push(keys.last())[i] == k);
            }
            assert(r.push(keys.last())[r.len() as int] == keys.last());
        }
    }
}

/// The keys of a table are the keys of its map.
pub proof fn lemma_key_seq<V: View>(t: Table<V>, k: Seq<char>)
    ensures
        t.key_seq().contains(k) == t@.contains_key(k),
{
    lemma_rows_map_contains(t.rows(), k);
    if t.key_seq().contains(k) {
        let i = choose|i: int| 0 <= i < t.key_seq().len() && t.key_seq()[i] == k;
        assert(t.rows()[i].0 == k);
    }
    if t@.contains_key(k) {
        let i = choose|i: int| 0 <= i < t.rows().len() && t.rows()[i].0 == k;
        assert(keys_of(t.rows())[i] == k);
    }
}

pub proof fn lemma_push_contains(s: Seq<Seq<char>>, x: Seq<char>, k: Seq<char>)
    ensures
        s.push(x).contains(k) == (s.contains(k) || x == k),
{
    if s.contains(k) {
        let i = choose|i: int| 0 <= i < s.len() && s[i] == k;
        assert(s.push(x)[i] == k);
    }
    if x == k {
        assert(s.push(x)[s.len() as int] == k);
    }
    if s.push(x).contains(k) && x != k {
        let i = choose|i: int| 0 <= i < s.push(x).len() && s.push(x)[i] == k;
        assert(s[i] == k);
    }
}

pub proof fn lemma_drop_last_contains(s: Seq<Seq<char>>, k: Seq<char>)
    requires
        s.len() > 0,
    ensures
        s.contains(k) == (s.drop_last().contains(k) || s.last() == k),
{
    assert(s =~= s.drop_last().push(s.last()));
    lemma_push_contains(s.drop_last(), s.last(), k);
}

/// Writing songs by id adds exactly the listed ids that `s` has a song for.
pub proof fn lemma_write_songs_dom(
    m: Map<Seq<char>, SongV>,
    ids: Seq<Seq<char>>,
    s: Seq<SongV>,
    k: Seq<char>,
)
    ensures
        write_songs_by_id(m, ids, s).contains_key(k) == (m.contains_key(k) || (ids.contains(k)
            && song_positions(s).contains_key(k))),
    decreases ids.len(),
{
    if ids.len() > 0 {
        lemma_write_songs_dom(m, ids.drop_last(), s, k);
        lemma_drop_last_contains(ids, k);
        lemma_song_positions(s);
        match last_song_with(s, ids.last()) {
            Some(x) => {
                assert(x.id@ == ids.last());
            },
            None => {},
        }
    }
}

/// Writing artists by id adds exactly the listed ids that `s` has an artist for.
pub proof fn lemma_write_artists_dom(
    m: Map<Seq<char>, ArtistV>,
    ids: Seq<Seq<char>>,
    s: Seq<ArtistV>,
    k: Seq<char>,
)
    ensures
        write_artists_by_id(m, ids, s).contains_key(k) == (m.contains_key(k) || (ids.contains(k)
            && artist_positions(s).contains_key(k))),
    decreases ids.len(),
{
    if ids.len() > 0 {
        lemma_write_artists_dom(m, ids.drop_last(), s, k);
        lemma_drop_last_contains(ids, k);
        lemma_artist_positions(s);
        match last_artist_with(s, ids.last()) {
            Some(x) => {
                assert(x.id@ == ids.last());
            },
            None => {},
        }
    }
}

/// Writing albums by id adds exactly the listed ids that `s` has an album for.
pub proof fn lemma_write_albums_dom(
    m: Map<Seq<char>, AlbumV>,
    ids: Seq<Seq<char>>,
    s: Seq<AlbumV>,
    k: Seq<char>,
)
    ensures
        write_albums_by_id(m, ids, s).contains_key(k) == (m.contains_key(k) || (ids.contains(k)
            && album_positions(s).contains_key(k))),
    decreases ids.len(),
{
    if ids.len() > 0 {
        lemma_write_albums_dom(m, ids.drop_last(), s, k);
        lemma_drop_last_contains(ids, k);
        match last_album_with(s, ids.last()) {
            Some(x) => {},
            None => {},
        }
    }
}

/// The new song ids are the remote ids the local table lacks.
pub proof fn lemma_new_song_ids(local: Map<Seq<char>, SongV>, rs: Seq<SongV>, k: Seq<char>)
    ensures
        new_song_ids(local, rs).contains(k) == (song_id_set(rs).contains(k)
            && !local.contains_key(k)),
    decreases rs.len(),
{
    if rs.len() > 0 {
        let d = rs.drop_last();
        lemma_new_song_ids(local, d, k);
        lemma_push_contains(new_song_ids(local, d), rs.last().id@, k);
        if song_id_set(rs).contains(k) && k != rs.last().id@ {
            let i = choose|i: int| 0 <= i < rs.len() && rs[i].id@ == k;
            assert(d[i].id@ == k);
        }
        if song_id_set(d).contains(k) {
            let i = choose|i: int| 0 <= i < d.len() && d[i].id@ == k;
            assert(rs[i].id@ == k);
        }
        assert(rs[rs.len() - 1].id@ == rs.last().id@);
    }
}

/// The new artist ids are the remote ids not in `local`.
pub proof fn lemma_new_artist_ids(local: Set<Seq<char>>, ra: Seq<ArtistV>, k: Seq<char>)
    ensures
        new_artist_ids(local, ra).contains(k) == (artist_id_set(ra).contains(k) && !local.contains(
            k,
        )),
    decreases ra.len(),
{
    if ra.len() > 0 {
        let d = ra.drop_last();
        lemma_new_artist_ids(local, d, k);
        lemma_push_contains(new_artist_ids(local, d), ra.last().id@, k);
        if artist_id_set(ra).contains(k) && k != ra.last().id@ {
            let i = choose|i: int| 0 <= i < ra.len() && ra[i].id@ == k;
            assert(d[i].id@ == k);
        }
        if artist_id_set(d).contains(k) {
            let i = choose|i: int| 0 <= i < d.len() && d[i].id@ == k;
            assert(ra[i].id@ == k);
        }
        assert(ra[ra.len() - 1].id@ == ra.last().id@);
    }
}

/// The new album ids are the remote album ids not in `local`.
pub proof fn lemma_new_album_ids(local: Set<Seq<char>>, rb: Seq<AlbumV>, k: Seq<char>)
    ensures
        new_album_ids(local, rb).contains(k) == (album_id_set(rb).contains(k) && !local.contains(
            k,
        )),
    decreases rb.len(),
{
    if rb.len() > 0 {
        let d = rb.drop_last();
        lemma_new_album_ids(local, d, k);
        if album_id_set(rb).contains(k) && !album_has_id(rb.last(), k) {
            let i = choose|i: int| 0 <= i < rb.len() && album_has_id(rb[i], k);
            assert(album_has_id(d[i], k));
        }
        if album_id_set(d).contains(k) {
            let i = choose|i: int| 0 <= i < d.len() && album_has_id(d[i], k);
            assert(album_has_id(rb[i], k));
        }
        assert(rb[rb.len() - 1] == rb.last());
        match rb.last().id {
            Some(id) => {
                lemma_push_contains(new_album_ids(local, d), id@, k);
            },
            None => {},
        }
    }
}

/// The songs table after the song lists `l0` (added), `l2` (updated) and
/// `l1` (removed) of the remote delta are applied holds exactly the remote
/// song ids; so does the table left as it was when those lists are empty.
pub proof fn lemma_songs_converge(
    before: LibraryDatabase,
    after_songs: Map<Seq<char>, SongV>,
    rs: Seq<SongV>,
    ra: Seq<ArtistV>,
    rb: Seq<AlbumV>,
)
    requires
        before.wf(),
        ({
            let l = remote_delta(before, rs, ra, rb);
            ||| (l[0].len() == 0 && l[1].len() == 0 && after_songs == before.songs@)
            ||| after_songs == remove_keys(
                write_songs_by_id(write_songs_by_id(before.songs@, l[0], rs), l[2], rs),
                l[1],
            )
        }),
    ensures
        after_songs.dom() == song_id_set(rs),
{
    let l = remote_delta(before, rs, ra, rb);
    lemma_song_positions(rs);
    assert forall|k: Seq<char>| #[trigger] after_songs.dom().contains(k) == song_id_set(rs).contains(k) by {
        lemma_new_song_ids(before.songs@, rs, k);
        lemma_key_seq(before.songs, k);
        lemma_missing_keys(before.songs.key_seq(), song_id_set(rs), k);
        if song_id_set(rs).contains(k) {
            let i = choose|i: int| 0 <= i < rs.len() && rs[i].id@ == k;
            assert(song_positions(rs).contains_key(rs[i].id@));
        }
        if song_positions(rs).contains_key(k) {
            assert(rs[song_positions(rs)[k]].id@ == k);
        }
        if after_songs != before.songs@ || l[0].len() != 0 || l[1].len() != 0 {
            lemma_write_songs_dom(before.songs@, l[0], rs, k);
            lemma_write_songs_dom(write_songs_by_id(before.songs@, l[0], rs), l[2], rs, k);
            lemma_remove_keys_dom(
                write_songs_by_id(write_songs_by_id(before.songs@, l[0], rs), l[2], rs),
                l[1],
                k,
            );
        }
    }
    assert(after_songs.dom() =~= song_id_set(rs));
}

/// After an incremental sync (the delta from the local tables to the remote
/// lists applied, an empty one leaving the tables as they were), the local
/// song, artist and album ids are exactly the remote ones.
pub proof fn lemma_incremental_sync_converges(
    before: LibraryDatabase,
    after: LibraryDatabase,
    rs: Seq<SongV>,
    ra: Seq<ArtistV>,
    rb: Seq<AlbumV>,
    now: Seq<char>,
)
    requires
        before.wf(),
        incremental_synced(after, before, rs, ra, rb, now),
    ensures
        after.songs@.dom() == song_id_set(rs),
        after.artists@.dom() == artist_id_set(ra),
        after.albums@.dom() == album_id_set(rb),
{
    let l = remote_delta(before, rs, ra, rb);
    let empty = lists_empty(l);
    if empty {
        assert(l[0].len() == 0 && l[1].len() == 0 && l[3].len() == 0);
        assert(l[4].len() == 0 && l[6].len() == 0 && l[7].len() == 0);
    }
    lemma_songs_converge(before, after.songs@, rs, ra, rb);
    lemma_artist_positions(ra);
    lemma_album_positions(rb);
    assert forall|k: Seq<char>| #[trigger] after.artists@.dom().contains(k) == artist_id_set(ra).contains(k) by {
        lemma_new_artist_ids(before.artists@.dom(), ra, k);
        lemma_key_seq(before.artists, k);
        lemma_missing_keys(before.artists.key_seq(), artist_id_set(ra), k);
        if artist_id_set(ra).contains(k) {
            let i = choose|i: int| 0 <= i < ra.len() && ra[i].id@ == k;
            assert(artist_positions(ra).contains_key(ra[i].id@));
        }
        if artist_positions(ra).contains_key(k) {
            assert(ra[artist_positions(ra)[k]].id@ == k);
        }
        if !empty {
            lemma_write_artists_dom(before.artists@, l[3], ra, k);
            lemma_remove_keys_dom(write_artists_by_id(before.artists@, l[3], ra), l[4], k);
        }
    }
    assert(after.artists@.dom() =~= artist_id_set(ra));
    assert forall|k: Seq<char>| #[trigger] after.albums@.dom().contains(k) == album_id_set(rb).contains(k) by {
        lemma_new_album_ids(before.albums@.dom(), rb, k);
        lemma_key_seq(before.albums, k);
        lemma_missing_keys(before.albums.key_seq(), album_id_set(rb), k);
        if album_id_set(rb).contains(k) {
            let i = choose|i: int| 0 <= i < rb.len() && album_has_id(rb[i], k);
            assert(album_positions(rb).contains_key(k));
        }
        if album_positions(rb).contains_key(k) {
            assert(album_has_id(rb[album_positions(rb)[k]], k));
        }
        if !empty {
            lemma_write_albums_dom(before.albums@, l[6], rb, k);
            lemma_remove_keys_dom(write_albums_by_id(before.albums@, l[6], rb), l[7], k);
        }
    }
    assert(after.albums@.dom() =~= album_id_set(rb));
}

/// Writing songs in order adds exactly their ids.
pub proof fn lemma_put_songs_dom(m: Map<Seq<char>, SongV>, s: Seq<SongV>, k: Seq<char>)
    ensures
        put_songs(m, s).contains_key(k) == (m.contains_key(k) || song_id_set(s).contains(k)),
    decreases s.len(),
{
    if s.len() > 0 {
        let d = s.drop_last();
        lemma_put_songs_dom(m, d, k);
        if song_id_set(s).contains(k) && k != s.last().id@ {
            let i = choose|i: int| 0 <= i < s.len() && s[i].id@ == k;
            assert(d[i].id@ == k);
        }
        if song_id_set(d).contains(k) {
            let i = choose|i: int| 0 <= i < d.len() && d[i].id@ == k;
            assert(s[i].id@ == k);
        }
        assert(s[s.len() - 1].id@ == s.last().id@);
    }
}

/// Writing artists in order adds exactly their ids.
pub proof fn lemma_put_artists_dom(m: Map<Seq<char>, ArtistV>, s: Seq<ArtistV>, k: Seq<char>)
    ensures
        put_artists(m, s).contains_key(k) == (m.contains_key(k) || artist_id_set(s).contains(k)),
    decreases s.len(),
{
    if s.len() > 0 {
        let d = s.drop_last();
        lemma_put_artists_dom(m, d, k);
        if artist_id_set(s).contains(k) && k != s.last().id@ {
            let i = choose|i: int| 0 <= i < s.len() && s[i].id@ == k;
            assert(d[i].id@ == k);
        }
        if artist_id_set(d).contains(k) {
            let i = choose|i: int| 0 <= i < d.len() && d[i].id@ == k;
            assert(s[i].id@ == k);
        }
        assert(s[s.len() - 1].id@ == s.last().id@);
    }
}

/// After `sync_incremental`, whether it fell back to a full sync or not,
/// the local song and artist ids are exactly the remote ones.
pub proof fn lemma_sync_incremental_converges(
    before: LibraryDatabase,
    after: LibraryDatabase,
    rs: Seq<SongV>,
    ra: Seq<ArtistV>,
    rb: Seq<AlbumV>,
    now: Seq<char>,
    full: bool,
)
    requires
        before.wf(),
        full ==> library_synced(after, before, rs, ra, rb, true, now),
        !full ==> incremental_synced(after, before, rs, ra, rb, now),
    ensures
        after.songs@.dom() == song_id_set(rs),
        after.artists@.dom() == artist_id_set(ra),
{
    if full {
        assert forall|k: Seq<char>| #[trigger] after.songs@.dom().contains(k) == song_id_set(rs).contains(k) by {
            lemma_put_songs_dom(Map::empty(), rs, k);
        }
        assert forall|k: Seq<char>| #[trigger] after.artists@.dom().contains(k) == artist_id_set(ra).contains(k) by {
            lemma_put_artists_dom(Map::empty(), ra, k);
        }
        assert(after.songs@.dom() =~= song_id_set(rs));
        assert(after.artists@.dom() =~= artist_id_set(ra));
    } else {
        lemma_incremental_sync_converges(before, after, rs, ra, rb, now);
    }
}

/// After `sync_songs_only`, whether it was a full songs sync or not, the
/// local song ids are exactly the remote ones.
pub proof fn lemma_sync_songs_only_converges(
    before: LibraryDatabase,
    after: LibraryDatabase,
    rs: Seq<SongV>,
    now: Seq<char>,
    full: bool,
)
    requires
        before.wf(),
        full ==> library_synced(after, before, rs, Seq::empty(), Seq::empty(), true, now),
        !full ==> songs_only_synced(after, before, rs, now),
    ensures
        after.songs@.dom() == song_id_set(rs),
{
    if full {
        assert forall|k: Seq<char>| #[trigger] after.songs@.dom().contains(k) == song_id_set(rs).contains(k) by {
            lemma_put_songs_dom(Map::empty(), rs, k);
        }
        assert(after.songs@.dom() =~= song_id_set(rs));
    } else {
        let l = remote_delta(before, rs, Seq::empty(), Seq::empty());
        assert(song_lists(l)[0] == l[0] && song_lists(l)[1] == l[1] && song_lists(l)[2] == l[2]);
        lemma_songs_converge(before, after.songs@, rs, Seq::empty(), Seq::empty());
    }
}

/// Removing keys one by one is removing the set of them.
pub proof fn lemma_remove_keys_set<W>(m: Map<Seq<char>, W>, ids: Seq<Seq<char>>)
    ensures
        remove_keys(m, ids) == m.remove_keys(ids.to_set()),
    decreases ids.len(),
{
    if ids.len() > 0 {
        lemma_remove_keys_set(m, ids.drop_last());
        assert forall|k: Seq<char>| #[trigger] ids.to_set().contains(k) == (ids.drop_last().to_set().contains(k) || k == ids.last()) by {
            lemma_drop_last_contains(ids, k);
        }
        assert(remove_keys(m, ids) =~= m.remove_keys(ids.to_set()));
    } else {
        assert(ids.to_set() =~= Set::<Seq<char>>::empty());
        assert(m.remove_keys(ids.to_set()) =~= m);
    }
}

/// Removing the keys of a table missing from `valid` leaves the table's map
/// restricted to `valid`.
pub proof fn lemma_remove_missing<V: View>(t: Table<V>, valid: Set<Seq<char>>)
    ensures
        remove_keys(t@, missing_keys(t.key_seq(), valid)) == t@.restrict(valid),
        missing_keys(t.key_seq(), valid).to_set() == t@.dom().difference(valid),
{
    let gone = missing_keys(t.key_seq(), valid);
    lemma_remove_keys_set(t@, gone);
    assert forall|k: Seq<char>| #[trigger] gone.to_set().contains(k) == t@.dom().difference(valid).contains(k) by {
        lemma_missing_keys(t.key_seq(), valid, k);
        lemma_key_seq(t, k);
    }
    assert(gone.to_set() =~= t@.dom().difference(valid));
    assert(t@.remove_keys(gone.to_set()) =~= t@.restrict(valid));
}

/// A subsequence of distinct keys is distinct.
pub proof fn lemma_missing_keys_distinct(keys: Seq<Seq<char>>, present: Set<Seq<char>>)
    requires
        keys.no_duplicates(),
    ensures
        missing_keys(keys, present).no_duplicates(),
    decreases keys.len(),
{
    if keys.len() > 0 {
        let d = keys.drop_last();
        assert(d.no_duplicates()) by {
            assert forall|i: int, j: int| 0 <= i < d.len() && 0 <= j < d.len() && i != j implies d[i] != d[j] by {
                assert(d[i] == keys[i] && d[j] == keys[j]);
            }
        }
        lemma_missing_keys_distinct(d, present);
        let r = missing_keys(d, present);
        if !present.contains(keys.last()) {
            lemma_missing_keys(d, present, keys.last());
            if d.contains(keys.last()) {
                let i = choose|i: int| 0 <= i < d.len() && d[i] == keys.last();
                assert(keys[i] == keys[keys.len() - 1]);
            }
            assert forall|i: int, j: int| 0 <= i < r.push(keys.last()).len() && 0 <= j < r.push(keys.last()).len() && i != j implies r.push(keys.last())[i] != r.push(keys.last())[j] by {
                if i < r.len() && j < r.len() {
                } else if i < r.len() {
                    assert(r.contains(r[i]));
                } else if j < r.len() {
                    assert(r.contains(r[j]));
                }
            }
        }
    }
}

/// The keys of a table are distinct.
pub proof fn lemma_key_seq_distinct<V: View>(t: Table<V>)
    requires
        t.wf(),
    ensures
        t.key_seq().no_duplicates(),
{
    let ks = t.key_seq();
    assert forall|i: int, j: int| 0 <= i < ks.len() && 0 <= j < ks.len() && i != j implies ks[i] != ks[j] by {
        if i < j {
            assert(crate::text::seq_lt(t.rows()[i].0, t.rows()[j].0));
            crate::text::lemma_lt_irreflexive(ks[i]);
        } else {
            assert(crate::text::seq_lt(t.rows()[j].0, t.rows()[i].0));
            crate::text::lemma_lt_irreflexive(ks[i]);
        }
    }
}

/// The number of keys of a table missing from `valid` is the number of its
/// keys outside `valid`.
pub proof fn lemma_missing_count<V: View>(t: Table<V>, valid: Set<Seq<char>>)
    requires
        t.wf(),
    ensures
        missing_keys(t.key_seq(), valid).len() == t@.dom().difference(valid).len(),
{
    lemma_key_seq_distinct(t);
    lemma_missing_keys_distinct(t.key_seq(), valid);
    lemma_remove_missing(t, valid);
    missing_keys(t.key_seq(), valid).unique_seq_to_set();
}

} // verus!
