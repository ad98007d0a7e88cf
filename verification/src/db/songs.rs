//! The songs table.
use vstd::prelude::*;
use crate::db::repositories::{favorite_set, set_song_favorite};
use crate::models::{Duplicate, Song, SongV};
use crate::store::LibraryDatabase;

verus! {

/// Every stored song, in id order.
pub fn get_all(db: &LibraryDatabase) -> (r: Vec<Song>)
    requires
        db.wf(),
    ensures
        r@.map_values(|s: Song| s@) == db.songs.value_seq(),
{
    db.songs.values()
}

/// The song stored under `song_id`.
pub fn get_by_id(db: &LibraryDatabase, song_id: &str) -> (r: Option<Song>)
    requires
        db.wf(),
    ensures
        match r {
            Some(s) => db.songs@.contains_key(song_id@) && s@ == db.songs@[song_id@],
            None => !db.songs@.contains_key(song_id@),
        },
{
    match db.songs.get(song_id) {
        Some(s) => Some(s.duplicate()),
        None => None,
    }
}

/// Sets the favorite flag of song `song_id` and marks (with `now`) or
/// unmarks it in the favorites.
pub fn update_favorite_status(db: &mut LibraryDatabase, song_id: &str, is_favorite: bool, now: &str)
    requires
        old(db).wf(),
    ensures
        final(db).wf(),
        favorite_set(*final(db), *old(db), song_id@, is_favorite, now@),
{
    set_song_favorite(db, song_id, is_favorite, now);
}

/// Empties the songs table (the indexes are kept).
pub fn clear(db: &mut LibraryDatabase)
    requires
        old(db).wf(),
    ensures
        final(db).wf(),
        final(db).songs@ == Map::<Seq<char>, SongV>::empty(),
        *final(db) == (LibraryDatabase { songs: final(db).songs, ..*old(db) }),
{
    db.songs.clear();
}

} // verus!
