//! The artists table.
use vstd::prelude::*;
use crate::models::{Artist, ArtistV, Duplicate};
use crate::store::LibraryDatabase;

verus! {

/// Every stored artist, in id order.
pub fn get_all(db: &LibraryDatabase) -> (r: Vec<Artist>)
    requires
        db.wf(),
    ensures
        r@.map_values(|a: Artist| a@) == db.artists.value_seq(),
{
    db.artists.values()
}

/// Empties the artists table.
pub fn clear(db: &mut LibraryDatabase)
    requires
        old(db).wf(),
    ensures
        final(db).wf(),
        final(db).artists@ == Map::<Seq<char>, ArtistV>::empty(),
        *final(db) == (LibraryDatabase { artists: final(db).artists, ..*old(db) }),
{
    db.artists.clear();
}

/// The artist stored under `artist_id`.
pub fn get_by_id(db: &LibraryDatabase, artist_id: &str) -> (r: Option<Artist>)
    requires
        db.wf(),
    ensures
        match r {
            Some(a) => db.artists@.contains_key(artist_id@) && a@ == db.artists@[artist_id@],
            None => !db.artists@.contains_key(artist_id@),
        },
{
    match db.artists.get(artist_id) {
        Some(a) => Some(a.duplicate()),
        None => None,
    }
}

/// Stores `artist` under its id.
pub fn cache(db: &mut LibraryDatabase, artist: &Artist)
    requires
        old(db).wf(),
    ensures
        final(db).wf(),
        final(db).artists@ == old(db).artists@.insert(artist.id@, artist@),
        *final(db) == (LibraryDatabase { artists: final(db).artists, ..*old(db) }),
{
    db.artists.insert(artist.id.clone(), artist.duplicate());
}

} // verus!
