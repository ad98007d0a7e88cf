//! The albums table.
use vstd::prelude::*;
use crate::models::{Album, AlbumV, Duplicate};
use crate::store::LibraryDatabase;

verus! {

/// Why an album could not be cached.
#[derive(Clone, Copy, Debug, PartialEq, Eq)]
pub enum CacheError {
    /// The album has no id to be stored under.
    AlbumHasNoId,
}

/// The message of an error.
pub open spec fn cache_error_text(e: CacheError) -> Seq<char> {
    match e {
        CacheError::AlbumHasNoId => "Album has no ID"@,
    }
}

impl CacheError {
    /// The error's message.
    pub fn message(&self) -> (s: String)
        ensures
            s@ == cache_error_text(*self),
    {
        match self {
            CacheError::AlbumHasNoId => String::from_str("Album has no ID"),
        }
    }
}

/// Every stored album, in key order.
pub fn get_all(db: &LibraryDatabase) -> (r: Vec<Album>)
    requires
        db.wf(),
    ensures
        r@.map_values(|a: Album| a@) == db.albums.value_seq(),
{
    db.albums.values()
}

/// Empties the albums table.
pub fn clear(db: &mut LibraryDatabase)
    requires
        old(db).wf(),
    ensures
        final(db).wf(),
        final(db).albums@ == Map::<Seq<char>, AlbumV>::empty(),
        *final(db) == (LibraryDatabase { albums: final(db).albums, ..*old(db) }),
{
    db.albums.clear();
}

/// The album stored under `album_id`.
pub fn get_by_id(db: &LibraryDatabase, album_id: &str) -> (r: Option<Album>)
    requires
        db.wf(),
    ensures
        match r {
            Some(a) => db.albums@.contains_key(album_id@) && a@ == db.albums@[album_id@],
            None => !db.albums@.contains_key(album_id@),
        },
{
    match db.albums.get(album_id) {
        Some(a) => Some(a.duplicate()),
        None => None,
    }
}

/// Stores `album` under its id; an album without an id is refused.
pub fn cache(db: &mut LibraryDatabase, album: &Album) -> (r: Result<(), CacheError>)
    requires
        old(db).wf(),
    ensures
        final(db).wf(),
        match album.id {
            Some(id) => r is Ok && final(db).albums@ == old(db).albums@.insert(id@, album@)
                && *final(db) == (LibraryDatabase { albums: final(db).albums, ..*old(db) }),
            None => r == Err::<(), CacheError>(CacheError::AlbumHasNoId) && *final(db) == *old(db),
        },
{
    match &album.id {
        Some(id) => {
            db.albums.insert(id.clone(), album.duplicate());
            Ok(())
        },
        None => Err(CacheError::AlbumHasNoId),
    }
}

} // verus!
