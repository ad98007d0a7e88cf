//! The local cache: library sync and reads, credentials, settings and the
//! sync state, over the library database.
use vstd::prelude::*;
use crate::db;
use crate::db::repositories::favorite_set;
use crate::domain::SyncState;
use crate::models::{Album, AlbumV, Artist, ArtistV, Credentials, Duplicate, Song, SongV, album_views, artist_views, song_views};
use crate::store::{LibraryDatabase, LibraryService, library_synced, state_or_default};
use crate::text::owned;

verus! {

/// Replaces the cached library with the given lists (a full sync at `now`).
pub fn sync_library(
    service: &mut LibraryService,
    songs: &[Song],
    artists: &[Artist],
    albums: &[Album],
    now: &str,
)
    requires
        old(service).db.wf(),
    ensures
        final(service).db.wf(),
        library_synced(
            final(service).db,
            old(service).db,
            song_views(songs@),
            artist_views(artists@),
            album_views(albums@),
            true,
            now@,
        ),
{
    db::sync_all(service, songs, artists, albums, now);
}

/// Every cached song, in id order.
pub fn get_songs(db: &LibraryDatabase) -> (r: Vec<Song>)
    requires
        db.wf(),
    ensures
        r@.map_values(|s: Song| s@) == db.songs.value_seq(),
{
    db::songs::get_all(db)
}

/// Empties the songs, artists and albums tables.
pub fn clear_cache(db: &mut LibraryDatabase)
    requires
        old(db).wf(),
    ensures
        final(db).wf(),
        final(db).songs@ == Map::<Seq<char>, SongV>::empty(),
        final(db).artists@ == Map::<Seq<char>, ArtistV>::empty(),
        final(db).albums@ == Map::<Seq<char>, AlbumV>::empty(),
        *final(db) == (LibraryDatabase {
            songs: final(db).songs,
            artists: final(db).artists,
            albums: final(db).albums,
            ..*old(db)
        }),
{
    db::songs::clear(db);
    db::artists::clear(db);
    db::albums::clear(db);
}

/// Sets the favorite flag of a cached song and marks (with `now`) or
/// unmarks it in the favorites.
pub fn update_song_favorite_status(
    db: &mut LibraryDatabase,
    song_id: &str,
    is_favorite: bool,
    now: &str,
)
    requires
        old(db).wf(),
    ensures
        final(db).wf(),
        favorite_set(*final(db), *old(db), song_id@, is_favorite, now@),
{
    db::songs::update_favorite_status(db, song_id, is_favorite, now);
}

/// The stored sync state, or the initial one.
pub fn get_sync_state(service: &LibraryService) -> (st: SyncState)
    ensures
        state_or_default(service.db, st),
{
    service.get_sync_state()
}

/// Stores `state` as the sync state.
pub fn set_sync_state(service: &mut LibraryService, state: SyncState)
    ensures
        final(service).db == (LibraryDatabase { sync_state: Some(state), ..old(service).db }),
{
    service.update_sync_state(state);
}

/// Stores the credentials, replacing any stored ones.
pub fn save_credentials(db: &mut LibraryDatabase, credentials: &Credentials)
    ensures
        *final(db) == (LibraryDatabase { credentials: Some(*credentials), ..*old(db) }),
{
    db.credentials = Some(credentials.duplicate());
}

/// The stored credentials.
pub fn load_credentials(db: &LibraryDatabase) -> (r: Option<Credentials>)
    ensures
        r == db.credentials,
{
    match &db.credentials {
        Some(c) => Some(c.duplicate()),
        None => None,
    }
}

/// Removes the stored credentials.
pub fn clear_credentials(db: &mut LibraryDatabase)
    ensures
        *final(db) == (LibraryDatabase { credentials: None, ..*old(db) }),
{
    db.credentials = None;
}

/// Stores `value` under the setting `key`.
pub fn save_setting(db: &mut LibraryDatabase, key: &str, value: &str)
    requires
        old(db).wf(),
    ensures
        final(db).wf(),
        final(db).settings@ == old(db).settings@.insert(key@, value@),
        *final(db) == (LibraryDatabase { settings: final(db).settings, ..*old(db) }),
{
    db.settings.insert(owned(key), owned(value));
}

/// The value of the setting `key`.
pub fn load_setting(db: &LibraryDatabase, key: &str) -> (r: Option<String>)
    requires
        db.wf(),
    ensures
        match r {
            Some(v) => db.settings@.contains_key(key@) && v@ == db.settings@[key@],
            None => !db.settings@.contains_key(key@),
        },
{
    match db.settings.get(key) {
        Some(v) => Some(v.clone()),
        None => None,
    }
}

/// Removes the setting `key`.
pub fn delete_setting(db: &mut LibraryDatabase, key: &str)
    requires
        old(db).wf(),
    ensures
        final(db).wf(),
        final(db).settings@ == old(db).settings@.remove(key@),
        *final(db) == (LibraryDatabase { settings: final(db).settings, ..*old(db) }),
{
    let _ = db.settings.remove(key);
}

/// A setting saved and then loaded reads back as the saved value; once
/// deleted it reads as absent; the other settings are untouched by both.
pub proof fn lemma_setting_roundtrip(
    before: LibraryDatabase,
    saved: LibraryDatabase,
    deleted: LibraryDatabase,
    key: Seq<char>,
    value: Seq<char>,
)
    requires
        saved.settings@ == before.settings@.insert(key, value),
        deleted.settings@ == saved.settings@.remove(key),
    ensures
        saved.settings@.contains_key(key) && saved.settings@[key] == value,
        !deleted.settings@.contains_key(key),
        forall|k: Seq<char>|
            k != key ==> (#[trigger] deleted.settings@.contains_key(k) == before.settings@.contains_key(k))
                && (before.settings@.contains_key(k) ==> deleted.settings@[k] == before.settings@[k]),
{
}

/// Credentials saved and then loaded read back as saved; once cleared they
/// read as absent.
pub proof fn lemma_credentials_roundtrip(
    before: LibraryDatabase,
    saved: LibraryDatabase,
    cleared: LibraryDatabase,
    c: Credentials,
)
    requires
        saved == (LibraryDatabase { credentials: Some(c), ..before }),
        cleared == (LibraryDatabase { credentials: None, ..saved }),
    ensures
        saved.credentials == Some(c),
        cleared.credentials is None,
        cleared.settings == before.settings,
        cleared.songs == before.songs,
{
}

} // verus!
