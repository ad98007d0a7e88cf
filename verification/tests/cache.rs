use aurelia::cache::{
    clear_cache, clear_credentials, delete_setting, get_songs, get_sync_state, load_credentials,
    load_setting, save_credentials, save_setting, set_sync_state, sync_library,
    update_song_favorite_status,
};
use aurelia::domain::SyncState;
use aurelia::models::{Album, Artist, BackendProvider, Credentials, Song};
use aurelia::store::{LibraryDatabase, LibraryService};

const NOW: &str = "2025-03-01T10:00:00+00:00";

fn song(id: &str) -> Song {
    Song {
        id: id.to_string(),
        name: format!("Song {id}"),
        item_type: "Audio".to_string(),
        album: None,
        album_id: None,
        artists: None,
        artist_ids: None,
        path: None,
        duration_bits: None,
        album_art_url: None,
        year: None,
        play_count: None,
        is_favorite: None,
        disc_number: None,
        track_number: None,
        container: None,
        bit_rate: None,
        sample_rate: None,
        codec: None,
        genres: None,
        premiere_date: None,
        date_played: None,
        date_created: None,
        date_modified: None,
        album_artists: None,
        lyrics: None,
        image_tags: None,
    }
}

#[test]
fn sync_and_load_songs() {
    let mut service = LibraryService::new(LibraryDatabase::new());
    let songs = vec![song("s1"), song("s2")];
    let artists: Vec<Artist> = Vec::new();
    let albums: Vec<Album> = Vec::new();

    sync_library(&mut service, &songs, &artists, &albums, NOW);
    let loaded = get_songs(&service.db);
    assert_eq!(loaded.len(), 2);
}

#[test]
fn save_and_clear_credentials() {
    let mut db = LibraryDatabase::new();
    let creds = Credentials {
        provider: BackendProvider::Jellyfin,
        server_url: "http://localhost:8096".to_string(),
        username: "user".to_string(),
        token: "token".to_string(),
        user_id: "user-id".to_string(),
    };

    save_credentials(&mut db, &creds);
    let loaded = load_credentials(&db);
    let loaded = loaded.expect("credentials present");
    assert_eq!(loaded.server_url, creds.server_url);
    assert_eq!(loaded.username, creds.username);
    assert_eq!(loaded.token, creds.token);
    assert_eq!(loaded.user_id, creds.user_id);

    clear_credentials(&mut db);
    let cleared = load_credentials(&db);
    assert!(cleared.is_none());
}

#[test]
fn settings_roundtrip_and_delete() {
    let mut db = LibraryDatabase::new();
    assert!(load_setting(&db, "volume").is_none());
    save_setting(&mut db, "volume", "0.8");
    save_setting(&mut db, "theme", "dark");
    assert_eq!(load_setting(&db, "volume").as_deref(), Some("0.8"));
    save_setting(&mut db, "volume", "0.5");
    assert_eq!(load_setting(&db, "volume").as_deref(), Some("0.5"));
    delete_setting(&mut db, "volume");
    assert!(load_setting(&db, "volume").is_none());
    assert_eq!(load_setting(&db, "theme").as_deref(), Some("dark"));
}

#[test]
fn favorite_status_marks_and_unmarks() {
    let mut service = LibraryService::new(LibraryDatabase::new());
    sync_library(&mut service, &[song("s1")], &[], &[], NOW);
    update_song_favorite_status(&mut service.db, "s1", true, "t1");
    assert_eq!(service.db.songs.get("s1").unwrap().is_favorite, Some(true));
    assert_eq!(service.db.favorites.get("s1").map(|s| s.as_str()), Some("t1"));
    update_song_favorite_status(&mut service.db, "s1", false, "t2");
    assert_eq!(service.db.songs.get("s1").unwrap().is_favorite, Some(false));
    assert!(service.db.favorites.get("s1").is_none());
}

#[test]
fn clear_cache_empties_library_tables_only() {
    let mut service = LibraryService::new(LibraryDatabase::new());
    sync_library(&mut service, &[song("s1")], &[], &[], NOW);
    save_setting(&mut service.db, "k", "v");
    clear_cache(&mut service.db);
    assert_eq!(get_songs(&service.db).len(), 0);
    assert_eq!(load_setting(&service.db, "k").as_deref(), Some("v"));
}

#[test]
fn sync_state_set_and_get() {
    let mut service = LibraryService::new(LibraryDatabase::new());
    assert_eq!(get_sync_state(&service).last_sync_time, "1970-01-01T00:00:00Z");
    let mut state = SyncState::default();
    state.song_count = 7;
    state.last_sync_time = "2025-01-01T00:00:00Z".to_string();
    set_sync_state(&mut service, state);
    let read = get_sync_state(&service);
    assert_eq!(read.song_count, 7);
    assert_eq!(read.last_sync_time, "2025-01-01T00:00:00Z");
}
