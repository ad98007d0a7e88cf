use aurelia::db::albums::CacheError;
use aurelia::db::repositories::{ArtistRepository, SongRepository};
use aurelia::db::{
    reset_for_tests, reset_sync_state, sync_all, sync_incremental, sync_songs_only,
    update_full_sync_progress, update_songs_favorite_status,
};
use aurelia::models::{Album, Artist, Song};
use aurelia::order::sort_desc_by_key;
use aurelia::store::{LibraryDatabase, LibraryService};

const NOW: &str = "2025-03-01T10:00:00+00:00";

fn song(id: &str, album_id: &str, artist_id: &str) -> Song {
    Song {
        id: id.to_string(),
        name: format!("Song {id}"),
        item_type: "Audio".to_string(),
        album: Some(format!("Album {album_id}")),
        album_id: Some(album_id.to_string()),
        artists: Some(vec![format!("Artist {artist_id}")]),
        artist_ids: Some(vec![artist_id.to_string()]),
        path: None,
        duration_bits: None,
        album_art_url: None,
        year: None,
        play_count: None,
        is_favorite: Some(false),
        disc_number: None,
        track_number: None,
        container: None,
        bit_rate: None,
        sample_rate: None,
        codec: None,
        genres: None,
        premiere_date: None,
        date_played: None,
        date_created: None,
        date_modified: Some("2025-01-01".to_string()),
        album_artists: None,
        lyrics: None,
        image_tags: None,
    }
}

fn artist(id: &str) -> Artist {
    Artist {
        name: format!("Artist {id}"),
        id: id.to_string(),
        image_tags: None,
        image_url: None,
        overview: None,
        provider_ids: None,
        community_rating_bits: None,
        song_count: None,
        date_modified: None,
        songs: None,
    }
}

fn album(id: Option<&str>, artist_id: &str) -> Album {
    Album {
        id: id.map(|s| s.to_string()),
        name: "Album".to_string(),
        artist: format!("Artist {artist_id}"),
        artist_id: Some(artist_id.to_string()),
        album_art_url: None,
        song_count: 1,
        songs: None,
        image_tags: None,
        provider_ids: None,
        date_created: None,
        date_modified: None,
    }
}

fn song_ids(songs: &[Song]) -> Vec<String> {
    songs.iter().map(|s| s.id.clone()).collect()
}

fn ids(v: &[&str]) -> Vec<String> {
    v.iter().map(|s| s.to_string()).collect()
}

fn synced() -> LibraryService {
    let mut service = LibraryService::new(LibraryDatabase::new());
    sync_all(
        &mut service,
        &[song("s1", "al1", "ar1"), song("s2", "al1", "ar1"), song("s3", "al2", "ar2")],
        &[artist("ar1"), artist("ar2")],
        &[album(Some("al1"), "ar1"), album(Some("al2"), "ar2")],
        NOW,
    );
    service
}

#[test]
fn sync_all_replaces_the_library() {
    let service = synced();
    let songs = aurelia::db::songs::get_all(&service.db);
    assert_eq!(song_ids(&songs), ids(&["s1", "s2", "s3"]));
    assert_eq!(aurelia::db::artists::get_all(&service.db).len(), 2);
    assert_eq!(aurelia::db::albums::get_all(&service.db).len(), 2);
    let state = service.get_sync_state();
    assert_eq!(state.song_count, 3);
    assert_eq!(state.artist_count, 2);
    assert_eq!(state.album_count, 2);
}

#[test]
fn sync_incremental_on_empty_library_is_full() {
    let mut service = LibraryService::new(LibraryDatabase::new());
    let full = sync_incremental(&mut service, &[song("s1", "al1", "ar1")], &[artist("ar1")], &[], NOW);
    assert!(full);
    assert_eq!(service.get_library_stats(), (1, 1, 0));
}

#[test]
fn sync_incremental_applies_small_changes() {
    let mut service = synced();
    let mut changed = song("s1", "al1", "ar1");
    changed.date_modified = Some("2025-02-01".to_string());
    changed.name = "Changed".to_string();
    let songs = vec![
        changed,
        song("s2", "al1", "ar1"),
        song("s3", "al2", "ar2"),
    ];
    let artists = vec![artist("ar1"), artist("ar2")];
    let albums = vec![album(Some("al1"), "ar1"), album(Some("al2"), "ar2")];
    let full = sync_incremental(&mut service, &songs, &artists, &albums, NOW);
    assert!(!full);
    let stored = aurelia::db::songs::get_by_id(&service.db, "s1").unwrap();
    assert_eq!(stored.name, "Changed");
}

#[test]
fn sync_incremental_falls_back_to_full_on_large_changes() {
    let mut service = synced();
    let songs = vec![song("n1", "al1", "ar1"), song("n2", "al1", "ar1"), song("n3", "al1", "ar1")];
    let full = sync_incremental(&mut service, &songs, &[artist("ar1")], &[album(Some("al1"), "ar1")], NOW);
    assert!(full);
    let stored = aurelia::db::songs::get_all(&service.db);
    assert_eq!(song_ids(&stored), ids(&["n1", "n2", "n3"]));
}

#[test]
fn sync_songs_only_full_then_incremental() {
    let mut service = LibraryService::new(LibraryDatabase::new());
    assert!(sync_songs_only(&mut service, &[song("s1", "al1", "ar1")], NOW));
    assert!(!sync_songs_only(&mut service, &[song("s1", "al1", "ar1"), song("s2", "al1", "ar1")], NOW));
    let stored = aurelia::db::songs::get_all(&service.db);
    assert_eq!(song_ids(&stored), ids(&["s1", "s2"]));
}

#[test]
fn sync_songs_only_keeps_artists_and_albums() {
    let mut service = synced();
    let mut changed = song("s1", "al1", "ar1");
    changed.date_modified = Some("2025-02-01".to_string());
    assert!(!sync_songs_only(&mut service, &[changed, song("s4", "al2", "ar2")], NOW));
    let stored = aurelia::db::songs::get_all(&service.db);
    assert_eq!(song_ids(&stored), ids(&["s1", "s4"]));
    assert_eq!(aurelia::db::artists::get_all(&service.db).len(), 2);
    assert_eq!(aurelia::db::albums::get_all(&service.db).len(), 2);
}

#[test]
fn favorites_follow_the_given_ids() {
    let mut service = synced();
    let n = update_songs_favorite_status(&mut service, &ids(&["s2", "s9"]), NOW);
    assert_eq!(n, 1);
    assert_eq!(aurelia::db::songs::get_by_id(&service.db, "s2").unwrap().is_favorite, Some(true));
    assert_eq!(aurelia::db::songs::get_by_id(&service.db, "s1").unwrap().is_favorite, Some(false));
    // Running it again changes nothing.
    assert_eq!(update_songs_favorite_status(&mut service, &ids(&["s2"]), NOW), 0);
    // Clearing the list unmarks s2.
    assert_eq!(update_songs_favorite_status(&mut service, &[], NOW), 1);
    assert_eq!(aurelia::db::songs::get_by_id(&service.db, "s2").unwrap().is_favorite, Some(false));
}

#[test]
fn sync_state_reset_and_progress() {
    let mut service = synced();
    update_full_sync_progress(&mut service, "albums", 4);
    let state = service.get_sync_state();
    assert!(state.full_sync_in_progress);
    assert_eq!(state.full_sync_entity_type, Some("albums".to_string()));
    assert_eq!(state.full_sync_last_page_index, 4);
    assert_eq!(state.song_count, 3);

    reset_sync_state(&mut service);
    let state = service.get_sync_state();
    assert!(!state.full_sync_in_progress);
    assert_eq!(state.song_count, 0);
    assert_eq!(state.last_sync_time, "1970-01-01T00:00:00Z");
    // The items stay.
    assert_eq!(service.get_library_stats(), (3, 2, 2));
}

#[test]
fn reset_for_tests_empties_everything() {
    let mut service = synced();
    reset_for_tests(&mut service.db);
    assert_eq!(service.get_library_stats(), (0, 0, 0));
    assert!(service.db.sync_state.is_none());
}

#[test]
fn song_repository_queries_by_album_artist_and_favorite() {
    let service = synced();
    let mut repo = SongRepository::new(service.db);
    assert_eq!(song_ids(&repo.get_by_album("al1")), ids(&["s1", "s2"]));
    assert_eq!(song_ids(&repo.get_by_artist("ar2")), ids(&["s3"]));
    assert!(repo.get_favorites().is_empty());
    repo.update_favorite_status("s3", true, NOW);
    assert_eq!(song_ids(&repo.get_favorites()), ids(&["s3"]));
    assert_eq!(repo.get("s3").unwrap().is_favorite, Some(true));
    assert!(repo.get("missing").is_none());

    let mut extra = song("s4", "al9", "ar9");
    extra.is_favorite = Some(true);
    repo.upsert_with_indexes(&extra, NOW);
    assert_eq!(song_ids(&repo.get_by_album("al9")), ids(&["s4"]));
    assert_eq!(song_ids(&repo.get_favorites()), ids(&["s3", "s4"]));

    repo.clear();
    assert!(repo.get_all().is_empty());
    assert!(repo.get_by_album("al1").is_empty());
    assert!(repo.get_favorites().is_empty());
}

#[test]
fn artist_repository_round_trip() {
    let mut repo = ArtistRepository::new(LibraryDatabase::new());
    repo.upsert(&artist("ar1"));
    repo.insert("ar2", &artist("ar2"));
    assert_eq!(repo.get("ar1").unwrap().name, "Artist ar1");
    assert_eq!(repo.get_all().len(), 2);
    repo.clear();
    assert!(repo.get_all().is_empty());
    assert!(repo.get("ar1").is_none());
}

#[test]
fn album_without_id_is_not_cached() {
    let mut db = LibraryDatabase::new();
    assert_eq!(aurelia::db::albums::cache(&mut db, &album(None, "ar1")), Err(CacheError::AlbumHasNoId));
    assert_eq!(CacheError::AlbumHasNoId.message(), "Album has no ID");
    assert_eq!(aurelia::db::albums::cache(&mut db, &album(Some("al1"), "ar1")), Ok(()));
    assert_eq!(aurelia::db::albums::get_by_id(&db, "al1").unwrap().artist, "Artist ar1");
    aurelia::db::albums::clear(&mut db);
    assert!(aurelia::db::albums::get_all(&db).is_empty());
}

#[test]
fn artists_table_cache_and_lookup() {
    let mut db = LibraryDatabase::new();
    aurelia::db::artists::cache(&mut db, &artist("ar1"));
    assert_eq!(aurelia::db::artists::get_by_id(&db, "ar1").unwrap().id, "ar1");
    assert!(aurelia::db::artists::get_by_id(&db, "ar2").is_none());
    aurelia::db::artists::clear(&mut db);
    assert!(aurelia::db::artists::get_all(&db).is_empty());
}

#[test]
fn sort_desc_by_key_is_stable_and_greatest_first() {
    let v = vec![(1, "a".to_string()), (3, "b".to_string()), (1, "c".to_string()), (2, "d".to_string())];
    let sorted = sort_desc_by_key(v);
    let order: Vec<String> = sorted.iter().map(|p| p.1.clone()).collect();
    assert_eq!(order, vec!["b", "d", "a", "c"]);

    let dated = vec![
        (Some("2025-01-01".to_string()), 1u8),
        (None, 2u8),
        (Some("2025-03-01".to_string()), 3u8),
    ];
    let sorted = sort_desc_by_key(dated);
    let order: Vec<u8> = sorted.iter().map(|p| p.1).collect();
    assert_eq!(order, vec![3, 1, 2]);
}
