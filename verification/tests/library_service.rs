use aurelia::domain::SyncDelta;
use aurelia::models::{Album, Artist, Song};
use aurelia::store::{LibraryDatabase, LibraryService};

const NOW: &str = "2025-03-01T10:00:00+00:00";

fn service() -> LibraryService {
    LibraryService::new(LibraryDatabase::new())
}

fn song(id: &str, album_id: &str, artist_id: &str, date_modified: &str) -> Song {
    Song {
        id: id.to_string(),
        name: format!("Song {id}"),
        item_type: "Audio".to_string(),
        album: Some(format!("Album {album_id}")),
        album_id: Some(album_id.to_string()),
        artists: Some(vec![format!("Artist {artist_id}")]),
        artist_ids: Some(vec![artist_id.to_string()]),
        path: None,
        duration_bits: None,
        album_art_url: None,
        year: None,
        play_count: None,
        is_favorite: None,
        disc_number: None,
        track_number: None,
        container: None,
        bit_rate: None,
        sample_rate: None,
        codec: None,
        genres: None,
        premiere_date: None,
        date_played: None,
        date_created: Some("2024-01-01T00:00:00Z".to_string()),
        date_modified: Some(date_modified.to_string()),
        album_artists: None,
        lyrics: None,
        image_tags: None,
    }
}

fn artist(id: &str) -> Artist {
    Artist {
        name: format!("Artist {id}"),
        id: id.to_string(),
        image_tags: None,
        image_url: None,
        overview: None,
        provider_ids: None,
        community_rating_bits: None,
        song_count: None,
        date_modified: None,
        songs: None,
    }
}

fn album(id: &str, artist_id: &str) -> Album {
    Album {
        id: Some(id.to_string()),
        name: format!("Album {id}"),
        artist: format!("Artist {artist_id}"),
        artist_id: Some(artist_id.to_string()),
        album_art_url: None,
        song_count: 1,
        songs: None,
        image_tags: None,
        provider_ids: None,
        date_created: Some("2024-01-01T00:00:00Z".to_string()),
        date_modified: None,
    }
}

fn ids(v: &[&str]) -> Vec<String> {
    v.iter().map(|s| s.to_string()).collect()
}

fn synced_service() -> (LibraryService, Vec<Song>, Vec<Artist>, Vec<Album>) {
    let mut service = service();
    let local_songs = vec![
        song("song1", "album1", "artist1", "2024-01-01T00:00:00Z"),
        song("song2", "album2", "artist2", "2024-01-01T00:00:00Z"),
        song("song_local", "album2", "artist2", "2024-01-01T00:00:00Z"),
    ];
    let local_artists = vec![artist("artist1"), artist("artist2")];
    let local_albums = vec![album("album1", "artist1"), album("album2", "artist2")];
    service.sync_library(&local_songs, &local_artists, &local_albums, true, NOW);

    let remote_songs = vec![
        song("song1", "album1", "artist1", "2024-01-01T00:00:00Z"),
        song("song2", "album2", "artist2", "2024-02-01T00:00:00Z"),
        song("song3", "album3", "artist3", "2024-02-01T00:00:00Z"),
    ];
    let remote_artists = vec![artist("artist1"), artist("artist3")];
    let remote_albums = vec![album("album1", "artist1"), album("album3", "artist3")];
    (service, remote_songs, remote_artists, remote_albums)
}

#[test]
fn compute_delta_detects_add_update_remove() {
    let (service, remote_songs, remote_artists, remote_albums) = synced_service();
    let delta = service.compute_delta(&remote_songs, &remote_artists, &remote_albums);

    assert!(delta.songs_to_add.contains(&"song3".to_string()));
    assert!(delta.songs_to_update.contains(&"song2".to_string()));
    assert!(delta.songs_to_remove.contains(&"song_local".to_string()));
    assert!(delta.artists_to_add.contains(&"artist3".to_string()));
    assert!(delta.artists_to_remove.contains(&"artist2".to_string()));
    assert!(delta.albums_to_add.contains(&"album3".to_string()));
    assert!(delta.albums_to_remove.contains(&"album2".to_string()));
}

#[test]
fn apply_delta_updates_counts() {
    let (mut service, remote_songs, remote_artists, remote_albums) = synced_service();
    let delta = service.compute_delta(&remote_songs, &remote_artists, &remote_albums);
    let report = service.apply_delta(&delta, &remote_songs, &remote_artists, &remote_albums, NOW);
    let (song_count, artist_count, album_count) = service.get_library_stats();

    assert_eq!(report.full_sync, false);
    assert_eq!(song_count, 3);
    assert_eq!(artist_count, 2);
    assert_eq!(album_count, 2);
}

#[test]
fn apply_delta_noop_when_empty() {
    let mut service = service();
    let report = service.apply_delta(&SyncDelta::default(), &[], &[], &[], NOW);
    assert_eq!(report.songs_updated, 0);
}

#[test]
fn upsert_songs_inserts_new_and_updates_existing() {
    let mut service = service();
    let songs_v1 = vec![
        song("s1", "a1", "ar1", "2024-01-01T00:00:00Z"),
        song("s2", "a1", "ar1", "2024-01-01T00:00:00Z"),
    ];
    let count = service.upsert_songs(&songs_v1, NOW);
    assert_eq!(count, 2);
    let (song_count, _, _) = service.get_library_stats();
    assert_eq!(song_count, 2);

    let songs_v2 = vec![
        song("s1", "a1", "ar1", "2024-06-01T00:00:00Z"),
        song("s3", "a2", "ar2", "2024-06-01T00:00:00Z"),
    ];
    let count = service.upsert_songs(&songs_v2, NOW);
    assert_eq!(count, 2);
    let (song_count, _, _) = service.get_library_stats();
    assert_eq!(song_count, 3);
}

#[test]
fn upsert_albums_inserts_and_updates() {
    let mut service = service();
    let albums_v1 = vec![album("alb1", "ar1"), album("alb2", "ar1")];
    let count = service.upsert_albums(&albums_v1);
    assert_eq!(count, 2);
    let (_, _, album_count) = service.get_library_stats();
    assert_eq!(album_count, 2);

    let albums_v2 = vec![album("alb3", "ar2")];
    service.upsert_albums(&albums_v2);
    let (_, _, album_count) = service.get_library_stats();
    assert_eq!(album_count, 3);
}

#[test]
fn upsert_artists_inserts_and_updates() {
    let mut service = service();
    let artists_v1 = vec![artist("ar1"), artist("ar2")];
    let count = service.upsert_artists(&artists_v1);
    assert_eq!(count, 2);
    let (_, artist_count, _) = service.get_library_stats();
    assert_eq!(artist_count, 2);

    let artists_v2 = vec![artist("ar3")];
    service.upsert_artists(&artists_v2);
    let (_, artist_count, _) = service.get_library_stats();
    assert_eq!(artist_count, 3);
}

#[test]
fn remove_deleted_songs_removes_absent_ids() {
    let mut service = service();
    let songs = vec![
        song("s1", "a1", "ar1", "2024-01-01"),
        song("s2", "a1", "ar1", "2024-01-01"),
        song("s3", "a2", "ar2", "2024-01-01"),
    ];
    service.upsert_songs(&songs, NOW);
    let removed = service.remove_deleted_songs(&ids(&["s1", "s3"]));
    assert_eq!(removed, 1);
    let (song_count, _, _) = service.get_library_stats();
    assert_eq!(song_count, 2);
}

#[test]
fn remove_deleted_albums_removes_absent_ids() {
    let mut service = service();
    let albums = vec![album("alb1", "ar1"), album("alb2", "ar1"), album("alb3", "ar2")];
    service.upsert_albums(&albums);
    let removed = service.remove_deleted_albums(&ids(&["alb1", "alb3"]));
    assert_eq!(removed, 1);
    let (_, _, album_count) = service.get_library_stats();
    assert_eq!(album_count, 2);
}

#[test]
fn remove_deleted_artists_removes_absent_ids() {
    let mut service = service();
    let artists = vec![artist("ar1"), artist("ar2"), artist("ar3")];
    service.upsert_artists(&artists);
    let removed = service.remove_deleted_artists(&ids(&["ar1", "ar3"]));
    assert_eq!(removed, 1);
    let (_, artist_count, _) = service.get_library_stats();
    assert_eq!(artist_count, 2);
}

#[test]
fn remove_deleted_returns_zero_when_nothing_to_delete() {
    let mut service = service();
    let songs = vec![song("s1", "a1", "ar1", "2024-01-01")];
    service.upsert_songs(&songs, NOW);
    let removed = service.remove_deleted_songs(&ids(&["s1"]));
    assert_eq!(removed, 0);
}

#[test]
fn upsert_empty_is_noop() {
    let mut service = service();
    assert_eq!(service.upsert_songs(&[], NOW), 0);
    assert_eq!(service.upsert_albums(&[]), 0);
    assert_eq!(service.upsert_artists(&[]), 0);
}

#[test]
fn upsert_songs_updates_favorite_status() {
    let mut service = service();
    let mut fav_song = song("fav1", "a1", "ar1", "2024-01-01");
    fav_song.is_favorite = Some(true);
    service.upsert_songs(&[fav_song], NOW);
    assert!(service.db.favorites.contains_key("fav1"));

    let mut unfav_song = song("fav1", "a1", "ar1", "2024-02-01");
    unfav_song.is_favorite = Some(false);
    service.upsert_songs(&[unfav_song], NOW);

    let (song_count, _, _) = service.get_library_stats();
    assert_eq!(song_count, 1);
    assert!(!service.db.favorites.contains_key("fav1"));
}

#[test]
fn incremental_sync_leaves_exactly_the_remote_ids() {
    let (mut service, remote_songs, remote_artists, remote_albums) = synced_service();
    let delta = service.compute_delta(&remote_songs, &remote_artists, &remote_albums);
    service.apply_delta(&delta, &remote_songs, &remote_artists, &remote_albums, NOW);
    assert_eq!(service.db.songs.keys(), ids(&["song1", "song2", "song3"]));
    assert_eq!(service.db.artists.keys(), ids(&["artist1", "artist3"]));
    assert_eq!(service.db.albums.keys(), ids(&["album1", "album3"]));
    let state = service.get_sync_state();
    assert_eq!(state.last_sync_time, NOW);
    assert_eq!(state.song_count, 3);
    assert_eq!(state.last_full_sync_time.as_deref(), Some(NOW));
}

#[test]
fn sync_library_full_replaces_tables_and_records_state() {
    let mut service = service();
    service.sync_library(&[song("old", "a", "r", "d")], &[artist("r")], &[album("a", "r")], true, NOW);
    let report = service.sync_library(
        &[song("new", "b", "s", "d")],
        &[artist("s")],
        &[album("b", "s")],
        true,
        "2025-04-01T00:00:00+00:00",
    );
    assert!(report.full_sync);
    assert_eq!(report.songs_updated, 1);
    assert_eq!(service.db.songs.keys(), ids(&["new"]));
    assert!(service.db.songs_by_album.contains("b", "new"));
    assert!(!service.db.songs_by_album.contains("a", "old"));
    assert!(service.db.songs_by_artist.contains("s", "new"));
    assert!(service.db.albums_by_artist.contains("s", "b"));
    let state = service.get_sync_state();
    assert_eq!(state.last_full_sync_time.as_deref(), Some("2025-04-01T00:00:00+00:00"));
}

#[test]
fn album_without_id_is_stored_under_artist_and_name() {
    let mut service = service();
    let mut a = album("x", "r");
    a.id = None;
    a.artist = "Band".to_string();
    a.name = "Record".to_string();
    service.upsert_albums(&[a]);
    assert_eq!(service.db.albums.keys(), ids(&["Band-Record"]));
}

#[test]
fn local_songs_metadata_maps_ids_to_modification_dates() {
    let mut service = service();
    service.upsert_songs(&[song("s1", "a", "r", "d1"), song("s2", "a", "r", "d2")], NOW);
    let meta = service.get_local_songs_metadata();
    assert_eq!(meta.get("s1").cloned().flatten().as_deref(), Some("d1"));
    assert_eq!(meta.get("s2").cloned().flatten().as_deref(), Some("d2"));
    assert!(meta.get("s3").is_none());
}
