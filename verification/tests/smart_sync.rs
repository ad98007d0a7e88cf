use aurelia::domain::SyncState;
use aurelia::models::{Album, Artist, Song};
use aurelia::smart_sync::{
    apply_incremental_sync, begin_full_sync, entity_name, entity_query, entity_stage,
    finish_full_sync, needs_full_sync, next_step, page_fetched, progress_marked,
    write_full_sync_page, FetchedPage, FullSyncStep, SyncEntity, SYNC_PAGE_SIZE,
};
use aurelia::store::{LibraryDatabase, LibraryService};

const NOW: &str = "2025-03-01T10:00:00+00:00";

fn song(id: &str, album_id: &str, artist_id: &str) -> Song {
    Song {
        id: id.to_string(),
        name: format!("Song {id}"),
        item_type: "Audio".to_string(),
        album: Some(format!("Album {album_id}")),
        album_id: Some(album_id.to_string()),
        artists: Some(vec![format!("Artist {artist_id}")]),
        artist_ids: Some(vec![artist_id.to_string()]),
        path: None,
        duration_bits: None,
        album_art_url: None,
        year: None,
        play_count: None,
        is_favorite: Some(false),
        disc_number: None,
        track_number: None,
        container: None,
        bit_rate: None,
        sample_rate: None,
        codec: None,
        genres: None,
        premiere_date: None,
        date_played: None,
        date_created: None,
        date_modified: None,
        album_artists: None,
        lyrics: None,
        image_tags: None,
    }
}

fn artist(id: &str) -> Artist {
    Artist {
        name: format!("Artist {id}"),
        id: id.to_string(),
        image_tags: None,
        image_url: None,
        overview: None,
        provider_ids: None,
        community_rating_bits: None,
        song_count: None,
        date_modified: None,
        songs: None,
    }
}

fn album(id: &str, artist_id: &str) -> Album {
    Album {
        id: Some(id.to_string()),
        name: format!("Album {id}"),
        artist: format!("Artist {artist_id}"),
        artist_id: Some(artist_id.to_string()),
        album_art_url: None,
        song_count: 1,
        songs: None,
        image_tags: None,
        provider_ids: None,
        date_created: None,
        date_modified: None,
    }
}

fn ids(v: &[&str]) -> Vec<String> {
    v.iter().map(|s| s.to_string()).collect()
}

#[test]
fn entity_names_and_stages() {
    assert_eq!(entity_name(SyncEntity::Songs), "songs");
    assert_eq!(entity_name(SyncEntity::Albums), "albums");
    assert_eq!(entity_name(SyncEntity::Artists), "artists");
    assert_eq!(entity_stage("songs"), 0);
    assert_eq!(entity_stage("albums"), 1);
    assert_eq!(entity_stage("artists"), 2);
    assert_eq!(entity_stage("playlists"), 0);
}

#[test]
fn full_sync_needed_for_fresh_or_interrupted_state() {
    let fresh = SyncState::default();
    assert!(needs_full_sync(&fresh));

    let mut synced = SyncState::default();
    synced.last_sync_time = "2025-01-01T00:00:00+00:00".to_string();
    synced.song_count = 10;
    assert!(!needs_full_sync(&synced));

    let mut empty = synced.clone();
    empty.song_count = 0;
    assert!(needs_full_sync(&empty));

    let mut interrupted = synced.clone();
    interrupted.full_sync_in_progress = true;
    assert!(needs_full_sync(&interrupted));
}

#[test]
fn fresh_full_sync_starts_with_songs_and_clears() {
    let (sync, clear) = begin_full_sync(&SyncState::default());
    assert!(clear);
    assert_eq!(sync.stage, Some(SyncEntity::Songs));
    assert_eq!(sync.current_start, 0);
    assert_eq!(sync.page_num, 0);
    assert!(!sync.marked);
    assert_eq!(
        next_step(&sync),
        FullSyncStep::MarkProgress { entity: SyncEntity::Songs, page_index: 0 }
    );
}

#[test]
fn interrupted_full_sync_resumes_at_recorded_page() {
    let mut state = SyncState::default();
    state.full_sync_in_progress = true;
    state.full_sync_entity_type = Some("albums".to_string());
    state.full_sync_last_page_index = 3;
    let (mut sync, clear) = begin_full_sync(&state);
    assert!(!clear);
    assert_eq!(sync.stage, Some(SyncEntity::Albums));
    assert_eq!(sync.current_start, 3 * SYNC_PAGE_SIZE);
    assert_eq!(sync.page_num, 3);
    assert_eq!(
        next_step(&sync),
        FullSyncStep::MarkProgress { entity: SyncEntity::Albums, page_index: 3 }
    );
    progress_marked(&mut sync);
    assert_eq!(
        next_step(&sync),
        FullSyncStep::FetchPage { entity: SyncEntity::Albums, start_index: 600 }
    );
}

#[test]
fn unknown_recorded_entity_restarts_songs_from_first_page() {
    let mut state = SyncState::default();
    state.full_sync_in_progress = true;
    state.full_sync_entity_type = Some("playlists".to_string());
    state.full_sync_last_page_index = 5;
    let (sync, clear) = begin_full_sync(&state);
    assert!(!clear);
    assert_eq!(sync.stage, Some(SyncEntity::Songs));
    assert_eq!(sync.current_start, 0);
}

#[test]
fn page_fetched_counts_and_moves_through_entities() {
    let (mut sync, _) = begin_full_sync(&SyncState::default());
    progress_marked(&mut sync);

    let out = page_fetched(&mut sync, Some("Sat, 01 Mar 2025 10:00:00 GMT".to_string()), 200, 350, 200);
    let (progress, page) = out.unwrap();
    assert_eq!(progress.stage, "songs");
    assert_eq!(progress.current, 200);
    assert_eq!(progress.total, 350);
    assert!(!progress.is_complete);
    assert_eq!(page, 1);
    assert_eq!(sync.stage, Some(SyncEntity::Songs));
    assert_eq!(sync.current_start, 200);
    assert_eq!(sync.songs_updated, 200);
    assert_eq!(
        next_step(&sync),
        FullSyncStep::FetchPage { entity: SyncEntity::Songs, start_index: 200 }
    );

    // The second page reaches the total: songs are done.
    let out = page_fetched(&mut sync, Some("later".to_string()), 150, 350, 150);
    assert_eq!(out.unwrap().1, 2);
    assert_eq!(sync.songs_updated, 350);
    assert_eq!(sync.stage, Some(SyncEntity::Albums));
    assert_eq!(sync.current_start, 0);
    assert!(!sync.marked);
    // The first reported date is kept.
    assert_eq!(sync.server_date, Some("Sat, 01 Mar 2025 10:00:00 GMT".to_string()));

    // An empty page ends the entity without counting.
    progress_marked(&mut sync);
    assert!(page_fetched(&mut sync, None, 0, 0, 0).is_none());
    assert_eq!(sync.stage, Some(SyncEntity::Artists));
    assert_eq!(sync.albums_updated, 0);

    progress_marked(&mut sync);
    let out = page_fetched(&mut sync, None, 3, 3, 3);
    assert!(out.is_some());
    assert_eq!(sync.artists_updated, 3);
    assert_eq!(sync.stage, None);
    assert_eq!(next_step(&sync), FullSyncStep::Finish);
}

#[test]
fn full_sync_pages_written_then_finished() {
    let mut service = LibraryService::new(LibraryDatabase::new());
    let (mut sync, _) = begin_full_sync(&SyncState::default());
    progress_marked(&mut sync);

    let songs = FetchedPage::Songs(vec![song("s1", "al1", "ar1"), song("s2", "al1", "ar1")]);
    let n = write_full_sync_page(&mut service, &songs, NOW);
    assert_eq!(n, 2);
    page_fetched(&mut sync, None, 2, 2, n);

    progress_marked(&mut sync);
    let albums = FetchedPage::Albums(vec![album("al1", "ar1")]);
    let n = write_full_sync_page(&mut service, &albums, NOW);
    assert_eq!(n, 1);
    page_fetched(&mut sync, None, 1, 1, n);

    progress_marked(&mut sync);
    let artists = FetchedPage::Artists(vec![artist("ar1")]);
    let n = write_full_sync_page(&mut service, &artists, NOW);
    assert_eq!(n, 1);
    page_fetched(&mut sync, None, 1, 1, n);
    assert_eq!(next_step(&sync), FullSyncStep::Finish);

    let report = finish_full_sync(&mut service, &sync, "2025-03-01T10:00:00+00:00".to_string());
    assert!(report.full_sync);
    assert_eq!(report.songs_updated, 2);
    assert_eq!(report.albums_updated, 1);
    assert_eq!(report.artists_updated, 1);

    let state = service.get_sync_state();
    assert_eq!(state.last_sync_time, "2025-03-01T10:00:00+00:00");
    assert_eq!(state.last_full_sync_time, Some("2025-03-01T10:00:00+00:00".to_string()));
    assert_eq!(state.song_count, 2);
    assert_eq!(state.album_count, 1);
    assert_eq!(state.artist_count, 1);
    assert!(!state.full_sync_in_progress);
    assert_eq!(state.full_sync_entity_type, None);
    assert!(!needs_full_sync(&state));
}

#[test]
fn incremental_sync_writes_changes_and_drops_missing_items() {
    let mut service = LibraryService::new(LibraryDatabase::new());
    service.upsert_songs(&[song("s1", "al1", "ar1"), song("s2", "al1", "ar1")], NOW);
    service.upsert_albums(&[album("al1", "ar1")]);
    service.upsert_artists(&[artist("ar1")]);
    let mut prev = SyncState::default();
    prev.last_sync_time = "2025-02-01T00:00:00+00:00".to_string();
    prev.last_full_sync_time = Some("2025-01-01T00:00:00+00:00".to_string());
    prev.song_count = 2;

    let mut changed = song("s1", "al1", "ar1");
    changed.name = "Renamed".to_string();
    let report = apply_incremental_sync(
        &mut service,
        &prev,
        &[changed, song("s3", "al1", "ar1")],
        &[],
        &[],
        &ids(&["s1", "s3"]),
        &ids(&["al1"]),
        &ids(&["ar1"]),
        "2025-03-01T10:00:00+00:00".to_string(),
        NOW,
    );
    assert!(!report.full_sync);
    // Two written, one (s2) removed.
    assert_eq!(report.songs_updated, 3);
    assert_eq!(report.albums_updated, 0);
    assert_eq!(report.artists_updated, 0);

    let songs = aurelia::db::songs::get_all(&service.db);
    let names: Vec<(String, String)> = songs.iter().map(|s| (s.id.clone(), s.name.clone())).collect();
    assert_eq!(
        names,
        vec![("s1".to_string(), "Renamed".to_string()), ("s3".to_string(), "Song s3".to_string())]
    );
    let state = service.get_sync_state();
    assert_eq!(state.last_sync_time, "2025-03-01T10:00:00+00:00");
    assert_eq!(state.last_full_sync_time, Some("2025-01-01T00:00:00+00:00".to_string()));
    assert_eq!(state.song_count, 2);
    assert_eq!(state.album_count, 1);
    assert_eq!(state.artist_count, 1);
}

#[test]
fn entity_queries_name_the_item_types() {
    let q = entity_query(SyncEntity::Albums, "u1");
    assert!(q.starts_with("/Items?userId=u1&IncludeItemTypes=MusicAlbum&Recursive=true"));
    let q = entity_query(SyncEntity::Songs, "u1");
    assert!(q.starts_with("/Items?userId=u1&IncludeItemTypes=Audio&Recursive=true&Fields=Genres"));
    let q = entity_query(SyncEntity::Artists, "u2");
    assert_eq!(
        q,
        "/Items?userId=u2&IncludeItemTypes=MusicArtist&Recursive=true&Fields=ImageTags,Overview,ProviderIds,CommunityRating,DateLastModified"
    );
}
