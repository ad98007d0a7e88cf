use aurelia::models::{provider_from_probe, BackendProvider};
use aurelia::domain::{SyncDelta, SyncProgress, SyncState};

#[test]
fn sync_progress_defaults_and_helpers() {
    let default = SyncProgress::default();
    assert_eq!(default.stage, "Starting");
    assert_eq!(default.current, 0);
    assert_eq!(default.total, 0);
    assert!(!default.is_complete);

    let in_progress = SyncProgress::new("Fetching", 2, 10);
    assert_eq!(in_progress.stage, "Fetching");
    assert_eq!(in_progress.current, 2);
    assert_eq!(in_progress.total, 10);
    assert!(!in_progress.is_complete);

    let done = SyncProgress::complete();
    assert!(done.is_complete);
    assert_eq!(done.stage, "Complete");
}

#[test]
fn sync_delta_counts_changes() {
    let mut delta = SyncDelta::default();
    assert!(delta.is_empty());

    delta.songs_to_add.push("s1".to_string());
    delta.albums_to_remove.push("a1".to_string());
    delta.artists_to_update.push("r1".to_string());

    assert!(!delta.is_empty());
    assert_eq!(delta.total_changes(), 3);
}

#[test]
fn sync_delta_empty_iff_no_changes() {
    let delta = SyncDelta::default();
    assert!(delta.is_empty());
    assert_eq!(delta.total_changes(), 0);
    let mut other = SyncDelta::default();
    other.songs_to_update.push("x".to_string());
    assert!(!other.is_empty());
    assert_eq!(other.total_changes(), 1);
}

#[test]
fn sync_state_default_is_never_synced() {
    let state = SyncState::default();
    assert_eq!(state.last_sync_time, "1970-01-01T00:00:00Z");
    assert!(state.last_full_sync_time.is_none());
    assert_eq!(state.song_count, 0);
    assert!(!state.full_sync_in_progress);
    assert!(state.full_sync_entity_type.is_none());
}

#[test]
fn provider_detected_from_probe() {
    assert_eq!(provider_from_probe(true), Ok(BackendProvider::Jellyfin));
    assert_eq!(provider_from_probe(false), Err("Unable to detect backend provider".to_string()));
}
