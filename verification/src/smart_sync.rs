//! Smart sync: the choice between a full sync (paginated and resumable) and
//! an incremental one, the page-by-page plan of a full sync, and what the
//! fetched items do to the library.
//!
//! The fetching itself is the caller's: it asks the plan for the next step,
//! performs it (records the progress, or fetches and parses a page and
//! writes it with `write_full_sync_page`), and reports the outcome back.
use vstd::prelude::*;
use crate::domain::{SyncProgress, SyncReport, SyncState, epoch, initial_sync_state};
use crate::models::{Album, AlbumV, Artist, ArtistV, Song, SongV, album_views, artist_views, song_views};
use crate::store::{
    LibraryDatabase,
    LibraryService,
    album_artist_pairs,
    album_pairs,
    artist_pairs,
    put_albums,
    put_artists,
    put_songs,
    refresh_favorites,
    state_or_default,
};
use crate::text::{opt_chars, owned, str_eq, views};

verus! {

/// The number of items fetched per page of a full sync.
pub const SYNC_PAGE_SIZE: u64 = 200;

/// The kinds of items a full sync fetches, in the order it fetches them.
#[derive(Clone, Copy, Debug, PartialEq, Eq, Structural)]
pub enum SyncEntity {
    Songs,
    Albums,
    Artists,
}

/// The name an entity is recorded under in the sync state.
pub open spec fn entity_label(e: SyncEntity) -> Seq<char> {
    match e {
        SyncEntity::Songs => "songs"@,
        SyncEntity::Albums => "albums"@,
        SyncEntity::Artists => "artists"@,
    }
}

/// The name an entity is recorded under.
pub fn entity_name(e: SyncEntity) -> (r: &'static str)
    ensures
        r@ == entity_label(e),
{
    match e {
        SyncEntity::Songs => "songs",
        SyncEntity::Albums => "albums",
        SyncEntity::Artists => "artists",
    }
}

/// The stage of a recorded entity name: songs 0, albums 1, artists 2, and
/// any other name 0.
pub open spec fn stage_of(name: Seq<char>) -> u8 {
    if name == "albums"@ {
        1
    } else if name == "artists"@ {
        2
    } else {
        0
    }
}

/// The stage of a recorded entity name.
pub fn entity_stage(name: &str) -> (r: u8)
    ensures
        r == stage_of(name@),
{
    if str_eq(name, "albums") {
        1
    } else if str_eq(name, "artists") {
        2
    } else {
        0
    }
}

/// The entity of a stage.
pub open spec fn entity_at(stage: u8) -> SyncEntity {
    if stage == 0 {
        SyncEntity::Songs
    } else if stage == 1 {
        SyncEntity::Albums
    } else {
        SyncEntity::Artists
    }
}

/// The entity fetched after `e`, if any.
pub open spec fn next_entity(e: SyncEntity) -> Option<SyncEntity> {
    match e {
        SyncEntity::Songs => Some(SyncEntity::Albums),
        SyncEntity::Albums => Some(SyncEntity::Artists),
        SyncEntity::Artists => None,
    }
}

/// Whether a smart sync must be a full one: a full sync was interrupted,
/// the library was never synced, or it holds no songs.
pub open spec fn full_sync_needed(state: SyncState) -> bool {
    state.full_sync_in_progress || state.last_sync_time@ == epoch() || state.song_count == 0
}

/// Whether a smart sync must be a full one.
pub fn needs_full_sync(state: &SyncState) -> (b: bool)
    ensures
        b == full_sync_needed(*state),
{
    let epoch_text = crate::domain::epoch_string();
    state.full_sync_in_progress || str_eq(state.last_sync_time.as_str(), epoch_text.as_str())
        || state.song_count == 0
}

// ---------------------------------------------------------------------------
// The plan of a full sync.
// ---------------------------------------------------------------------------

/// Where a full sync stands.
pub struct FullSync {
    /// The entity being fetched; none once every entity is done.
    pub stage: Option<SyncEntity>,
    /// Whether the progress of the current entity was recorded on entering it.
    pub marked: bool,
    /// Where the next page of the current entity starts.
    pub current_start: u64,
    /// The pages of the current entity done, counted from its first.
    pub page_num: u64,
    /// The server's date, from the first page that reported one.
    pub server_date: Option<String>,
    pub songs_updated: u32,
    pub albums_updated: u32,
    pub artists_updated: u32,
}

/// What a full sync does next.
#[derive(Clone, Copy, Debug, PartialEq, Eq)]
pub enum FullSyncStep {
    /// Record in the sync state that the full sync is at page `page_index`
    /// of `entity` (`update_full_sync_progress`).
    MarkProgress { entity: SyncEntity, page_index: u32 },
    /// Fetch the page of `entity` that starts at `start_index`
    /// (`SYNC_PAGE_SIZE` items), write it, and report it (`page_fetched`).
    FetchPage { entity: SyncEntity, start_index: u64 },
    /// Every entity is done: record the final state (`finish_full_sync`).
    Finish,
}

/// The entity a full sync resumes with: the recorded one, or songs.
pub open spec fn resume_label(state: SyncState) -> Seq<char> {
    match state.full_sync_entity_type {
        Some(e) => e@,
        None => "songs"@,
    }
}

/// The page a full sync resumes at: the recorded one when a full sync was
/// interrupted, else the first.
pub open spec fn resume_page(state: SyncState) -> u64 {
    if state.full_sync_in_progress {
        state.full_sync_last_page_index as u64
    } else {
        0
    }
}

/// `f` is the start of a full sync from `state`: at the resumed entity,
/// from its resumed page (when the recorded name is that entity's), with
/// nothing counted yet.
pub open spec fn full_sync_started(f: FullSync, state: SyncState) -> bool {
    let e = entity_at(stage_of(resume_label(state)));
    let start: u64 = if resume_label(state) == entity_label(e) {
        (resume_page(state) * SYNC_PAGE_SIZE) as u64
    } else {
        0
    };
    &&& f.stage == Some(e)
    &&& !f.marked
    &&& f.current_start == start
    &&& f.page_num == start / SYNC_PAGE_SIZE
    &&& f.server_date is None
    &&& f.songs_updated == 0
    &&& f.albums_updated == 0
    &&& f.artists_updated == 0
}

/// Starts a full sync from the stored state: resumes an interrupted one at
/// its recorded entity and page, or starts afresh with songs, in which case
/// the tables are to be emptied first (the flag returned).
pub fn begin_full_sync(state: &SyncState) -> (r: (FullSync, bool))
    ensures
        full_sync_started(r.0, *state),
        r.1 == !state.full_sync_in_progress,
{
    let resume_entity: &str = match &state.full_sync_entity_type {
        Some(e) => e.as_str(),
        None => "songs",
    };
    let page: u64 = if state.full_sync_in_progress {
        state.full_sync_last_page_index as u64
    } else {
        0
    };
    let stage = entity_stage(resume_entity);
    let entity = if stage == 0 {
        SyncEntity::Songs
    } else if stage == 1 {
        SyncEntity::Albums
    } else {
        SyncEntity::Artists
    };
    let start: u64 = if str_eq(resume_entity, entity_name(entity)) {
        page * SYNC_PAGE_SIZE
    } else {
        0
    };
    (
        FullSync {
            stage: Some(entity),
            marked: false,
            current_start: start,
            page_num: start / SYNC_PAGE_SIZE,
            server_date: None,
            songs_updated: 0,
            albums_updated: 0,
            artists_updated: 0,
        },
        !state.full_sync_in_progress,
    )
}

/// The next step of a full sync: record the progress on entering an
/// entity, then fetch its pages, and finish after the last entity.
pub fn next_step(sync: &FullSync) -> (s: FullSyncStep)
    ensures
        s == match sync.stage {
            None => FullSyncStep::Finish,
            Some(e) => if !sync.marked {
                FullSyncStep::MarkProgress {
                    entity: e,
                    page_index: (sync.current_start / SYNC_PAGE_SIZE) as u32,
                }
            } else {
                FullSyncStep::FetchPage { entity: e, start_index: sync.current_start }
            },
        },
{
    match sync.stage {
        None => FullSyncStep::Finish,
        Some(e) => if !sync.marked {
            FullSyncStep::MarkProgress {
                entity: e,
                page_index: (sync.current_start / SYNC_PAGE_SIZE) as u32,
            }
        } else {
            FullSyncStep::FetchPage { entity: e, start_index: sync.current_start }
        },
    }
}

/// Notes that the progress of the current entity was recorded.
pub fn progress_marked(sync: &mut FullSync)
    ensures
        *final(sync) == (FullSync { marked: true, ..*old(sync) }),
{
    sync.marked = true;
}

/// The plan moved on to the entity after `e`, from its first page.
pub open spec fn moved_on(after: FullSync, before: FullSync, e: SyncEntity) -> bool {
    &&& after.stage == next_entity(e)
    &&& !after.marked
    &&& after.current_start == 0
    &&& after.page_num == 0
}

/// The count of `e` in a plan.
pub open spec fn updated_count(f: FullSync, e: SyncEntity) -> u32 {
    match e {
        SyncEntity::Songs => f.songs_updated,
        SyncEntity::Albums => f.albums_updated,
        SyncEntity::Artists => f.artists_updated,
    }
}

/// Records a fetched page of the current entity: its server date (kept if
/// none was known), its item count, the total the server reports and the
/// number of items written. An empty page ends the entity. Otherwise the
/// written items are counted, the page is counted and its items skipped,
/// the entity ends when the total is reached, and the UI progress and the
/// page index to record (`update_full_sync_progress`) are returned.
pub fn page_fetched(
    sync: &mut FullSync,
    server_date: Option<String>,
    item_count: u64,
    total_record_count: u64,
    upserted: u32,
) -> (r: Option<(SyncProgress, u32)>)
    requires
        old(sync).stage is Some,
        old(sync).current_start + item_count <= u64::MAX,
        old(sync).page_num < u64::MAX,
        updated_count(*old(sync), old(sync).stage->0) + upserted <= u32::MAX,
    ensures
        ({
            let e = old(sync).stage->0;
            let date = if old(sync).server_date is None {
                server_date
            } else {
                old(sync).server_date
            };
            &&& final(sync).server_date == date
            &&& if item_count == 0 {
                &&& r is None
                &&& moved_on(*final(sync), *old(sync), e)
                &&& final(sync).songs_updated == old(sync).songs_updated
                &&& final(sync).albums_updated == old(sync).albums_updated
                &&& final(sync).artists_updated == old(sync).artists_updated
            } else {
                let start = old(sync).current_start + item_count;
                let page = old(sync).page_num + 1;
                &&& r matches Some(out) && out.0.stage@ == entity_label(e) && out.0.current == start as u32
                    && out.0.total == total_record_count as u32 && !out.0.is_complete && out.1 == page as u32
                &&& updated_count(*final(sync), e) == updated_count(*old(sync), e) + upserted
                &&& forall|x: SyncEntity| x != e ==> updated_count(*final(sync), x) == updated_count(*old(sync), x)
                &&& if start >= total_record_count {
                    moved_on(*final(sync), *old(sync), e)
                } else {
                    &&& final(sync).stage == old(sync).stage
                    &&& final(sync).marked == old(sync).marked
                    &&& final(sync).current_start == start
                    &&& final(sync).page_num == page
                }
            }
        }),
{
    let e = match sync.stage {
        Some(e) => e,
        None => {
            return None;
        },
    };
    if sync.server_date.is_none() {
        sync.server_date = server_date;
    }
    if item_count == 0 {
        sync.stage = match e {
            SyncEntity::Songs => Some(SyncEntity::Albums),
            SyncEntity::Albums => Some(SyncEntity::Artists),
            SyncEntity::Artists => None,
        };
        sync.marked = false;
        sync.current_start = 0;
        sync.page_num = 0;
        return None;
    }
    match e {
        SyncEntity::Songs => {
            sync.songs_updated = sync.songs_updated + upserted;
        },
        SyncEntity::Albums => {
            sync.albums_updated = sync.albums_updated + upserted;
        },
        SyncEntity::Artists => {
            sync.artists_updated = sync.artists_updated + upserted;
        },
    }
    sync.page_num = sync.page_num + 1;
    sync.current_start = sync.current_start + item_count;
    let progress = SyncProgress::new(
        entity_name(e),
        sync.current_start as u32,
        total_record_count as u32,
    );
    let page_index = sync.page_num as u32;
    if sync.current_start >= total_record_count {
        sync.stage = match e {
            SyncEntity::Songs => Some(SyncEntity::Albums),
            SyncEntity::Albums => Some(SyncEntity::Artists),
            SyncEntity::Artists => None,
        };
        sync.marked = false;
        sync.current_start = 0;
        sync.page_num = 0;
    }
    Some((progress, page_index))
}

/// The state a finished full sync records at `sync_time` over `db`.
pub open spec fn full_sync_final_state(st: SyncState, sync_time: String, db: LibraryDatabase) -> bool {
    &&& st.last_sync_time == sync_time
    &&& st.last_full_sync_time == Some(sync_time)
    &&& st.last_sync_version is None
    &&& st.song_count == db.songs@.dom().len() as u32
    &&& st.artist_count == db.artists@.dom().len() as u32
    &&& st.album_count == db.albums@.dom().len() as u32
    &&& !st.full_sync_in_progress
    &&& st.full_sync_last_page_index == 0
    &&& st.full_sync_entity_type is None
}

/// Finishes a full sync: records at `sync_time` (the server's date as
/// parsed, or the local clock) the library's counts and that no full sync is
/// under way, and reports what each entity wrote.
pub fn finish_full_sync(service: &mut LibraryService, sync: &FullSync, sync_time: String) -> (report: SyncReport)
    requires
        old(service).db.wf(),
    ensures
        final(service).db.sync_state matches Some(st) && full_sync_final_state(st, sync_time, old(service).db),
        final(service).db == (LibraryDatabase {
            sync_state: final(service).db.sync_state,
            ..old(service).db
        }),
        report == (SyncReport {
            full_sync: true,
            songs_updated: sync.songs_updated,
            artists_updated: sync.artists_updated,
            albums_updated: sync.albums_updated,
            duration_ms: 0,
        }),
{
    let (song_count, artist_count, album_count) = service.get_library_stats();
    let final_state = SyncState {
        last_sync_time: sync_time.clone(),
        last_full_sync_time: Some(sync_time),
        last_sync_version: None,
        song_count,
        artist_count,
        album_count,
        full_sync_in_progress: false,
        full_sync_last_page_index: 0,
        full_sync_entity_type: None,
    };
    service.update_sync_state(final_state);
    SyncReport {
        full_sync: true,
        songs_updated: sync.songs_updated,
        artists_updated: sync.artists_updated,
        albums_updated: sync.albums_updated,
        duration_ms: 0,
    }
}

/// The items of one fetched page, parsed.
pub enum FetchedPage {
    Songs(Vec<Song>),
    Albums(Vec<Album>),
    Artists(Vec<Artist>),
}

/// Writes a fetched page to the library (songs with their indexes and
/// favorites marked at `now`, albums with their index, artists) and returns
/// the number of items written.
pub fn write_full_sync_page(service: &mut LibraryService, page: &FetchedPage, now: &str) -> (n: u32)
    requires
        old(service).db.wf(),
    ensures
        final(service).db.wf(),
        match page {
            FetchedPage::Songs(s) => n == s@.len() as u32
                && final(service).db.songs@ == put_songs(old(service).db.songs@, song_views(s@))
                && final(service).db.songs_by_album@ == old(service).db.songs_by_album@.union(album_pairs(song_views(s@)))
                && final(service).db.songs_by_artist@ == old(service).db.songs_by_artist@.union(artist_pairs(song_views(s@)))
                && final(service).db.favorites@ == refresh_favorites(old(service).db.favorites@, song_views(s@), now@)
                && final(service).db == (LibraryDatabase {
                    songs: final(service).db.songs,
                    songs_by_album: final(service).db.songs_by_album,
                    songs_by_artist: final(service).db.songs_by_artist,
                    favorites: final(service).db.favorites,
                    ..old(service).db
                }),
            FetchedPage::Albums(a) => n == a@.len() as u32
                && final(service).db.albums@ == put_albums(old(service).db.albums@, album_views(a@))
                && final(service).db.albums_by_artist@ == old(service).db.albums_by_artist@.union(album_artist_pairs(album_views(a@)))
                && final(service).db == (LibraryDatabase {
                    albums: final(service).db.albums,
                    albums_by_artist: final(service).db.albums_by_artist,
                    ..old(service).db
                }),
            FetchedPage::Artists(a) => n == a@.len() as u32
                && final(service).db.artists@ == put_artists(old(service).db.artists@, artist_views(a@))
                && final(service).db == (LibraryDatabase { artists: final(service).db.artists, ..old(service).db }),
        },
{
    match page {
        FetchedPage::Songs(s) => service.upsert_songs(s.as_slice(), now),
        FetchedPage::Albums(a) => service.upsert_albums(a.as_slice()),
        FetchedPage::Artists(a) => service.upsert_artists(a.as_slice()),
    }
}

// ---------------------------------------------------------------------------
// Incremental sync.
// ---------------------------------------------------------------------------

proof fn lemma_put_songs_len(m: Map<Seq<char>, SongV>, s: Seq<SongV>)
    requires
        m.dom().finite(),
    ensures
        put_songs(m, s).dom().finite(),
        put_songs(m, s).dom().len() <= m.dom().len() + s.len(),
    decreases s.len(),
{
    if s.len() > 0 {
        lemma_put_songs_len(m, s.drop_last());
    }
}

proof fn lemma_put_artists_len(m: Map<Seq<char>, ArtistV>, s: Seq<ArtistV>)
    requires
        m.dom().finite(),
    ensures
        put_artists(m, s).dom().finite(),
        put_artists(m, s).dom().len() <= m.dom().len() + s.len(),
    decreases s.len(),
{
    if s.len() > 0 {
        lemma_put_artists_len(m, s.drop_last());
    }
}

proof fn lemma_put_albums_len(m: Map<Seq<char>, AlbumV>, s: Seq<AlbumV>)
    requires
        m.dom().finite(),
    ensures
        put_albums(m, s).dom().finite(),
        put_albums(m, s).dom().len() <= m.dom().len() + s.len(),
    decreases s.len(),
{
    if s.len() > 0 {
        lemma_put_albums_len(m, s.drop_last());
    }
}

/// `after` is `before` after an incremental smart sync: the changed songs,
/// albums and artists written, then those no longer on the server removed,
/// and the sync recorded at `sync_time`, keeping the time of the last full
/// sync of `prev`.
pub open spec fn incremental_applied(
    after: LibraryDatabase,
    before: LibraryDatabase,
    prev: SyncState,
    sv: Seq<SongV>,
    bv: Seq<AlbumV>,
    av: Seq<ArtistV>,
    song_ids: Set<Seq<char>>,
    album_ids: Set<Seq<char>>,
    artist_ids: Set<Seq<char>>,
    sync_time: String,
    now: Seq<char>,
) -> bool {
    let s1 = put_songs(before.songs@, sv);
    &&& after.songs@ == s1.restrict(song_ids)
    &&& after.favorites@ == refresh_favorites(before.favorites@, sv, now).remove_keys(
        s1.dom().difference(song_ids),
    )
    &&& after.songs_by_album@ == before.songs_by_album@.union(album_pairs(sv))
    &&& after.songs_by_artist@ == before.songs_by_artist@.union(artist_pairs(sv))
    &&& after.albums@ == put_albums(before.albums@, bv).restrict(album_ids)
    &&& after.albums_by_artist@ == before.albums_by_artist@.union(album_artist_pairs(bv))
    &&& after.artists@ == put_artists(before.artists@, av).restrict(artist_ids)
    &&& after.credentials == before.credentials
    &&& after.settings == before.settings
    &&& after.sync_state matches Some(st)
    &&& st.last_sync_time == sync_time
    &&& st.last_full_sync_time == prev.last_full_sync_time
    &&& st.last_sync_version is None
    &&& st.song_count == after.songs@.dom().len() as u32
    &&& st.artist_count == after.artists@.dom().len() as u32
    &&& st.album_count == after.albums@.dom().len() as u32
    &&& !st.full_sync_in_progress
    &&& st.full_sync_last_page_index == 0
    &&& st.full_sync_entity_type is None
}

/// Applies an incremental smart sync from what was fetched: the items
/// changed since the last sync are written (songs' favorites marked at
/// `now`), the items whose ids the server no longer lists are removed, and
/// the sync is recorded at `sync_time`. Each entity reports the items
/// written plus those removed.
pub fn apply_incremental_sync(
    service: &mut LibraryService,
    prev: &SyncState,
    updated_songs: &[Song],
    updated_albums: &[Album],
    updated_artists: &[Artist],
    remote_song_ids: &[String],
    remote_album_ids: &[String],
    remote_artist_ids: &[String],
    sync_time: String,
    now: &str,
) -> (report: SyncReport)
    requires
        old(service).db.wf(),
        old(service).db.songs@.dom().len() + 2 * updated_songs@.len() <= u32::MAX,
        old(service).db.albums@.dom().len() + 2 * updated_albums@.len() <= u32::MAX,
        old(service).db.artists@.dom().len() + 2 * updated_artists@.len() <= u32::MAX,
    ensures
        final(service).db.wf(),
        incremental_applied(
            final(service).db,
            old(service).db,
            *prev,
            song_views(updated_songs@),
            album_views(updated_albums@),
            artist_views(updated_artists@),
            views(remote_song_ids@).to_set(),
            views(remote_album_ids@).to_set(),
            views(remote_artist_ids@).to_set(),
            sync_time,
            now@,
        ),
        ({
            let sv = song_views(updated_songs@);
            let bv = album_views(updated_albums@);
            let av = artist_views(updated_artists@);
            let before = old(service).db;
            &&& report.full_sync == false
            &&& report.songs_updated == sv.len() + put_songs(before.songs@, sv).dom().difference(
                views(remote_song_ids@).to_set(),
            ).len()
            &&& report.albums_updated == bv.len() + put_albums(before.albums@, bv).dom().difference(
                views(remote_album_ids@).to_set(),
            ).len()
            &&& report.artists_updated == av.len() + put_artists(before.artists@, av).dom().difference(
                views(remote_artist_ids@).to_set(),
            ).len()
            &&& report.duration_ms == 0
        }),
{
    let ghost db0 = service.db;
    let ghost sv = song_views(updated_songs@);
    let ghost bv = album_views(updated_albums@);
    let ghost av = artist_views(updated_artists@);
    proof {
        crate::table::lemma_rows_map_finite(db0.songs.rows());
        crate::table::lemma_rows_map_finite(db0.albums.rows());
        crate::table::lemma_rows_map_finite(db0.artists.rows());
        lemma_put_songs_len(db0.songs@, sv);
        lemma_put_albums_len(db0.albums@, bv);
        lemma_put_artists_len(db0.artists@, av);
    }
    let songs_upserted = service.upsert_songs(updated_songs, now);
    let albums_upserted = service.upsert_albums(updated_albums);
    let artists_upserted = service.upsert_artists(updated_artists);
    let ghost db1 = service.db;
    proof {
        crate::table::lemma_rows_map_finite(db1.songs.rows());
        crate::table::lemma_rows_map_finite(db1.albums.rows());
        crate::table::lemma_rows_map_finite(db1.artists.rows());
        vstd::set_lib::lemma_len_subset(
            db1.songs@.dom().difference(views(remote_song_ids@).to_set()),
            db1.songs@.dom(),
        );
        vstd::set_lib::lemma_len_subset(
            db1.albums@.dom().difference(views(remote_album_ids@).to_set()),
            db1.albums@.dom(),
        );
        vstd::set_lib::lemma_len_subset(
            db1.artists@.dom().difference(views(remote_artist_ids@).to_set()),
            db1.artists@.dom(),
        );
    }
    let songs_deleted = service.remove_deleted_songs(remote_song_ids);
    let albums_deleted = service.remove_deleted_albums(remote_album_ids);
    let artists_deleted = service.remove_deleted_artists(remote_artist_ids);
    let (song_count, artist_count, album_count) = service.get_library_stats();
    let last_full_sync_time = match &prev.last_full_sync_time {
        Some(t) => Some(t.clone()),
        None => None,
    };
    let new_state = SyncState {
        last_sync_time: sync_time,
        last_full_sync_time,
        last_sync_version: None,
        song_count,
        artist_count,
        album_count,
        full_sync_in_progress: false,
        full_sync_last_page_index: 0,
        full_sync_entity_type: None,
    };
    service.update_sync_state(new_state);
    SyncReport {
        full_sync: false,
        songs_updated: songs_upserted + songs_deleted,
        artists_updated: artists_upserted + artists_deleted,
        albums_updated: albums_upserted + albums_deleted,
        duration_ms: 0,
    }
}

/// An interrupted full sync resumes at the entity and page it recorded:
/// its first step records that same progress, and the tables are kept.
pub proof fn lemma_full_sync_resumes(state: SyncState, f: FullSync, clear: bool, e: SyncEntity)
    requires
        full_sync_started(f, state),
        clear == !state.full_sync_in_progress,
        state.full_sync_in_progress,
        state.full_sync_entity_type matches Some(n) && n@ == entity_label(e),
    ensures
        !clear,
        f.stage == Some(e),
        f.current_start == (state.full_sync_last_page_index as int) * 200,
        (f.current_start / SYNC_PAGE_SIZE) as u32 == state.full_sync_last_page_index,
{
    assert(("albums"@) != ("songs"@)) by {
        reveal_strlit("albums");
        reveal_strlit("songs");
        assert(("albums"@).len() != ("songs"@).len());
    }
    assert(("artists"@) != ("songs"@)) by {
        reveal_strlit("artists");
        reveal_strlit("songs");
        assert(("artists"@).len() != ("songs"@).len());
    }
    assert(("artists"@) != ("albums"@)) by {
        reveal_strlit("artists");
        reveal_strlit("albums");
        assert(("artists"@).len() != ("albums"@).len());
    }
    let p = state.full_sync_last_page_index as int;
    assert(0 <= p * 200 <= 200 * 0xffff_ffff) by (nonlinear_arith)
        requires
            0 <= p <= 0xffff_ffff,
    ;
    assert((p * 200) / 200 == p) by (nonlinear_arith);
}

/// A fresh full sync (none was interrupted) empties the tables and starts
/// with the first page of songs.
pub proof fn lemma_full_sync_fresh(state: SyncState, f: FullSync, clear: bool)
    requires
        full_sync_started(f, state),
        clear == !state.full_sync_in_progress,
        !state.full_sync_in_progress,
    ensures
        clear,
        f.current_start == 0,
        f.stage matches Some(e) && (state.full_sync_entity_type is None ==> e == SyncEntity::Songs),
{
    assert(("songs"@) != ("albums"@)) by {
        reveal_strlit("songs");
        reveal_strlit("albums");
        assert(("songs"@).len() != ("albums"@).len());
    }
    assert(("songs"@) != ("artists"@)) by {
        reveal_strlit("songs");
        reveal_strlit("artists");
        assert(("songs"@).len() != ("artists"@).len());
    }
}

/// After an incremental smart sync the library holds no item the server no
/// longer lists, and every changed item the server still lists is stored.
pub proof fn lemma_incremental_sync_matches_server(
    after: LibraryDatabase,
    before: LibraryDatabase,
    prev: SyncState,
    sv: Seq<SongV>,
    bv: Seq<AlbumV>,
    av: Seq<ArtistV>,
    song_ids: Set<Seq<char>>,
    album_ids: Set<Seq<char>>,
    artist_ids: Set<Seq<char>>,
    sync_time: String,
    now: Seq<char>,
)
    requires
        incremental_applied(after, before, prev, sv, bv, av, song_ids, album_ids, artist_ids, sync_time, now),
    ensures
        after.songs@.dom().subset_of(song_ids),
        after.albums@.dom().subset_of(album_ids),
        after.artists@.dom().subset_of(artist_ids),
        forall|i: int| 0 <= i < sv.len() && song_ids.contains(#[trigger] sv[i].id@) ==> after.songs@.contains_key(sv[i].id@),
        forall|i: int| 0 <= i < av.len() && artist_ids.contains(#[trigger] av[i].id@) ==> after.artists@.contains_key(av[i].id@),
{
    assert forall|i: int| 0 <= i < sv.len() && song_ids.contains(#[trigger] sv[i].id@) implies after.songs@.contains_key(sv[i].id@) by {
        crate::convergence::lemma_put_songs_dom(before.songs@, sv, sv[i].id@);
        assert(crate::store::song_id_set(sv).contains(sv[i].id@));
    }
    assert forall|i: int| 0 <= i < av.len() && artist_ids.contains(#[trigger] av[i].id@) implies after.artists@.contains_key(av[i].id@) by {
        crate::convergence::lemma_put_artists_dom(before.artists@, av, av[i].id@);
        assert(crate::store::artist_id_set(av).contains(av[i].id@));
    }
}

/// The item query of an entity for a user, before paging: audio items
/// with the fields a song is built from, music albums, or music artists.
pub open spec fn entity_query_text(e: SyncEntity, user_id: Seq<char>) -> Seq<char> {
    "/Items?userId="@ + user_id + match e {
        SyncEntity::Songs => "&IncludeItemTypes=Audio&Recursive=true&Fields=Genres,DateCreated,DateLastModified,MediaSources,ParentId,People,Tags,Path,RunTimeTicks,ImageTags,AlbumId,Artists,Album,ProductionYear,UserData,IndexNumber,PremiereDate,AlbumArtists,MediaStreams"@,
        SyncEntity::Albums => "&IncludeItemTypes=MusicAlbum&Recursive=true&Fields=ImageTags,Overview,ProductionYear,CommunityRating,Artists,ProviderIds,DateCreated,DateLastModified"@,
        SyncEntity::Artists => "&IncludeItemTypes=MusicArtist&Recursive=true&Fields=ImageTags,Overview,ProviderIds,CommunityRating,DateLastModified"@,
    }
}

/// The item query a full sync pages through for an entity.
pub fn entity_query(e: SyncEntity, user_id: &str) -> (q: String)
    ensures
        q@ == entity_query_text(e, user_id@),
{
    let mut q = owned("/Items?userId=");
    crate::text::push_str(&mut q, user_id);
    let rest = match e {
        SyncEntity::Songs => "&IncludeItemTypes=Audio&Recursive=true&Fields=Genres,DateCreated,DateLastModified,MediaSources,ParentId,People,Tags,Path,RunTimeTicks,ImageTags,AlbumId,Artists,Album,ProductionYear,UserData,IndexNumber,PremiereDate,AlbumArtists,MediaStreams",
        SyncEntity::Albums => "&IncludeItemTypes=MusicAlbum&Recursive=true&Fields=ImageTags,Overview,ProductionYear,CommunityRating,Artists,ProviderIds,DateCreated,DateLastModified",
        SyncEntity::Artists => "&IncludeItemTypes=MusicArtist&Recursive=true&Fields=ImageTags,Overview,ProviderIds,CommunityRating,DateLastModified",
    };
    crate::text::push_str(&mut q, rest);
    assert(q@ =~= entity_query_text(e, user_id@));
    q
}

} // verus!
