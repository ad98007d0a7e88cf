//! Sync bookkeeping: the persisted sync state, progress and reports, and
//! the delta between the local library and the server's.
use vstd::prelude::*;
use crate::models::Duplicate;
use crate::text::views;

verus! {

/// The time stamp that marks a library that has never been synced.
pub open spec fn epoch() -> Seq<char> {
    seq!['1', '9', '7', '0', '-', '0', '1', '-', '0', '1', 'T', '0', '0', ':', '0', '0', ':', '0', '0', 'Z']
}

/// The epoch time stamp, as a string.
pub fn epoch_string() -> (s: String)
    ensures
        s@ == epoch(),
{
    let s = String::from_str("1970-01-01T00:00:00Z");
    proof {
        reveal_strlit("1970-01-01T00:00:00Z");
    }
    s
}

/// Sync state persisted to track the library's sync history.
#[derive(Clone, Debug, PartialEq)]
pub struct SyncState {
    pub last_sync_time: String,
    pub last_full_sync_time: Option<String>,
    pub last_sync_version: Option<String>,
    pub song_count: u32,
    pub artist_count: u32,
    pub album_count: u32,
    /// A full sync was started and has not finished.
    pub full_sync_in_progress: bool,
    /// The last page committed by the unfinished full sync.
    pub full_sync_last_page_index: u32,
    /// The entity type ("songs", "albums", "artists") the unfinished full
    /// sync was working on.
    pub full_sync_entity_type: Option<String>,
}

impl View for SyncState {
    type V = SyncState;

    open spec fn view(&self) -> SyncState {
        *self
    }
}

/// The state of a library that has never been synced.
pub open spec fn initial_sync_state(s: SyncState) -> bool {
    &&& s.last_sync_time@ == epoch()
    &&& s.last_full_sync_time is None
    &&& s.last_sync_version is None
    &&& s.song_count == 0
    &&& s.artist_count == 0
    &&& s.album_count == 0
    &&& !s.full_sync_in_progress
    &&& s.full_sync_last_page_index == 0
    &&& s.full_sync_entity_type is None
}

impl SyncState {
    /// The state of a library that has never been synced.
    pub fn default() -> (s: SyncState)
        ensures
            initial_sync_state(s),
    {
        SyncState {
            last_sync_time: epoch_string(),
            last_full_sync_time: None,
            last_sync_version: None,
            song_count: 0,
            artist_count: 0,
            album_count: 0,
            full_sync_in_progress: false,
            full_sync_last_page_index: 0,
            full_sync_entity_type: None,
        }
    }
}

impl Duplicate for SyncState {
    fn duplicate(&self) -> (r: SyncState)
        ensures
            r@ == self@,
    {
        SyncState {
            last_sync_time: self.last_sync_time.clone(),
            last_full_sync_time: self.last_full_sync_time.clone(),
            last_sync_version: self.last_sync_version.clone(),
            song_count: self.song_count,
            artist_count: self.artist_count,
            album_count: self.album_count,
            full_sync_in_progress: self.full_sync_in_progress,
            full_sync_last_page_index: self.full_sync_last_page_index,
            full_sync_entity_type: self.full_sync_entity_type.clone(),
        }
    }
}

/// Progress update during a sync (for UI feedback).
#[derive(Clone, Debug, PartialEq)]
pub struct SyncProgress {
    /// Current stage of the sync (e.g. "Fetching songs").
    pub stage: String,
    /// Current item being processed.
    pub current: u32,
    /// Total items to process.
    pub total: u32,
    /// Whether the sync is complete.
    pub is_complete: bool,
}

impl SyncProgress {
    /// The progress before a sync has started: stage "Starting", nothing done.
    pub fn default() -> (p: SyncProgress)
        ensures
            p.stage@ == seq!['S', 't', 'a', 'r', 't', 'i', 'n', 'g'],
            p.current == 0,
            p.total == 0,
            !p.is_complete,
    {
        let stage = String::from_str("Starting");
        proof {
            reveal_strlit("Starting");
        }
        SyncProgress { stage, current: 0, total: 0, is_complete: false }
    }

    /// A progress record for `stage`, not complete.
    pub fn new(stage: &str, current: u32, total: u32) -> (p: SyncProgress)
        ensures
            p.stage@ == stage@,
            p.current == current,
            p.total == total,
            !p.is_complete,
    {
        SyncProgress { stage: stage.to_string(), current, total, is_complete: false }
    }

    /// The progress of a finished sync: stage "Complete".
    pub fn complete() -> (p: SyncProgress)
        ensures
            p.stage@ == seq!['C', 'o', 'm', 'p', 'l', 'e', 't', 'e'],
            p.current == 0,
            p.total == 0,
            p.is_complete,
    {
        let stage = String::from_str("Complete");
        proof {
            reveal_strlit("Complete");
        }
        SyncProgress { stage, current: 0, total: 0, is_complete: true }
    }
}

/// What a sync changed.
#[derive(Clone, Debug, PartialEq)]
pub struct SyncReport {
    pub full_sync: bool,
    pub songs_updated: u32,
    pub artists_updated: u32,
    pub albums_updated: u32,
    /// Wall-clock duration; measured by the caller around the operation.
    pub duration_ms: u64,
}

/// The changes between the local and the remote library.
#[derive(Clone, Debug, PartialEq)]
pub struct SyncDelta {
    /// IDs of songs to add (new on the server).
    pub songs_to_add: Vec<String>,
    /// IDs of songs to remove (deleted on the server).
    pub songs_to_remove: Vec<String>,
    /// IDs of songs to update (modified on the server).
    pub songs_to_update: Vec<String>,
    /// IDs of artists to add.
    pub artists_to_add: Vec<String>,
    /// IDs of artists to remove.
    pub artists_to_remove: Vec<String>,
    /// IDs of artists to update.
    pub artists_to_update: Vec<String>,
    /// IDs of albums to add.
    pub albums_to_add: Vec<String>,
    /// IDs of albums to remove.
    pub albums_to_remove: Vec<String>,
    /// IDs of albums to update.
    pub albums_to_update: Vec<String>,
}

/// The number of changes a delta lists, over all nine lists.
pub open spec fn delta_size(d: SyncDelta) -> int {
    (d.songs_to_add@.len() as int) + d.songs_to_remove@.len() + d.songs_to_update@.len()
        + d.artists_to_add@.len() + d.artists_to_remove@.len() + d.artists_to_update@.len()
        + d.albums_to_add@.len() + d.albums_to_remove@.len() + d.albums_to_update@.len()
}

/// Every list of the delta is empty.
pub open spec fn delta_is_empty(d: SyncDelta) -> bool {
    &&& d.songs_to_add@.len() == 0
    &&& d.songs_to_remove@.len() == 0
    &&& d.songs_to_update@.len() == 0
    &&& d.artists_to_add@.len() == 0
    &&& d.artists_to_remove@.len() == 0
    &&& d.artists_to_update@.len() == 0
    &&& d.albums_to_add@.len() == 0
    &&& d.albums_to_remove@.len() == 0
    &&& d.albums_to_update@.len() == 0
}

/// The nine lists of a delta, each as a sequence of ids.
pub open spec fn delta_lists(d: SyncDelta) -> Seq<Seq<Seq<char>>> {
    seq![
        views(d.songs_to_add@),
        views(d.songs_to_remove@),
        views(d.songs_to_update@),
        views(d.artists_to_add@),
        views(d.artists_to_remove@),
        views(d.artists_to_update@),
        views(d.albums_to_add@),
        views(d.albums_to_remove@),
        views(d.albums_to_update@),
    ]
}

impl SyncDelta {
    /// A delta with no changes.
    pub fn default() -> (d: SyncDelta)
        ensures
            delta_is_empty(d),
            delta_size(d) == 0,
    {
        SyncDelta {
            songs_to_add: Vec::new(),
            songs_to_remove: Vec::new(),
            songs_to_update: Vec::new(),
            artists_to_add: Vec::new(),
            artists_to_remove: Vec::new(),
            artists_to_update: Vec::new(),
            albums_to_add: Vec::new(),
            albums_to_remove: Vec::new(),
            albums_to_update: Vec::new(),
        }
    }

    /// Returns true if there are no changes to sync.
    pub fn is_empty(&self) -> (b: bool)
        ensures
            b == delta_is_empty(*self),
            b == (delta_size(*self) == 0),
    {
        self.songs_to_add.len() == 0 && self.songs_to_remove.len() == 0
            && self.songs_to_update.len() == 0 && self.artists_to_add.len() == 0
            && self.artists_to_remove.len() == 0 && self.artists_to_update.len() == 0
            && self.albums_to_add.len() == 0 && self.albums_to_remove.len() == 0
            && self.albums_to_update.len() == 0
    }

    /// Returns the total count of changes.
    pub fn total_changes(&self) -> (n: usize)
        requires
            delta_size(*self) <= usize::MAX,
        ensures
            n == delta_size(*self),
    {
        self.songs_to_add.len() + self.songs_to_remove.len() + self.songs_to_update.len()
            + self.artists_to_add.len() + self.artists_to_remove.len()
            + self.artists_to_update.len() + self.albums_to_add.len()
            + self.albums_to_remove.len() + self.albums_to_update.len()
    }
}

/// A delta is empty exactly when it counts no changes, that is when each
/// of its nine lists is empty.
pub proof fn lemma_delta_empty_iff_no_changes(d: SyncDelta)
    ensures
        delta_is_empty(d) <==> delta_size(d) == 0,
        delta_is_empty(d) <==> (forall|i: int| 0 <= i < 9 ==> (#[trigger] delta_lists(d)[i]).len() == 0),
{
    assert(delta_lists(d).len() == 9);
    if !delta_is_empty(d) {
        assert(delta_lists(d)[0].len() == views(d.songs_to_add@).len());
        assert(delta_lists(d)[1].len() == views(d.songs_to_remove@).len());
        assert(delta_lists(d)[2].len() == views(d.songs_to_update@).len());
        assert(delta_lists(d)[3].len() == views(d.artists_to_add@).len());
        assert(delta_lists(d)[4].len() == views(d.artists_to_remove@).len());
        assert(delta_lists(d)[5].len() == views(d.artists_to_update@).len());
        assert(delta_lists(d)[6].len() == views(d.albums_to_add@).len());
        assert(delta_lists(d)[7].len() == views(d.albums_to_remove@).len());
        assert(delta_lists(d)[8].len() == views(d.albums_to_update@).len());
    }
}

} // verus!
