//! Library entities (songs, albums, artists) and the collections the views
//! are built from.
//!
//! Floating-point values of the media server (a song's duration in seconds,
//! an artist's community rating) are carried as their IEEE-754 bit patterns,
//! so that they pass through the library unchanged.
use vstd::prelude::*;

verus! {

/// A value that can be copied with the copy's view equal to the original's.
pub trait Duplicate: View + Sized {
    fn duplicate(&self) -> (r: Self)
        ensures
            r@ == self@,
    ;
}

/// The view of an optional vector.
pub open spec fn opt_seq<T>(o: Option<Vec<T>>) -> Option<Seq<T>> {
    match o {
        Some(v) => Some(v@),
        None => None,
    }
}

/// A name paired with the id of the entity it names.
#[derive(Clone, Debug, PartialEq)]
pub struct NameIdPair {
    pub name: String,
    pub id: String,
}

/// A key/value pair of a media-server map (image tags, provider ids).
#[derive(Clone, Debug, PartialEq)]
pub struct Tag {
    pub key: String,
    pub value: String,
}

/// An audio item of the library.
#[derive(Clone, Debug, PartialEq)]
pub struct Song {
    pub id: String,
    pub name: String,
    pub item_type: String,
    pub album: Option<String>,
    pub album_id: Option<String>,
    pub artists: Option<Vec<String>>,
    pub artist_ids: Option<Vec<String>>,
    pub path: Option<String>,
    /// Duration in seconds, as the bit pattern of an `f64`.
    pub duration_bits: Option<u64>,
    pub album_art_url: Option<String>,
    pub year: Option<i32>,
    pub play_count: Option<i32>,
    pub is_favorite: Option<bool>,
    pub disc_number: Option<i32>,
    pub track_number: Option<i32>,
    pub container: Option<String>,
    pub bit_rate: Option<i32>,
    pub sample_rate: Option<i32>,
    pub codec: Option<String>,
    pub genres: Option<Vec<String>>,
    pub premiere_date: Option<String>,
    pub date_played: Option<String>,
    pub date_created: Option<String>,
    pub date_modified: Option<String>,
    pub album_artists: Option<Vec<NameIdPair>>,
    pub lyrics: Option<String>,
    pub image_tags: Option<Vec<Tag>>,
}

/// The value of a [`Song`], with its vectors seen as sequences.
pub struct SongV {
    pub id: String,
    pub name: String,
    pub item_type: String,
    pub album: Option<String>,
    pub album_id: Option<String>,
    pub artists: Option<Seq<String>>,
    pub artist_ids: Option<Seq<String>>,
    pub path: Option<String>,
    pub duration_bits: Option<u64>,
    pub album_art_url: Option<String>,
    pub year: Option<i32>,
    pub play_count: Option<i32>,
    pub is_favorite: Option<bool>,
    pub disc_number: Option<i32>,
    pub track_number: Option<i32>,
    pub container: Option<String>,
    pub bit_rate: Option<i32>,
    pub sample_rate: Option<i32>,
    pub codec: Option<String>,
    pub genres: Option<Seq<String>>,
    pub premiere_date: Option<String>,
    pub date_played: Option<String>,
    pub date_created: Option<String>,
    pub date_modified: Option<String>,
    pub album_artists: Option<Seq<NameIdPair>>,
    pub lyrics: Option<String>,
    pub image_tags: Option<Seq<Tag>>,
}

impl View for Song {
    type V = SongV;

    open spec fn view(&self) -> SongV {
        SongV {
            id: self.id,
            name: self.name,
            item_type: self.item_type,
            album: self.album,
            album_id: self.album_id,
            artists: opt_seq(self.artists),
            artist_ids: opt_seq(self.artist_ids),
            path: self.path,
            duration_bits: self.duration_bits,
            album_art_url: self.album_art_url,
            year: self.year,
            play_count: self.play_count,
            is_favorite: self.is_favorite,
            disc_number: self.disc_number,
            track_number: self.track_number,
            container: self.container,
            bit_rate: self.bit_rate,
            sample_rate: self.sample_rate,
            codec: self.codec,
            genres: opt_seq(self.genres),
            premiere_date: self.premiere_date,
            date_played: self.date_played,
            date_created: self.date_created,
            date_modified: self.date_modified,
            album_artists: opt_seq(self.album_artists),
            lyrics: self.lyrics,
            image_tags: opt_seq(self.image_tags),
        }
    }
}

fn dup_opt_string(o: &Option<String>) -> (r: Option<String>)
    ensures
        r == *o,
{
    o.clone()
}

fn dup_opt_strings(o: &Option<Vec<String>>) -> (r: Option<Vec<String>>)
    ensures
        opt_seq(r) == opt_seq(*o),
{
    o.clone()
}

fn dup_pairs(v: &Vec<NameIdPair>) -> (r: Vec<NameIdPair>)
    ensures
        r@ == v@,
{
    let mut r: Vec<NameIdPair> = Vec::new();
    let mut i: usize = 0;
    while i < v.len()
        invariant
            i <= v.len(),
            r@ == v@.subrange(0, i as int),
        decreases v.len() - i,
    {
        r.push(NameIdPair { name: v[i].name.clone(), id: v[i].id.clone() });
        assert(r@ =~= v@.subrange(0, i + 1));
        i = i + 1;
    }
    assert(r@ =~= v@);
    r
}

fn dup_opt_pairs(o: &Option<Vec<NameIdPair>>) -> (r: Option<Vec<NameIdPair>>)
    ensures
        opt_seq(r) == opt_seq(*o),
{
    match o {
        Some(v) => Some(dup_pairs(v)),
        None => None,
    }
}

fn dup_tags(v: &Vec<Tag>) -> (r: Vec<Tag>)
    ensures
        r@ == v@,
{
    let mut r: Vec<Tag> = Vec::new();
    let mut i: usize = 0;
    while i < v.len()
        invariant
            i <= v.len(),
            r@ == v@.subrange(0, i as int),
        decreases v.len() - i,
    {
        r.push(Tag { key: v[i].key.clone(), value: v[i].value.clone() });
        assert(r@ =~= v@.subrange(0, i + 1));
        i = i + 1;
    }
    assert(r@ =~= v@);
    r
}

fn dup_opt_tags(o: &Option<Vec<Tag>>) -> (r: Option<Vec<Tag>>)
    ensures
        opt_seq(r) == opt_seq(*o),
{
    match o {
        Some(v) => Some(dup_tags(v)),
        None => None,
    }
}

impl Duplicate for Song {
    fn duplicate(&self) -> (r: Song)
        ensures
            r@ == self@,
    {
        Song {
            id: self.id.clone(),
            name: self.name.clone(),
            item_type: self.item_type.clone(),
            album: dup_opt_string(&self.album),
            album_id: dup_opt_string(&self.album_id),
            artists: dup_opt_strings(&self.artists),
            artist_ids: dup_opt_strings(&self.artist_ids),
            path: dup_opt_string(&self.path),
            duration_bits: self.duration_bits,
            album_art_url: dup_opt_string(&self.album_art_url),
            year: self.year,
            play_count: self.play_count,
            is_favorite: self.is_favorite,
            disc_number: self.disc_number,
            track_number: self.track_number,
            container: dup_opt_string(&self.container),
            bit_rate: self.bit_rate,
            sample_rate: self.sample_rate,
            codec: dup_opt_string(&self.codec),
            genres: dup_opt_strings(&self.genres),
            premiere_date: dup_opt_string(&self.premiere_date),
            date_played: dup_opt_string(&self.date_played),
            date_created: dup_opt_string(&self.date_created),
            date_modified: dup_opt_string(&self.date_modified),
            album_artists: dup_opt_pairs(&self.album_artists),
            lyrics: dup_opt_string(&self.lyrics),
            image_tags: dup_opt_tags(&self.image_tags),
        }
    }
}

/// The views of a sequence of songs.
pub open spec fn song_views(s: Seq<Song>) -> Seq<SongV> {
    s.map_values(|x: Song| x@)
}

/// The views of an optional vector of songs.
pub open spec fn opt_song_views(o: Option<Vec<Song>>) -> Option<Seq<SongV>> {
    match o {
        Some(v) => Some(song_views(v@)),
        None => None,
    }
}

/// A song-by-song copy of a slice of songs.
pub fn duplicate_songs(v: &[Song]) -> (r: Vec<Song>)
    ensures
        song_views(r@) == song_views(v@),
{
    let mut r: Vec<Song> = Vec::new();
    let mut i: usize = 0;
    while i < v.len()
        invariant
            i <= v.len(),
            r@.len() == i,
            forall|j: int| 0 <= j < i ==> #[trigger] r@[j]@ == v@[j]@,
        decreases v.len() - i,
    {
        r.push(v[i].duplicate());
        i = i + 1;
    }
    assert(song_views(r@) =~= song_views(v@));
    r
}

fn dup_opt_songs(o: &Option<Vec<Song>>) -> (r: Option<Vec<Song>>)
    ensures
        opt_song_views(r) == opt_song_views(*o),
{
    match o {
        Some(v) => Some(duplicate_songs(v.as_slice())),
        None => None,
    }
}

/// An album of the library.
#[derive(Clone, Debug, PartialEq)]
pub struct Album {
    pub id: Option<String>,
    pub name: String,
    pub artist: String,
    pub artist_id: Option<String>,
    pub album_art_url: Option<String>,
    pub song_count: i64,
    pub songs: Option<Vec<Song>>,
    pub image_tags: Option<Vec<Tag>>,
    pub provider_ids: Option<Vec<Tag>>,
    pub date_created: Option<String>,
    pub date_modified: Option<String>,
}

/// The value of an [`Album`].
pub struct AlbumV {
    pub id: Option<String>,
    pub name: String,
    pub artist: String,
    pub artist_id: Option<String>,
    pub album_art_url: Option<String>,
    pub song_count: i64,
    pub songs: Option<Seq<SongV>>,
    pub image_tags: Option<Seq<Tag>>,
    pub provider_ids: Option<Seq<Tag>>,
    pub date_created: Option<String>,
    pub date_modified: Option<String>,
}

impl View for Album {
    type V = AlbumV;

    open spec fn view(&self) -> AlbumV {
        AlbumV {
            id: self.id,
            name: self.name,
            artist: self.artist,
            artist_id: self.artist_id,
            album_art_url: self.album_art_url,
            song_count: self.song_count,
            songs: opt_song_views(self.songs),
            image_tags: opt_seq(self.image_tags),
            provider_ids: opt_seq(self.provider_ids),
            date_created: self.date_created,
            date_modified: self.date_modified,
        }
    }
}

impl Duplicate for Album {
    fn duplicate(&self) -> (r: Album)
        ensures
            r@ == self@,
    {
        Album {
            id: self.id.clone(),
            name: self.name.clone(),
            artist: self.artist.clone(),
            artist_id: self.artist_id.clone(),
            album_art_url: self.album_art_url.clone(),
            song_count: self.song_count,
            songs: dup_opt_songs(&self.songs),
            image_tags: dup_opt_tags(&self.image_tags),
            provider_ids: dup_opt_tags(&self.provider_ids),
            date_created: self.date_created.clone(),
            date_modified: self.date_modified.clone(),
        }
    }
}

/// The views of a sequence of albums.
pub open spec fn album_views(s: Seq<Album>) -> Seq<AlbumV> {
    s.map_values(|x: Album| x@)
}

/// An artist of the library.
#[derive(Clone, Debug, PartialEq)]
pub struct Artist {
    pub name: String,
    pub id: String,
    pub image_tags: Option<Vec<Tag>>,
    pub image_url: Option<String>,
    pub overview: Option<String>,
    pub provider_ids: Option<Vec<Tag>>,
    /// Community rating, as the bit pattern of an `f64`.
    pub community_rating_bits: Option<u64>,
    pub song_count: Option<i64>,
    pub date_modified: Option<String>,
    pub songs: Option<Vec<Song>>,
}

/// The value of an [`Artist`].
pub struct ArtistV {
    pub name: String,
    pub id: String,
    pub image_tags: Option<Seq<Tag>>,
    pub image_url: Option<String>,
    pub overview: Option<String>,
    pub provider_ids: Option<Seq<Tag>>,
    pub community_rating_bits: Option<u64>,
    pub song_count: Option<i64>,
    pub date_modified: Option<String>,
    pub songs: Option<Seq<SongV>>,
}

impl View for Artist {
    type V = ArtistV;

    open spec fn view(&self) -> ArtistV {
        ArtistV {
            name: self.name,
            id: self.id,
            image_tags: opt_seq(self.image_tags),
            image_url: self.image_url,
            overview: self.overview,
            provider_ids: opt_seq(self.provider_ids),
            community_rating_bits: self.community_rating_bits,
            song_count: self.song_count,
            date_modified: self.date_modified,
            songs: opt_song_views(self.songs),
        }
    }
}

impl Duplicate for Artist {
    fn duplicate(&self) -> (r: Artist)
        ensures
            r@ == self@,
    {
        Artist {
            name: self.name.clone(),
            id: self.id.clone(),
            image_tags: dup_opt_tags(&self.image_tags),
            image_url: self.image_url.clone(),
            overview: self.overview.clone(),
            provider_ids: dup_opt_tags(&self.provider_ids),
            community_rating_bits: self.community_rating_bits,
            song_count: self.song_count,
            date_modified: self.date_modified.clone(),
            songs: dup_opt_songs(&self.songs),
        }
    }
}

/// The views of a sequence of artists.
pub open spec fn artist_views(s: Seq<Artist>) -> Seq<ArtistV> {
    s.map_values(|x: Artist| x@)
}

impl Duplicate for String {
    fn duplicate(&self) -> (r: String)
        ensures
            r@ == self@,
    {
        self.clone()
    }
}

/// The whole library: albums, artists and songs.
#[derive(Clone, Debug, PartialEq)]
pub struct LibraryData {
    pub albums: Vec<Album>,
    pub artists: Vec<Artist>,
    pub songs: Vec<Song>,
}

/// Sections of the desktop home view.
#[derive(Clone, Debug, PartialEq)]
pub struct HomeViewData {
    pub recently_played: Vec<Song>,
    pub recently_added: Vec<Album>,
    pub random_albums: Vec<Album>,
    pub featured_albums: Vec<Album>,
}

/// Home view sections used by mobile clients.
#[derive(Clone, Debug, PartialEq)]
pub struct MobileHomeData {
    pub most_played: Vec<Song>,
    pub recently_played: Vec<Song>,
    pub recently_added: Vec<Album>,
    pub random_albums: Vec<Album>,
    pub featured_albums: Vec<Album>,
}

} // verus!

verus! {

/// Supported backend providers.
#[derive(Clone, Copy, Debug, PartialEq, Eq, Structural)]
pub enum BackendProvider {
    Jellyfin,
}

impl Default for BackendProvider {
    /// Jellyfin, the provider assumed when none is recorded.
    fn default() -> (p: BackendProvider)
        ensures
            p == BackendProvider::Jellyfin,
    {
        BackendProvider::Jellyfin
    }
}

/// The provider assumed when none is recorded.
pub fn default_backend_provider() -> (p: BackendProvider)
    ensures
        p == BackendProvider::Jellyfin,
{
    BackendProvider::Jellyfin
}

/// The provider that issued a token; every token is taken to be Jellyfin's.
pub fn infer_provider_from_token(_token: &str) -> (p: BackendProvider)
    ensures
        p == BackendProvider::Jellyfin,
{
    BackendProvider::Jellyfin
}

/// The provider of a server from its Jellyfin probe: a server that answers
/// the public system-info request is a Jellyfin server; any other cannot be
/// told.
pub fn provider_from_probe(jellyfin_answered: bool) -> (r: Result<BackendProvider, String>)
    ensures
        jellyfin_answered ==> r == Ok::<BackendProvider, String>(BackendProvider::Jellyfin),
        !jellyfin_answered ==> (r matches Err(m) && m@ == "Unable to detect backend provider"@),
{
    if jellyfin_answered {
        Ok(BackendProvider::Jellyfin)
    } else {
        Err(String::from_str("Unable to detect backend provider"))
    }
}

/// Provider capabilities for feature gating.
#[derive(Clone, Debug, PartialEq)]
pub struct ProviderCapabilities {
    pub supports_client_capabilities_registration: bool,
    pub supports_playback_progress_reporting: bool,
    pub supports_server_lyrics: bool,
    pub supports_instant_mix: bool,
}

/// What a provider supports: Jellyfin supports every feature.
pub fn get_provider_capabilities(provider: BackendProvider) -> (c: ProviderCapabilities)
    ensures
        provider == BackendProvider::Jellyfin ==> c.supports_client_capabilities_registration
            && c.supports_playback_progress_reporting && c.supports_server_lyrics
            && c.supports_instant_mix,
{
    match provider {
        BackendProvider::Jellyfin => ProviderCapabilities {
            supports_client_capabilities_registration: true,
            supports_playback_progress_reporting: true,
            supports_server_lyrics: true,
            supports_instant_mix: true,
        },
    }
}

/// The liveness answer of the core.
pub fn ping() -> (s: String)
    ensures
        s@ == seq!['p', 'o', 'n', 'g'],
{
    let s = String::from_str("pong");
    proof {
        reveal_strlit("pong");
    }
    s
}

/// Authentication request payload.
#[derive(Clone, Debug, PartialEq)]
pub struct AuthRequest {
    pub provider: BackendProvider,
    pub server_url: String,
    pub username: String,
    pub password: String,
    pub device_id: String,
}

/// Response from a successful login.
#[derive(Clone, Debug, PartialEq)]
pub struct LoginResponse {
    /// User authentication token.
    pub token: String,
    /// User ID.
    pub user_id: String,
}

/// User credentials for backend authentication.
#[derive(Clone, Debug, PartialEq)]
pub struct Credentials {
    pub provider: BackendProvider,
    /// Backend server URL.
    pub server_url: String,
    pub username: String,
    /// Authentication token.
    pub token: String,
    pub user_id: String,
}

impl View for Credentials {
    type V = Credentials;

    open spec fn view(&self) -> Credentials {
        *self
    }
}

impl Duplicate for Credentials {
    fn duplicate(&self) -> (r: Credentials)
        ensures
            r@ == self@,
    {
        Credentials {
            provider: self.provider,
            server_url: self.server_url.clone(),
            username: self.username.clone(),
            token: self.token.clone(),
            user_id: self.user_id.clone(),
        }
    }
}

/// Jellyfin user information.
#[derive(Clone, Debug, PartialEq)]
pub struct JellyfinUser {
    pub id: String,
}

/// Jellyfin authentication response.
#[derive(Clone, Debug, PartialEq)]
pub struct JellyfinAuthResponse {
    /// Access token for API calls.
    pub access_token: String,
    pub user: JellyfinUser,
}

impl JellyfinAuthResponse {
    /// The login response a Jellyfin authentication response amounts to.
    pub fn into_login_response(self) -> (r: LoginResponse)
        ensures
            r.token == self.access_token,
            r.user_id == self.user.id,
    {
        LoginResponse { token: self.access_token, user_id: self.user.id }
    }
}

} // verus!
