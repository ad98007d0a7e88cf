//! The Subsonic API of a Navidrome server: request URLs with token
//! authentication, response unwrapping, and building library items from
//! the JSON it sends.
//!
//! Each request carries a fresh random salt; the token is the MD5 digest,
//! in hexadecimal, of the password followed by the salt.
use vstd::prelude::*;
use crate::json::{
    JsonValue, member, has_key, str_of, int_of, float_bits_of, get, str_member, string_member,
    int_member, float_bits_member,
};
use crate::jellyfin_urls::{normalize_bitrate_to_bps, trim_end_slashes, url_encode, url_encoded, without_trailing_slashes};
use crate::lastfm::{find_char, hex_bytes, md5_hex, md5_of};
use crate::models::{Album, Artist, NameIdPair, Song, Tag};
use crate::jellyfin_items::or_text;
use crate::jellyfin_playlists::{Playlist, PlaylistUpdateData};
use crate::profile_storage::string_from;
use crate::text::{chars_of, decimal, opt_chars, owned, push_str};

verus! {

/// A lowercase hexadecimal digit.
pub open spec fn is_lower_hex(c: char) -> bool {
    ('0' <= c <= '9') || ('a' <= c <= 'f')
}

/// `Uuid::new_v4` in its simple form: a random UUID as 32 lowercase
/// hexadecimal digits. Which digits comes out is left open.
#[verifier::external_body]
fn new_salt() -> (s: String)
    ensures
        s@.len() == 32,
        forall|i: int| 0 <= i < s@.len() ==> is_lower_hex(#[trigger] s@[i]),
{
    uuid::Uuid::new_v4().simple().to_string()
}

/// A salt a request may carry.
pub open spec fn valid_salt(salt: Seq<char>) -> bool {
    &&& salt.len() == 32
    &&& forall|i: int| 0 <= i < salt.len() ==> is_lower_hex(#[trigger] salt[i])
}

/// A client of a Navidrome server, with the account it signs in with.
#[derive(Clone, Debug, PartialEq)]
pub struct NavidromeClient {
    pub server_url: String,
    pub username: String,
    pub password: String,
}

/// The (name, value) of each query parameter.
pub open spec fn param_texts(q: Seq<(String, String)>) -> Seq<(Seq<char>, Seq<char>)> {
    q.map_values(|p: (String, String)| (p.0@, p.1@))
}

/// The authentication parameters of a request with `salt`: user, token,
/// salt, API version "1.16.1", client "aurelia" and format "json".
pub open spec fn auth_params(username: Seq<char>, password: Seq<char>, salt: Seq<char>) -> Seq<(Seq<char>, Seq<char>)> {
    seq![
        ("u"@, username),
        ("t"@, hex_bytes(md5_of(password + salt))),
        ("s"@, salt),
        ("v"@, "1.16.1"@),
        ("c"@, "aurelia"@),
        ("f"@, "json"@),
    ]
}

/// A parameter as it stands in a query: its name and value percent-encoded,
/// joined by '='.
pub open spec fn encoded_param(p: (Seq<char>, Seq<char>)) -> Seq<char> {
    url_encoded(p.0) + "="@ + url_encoded(p.1)
}

/// The parameters as they stand in a query, joined by '&'.
pub open spec fn encoded_query(q: Seq<(Seq<char>, Seq<char>)>) -> Seq<char>
    decreases q.len(),
{
    if q.len() == 0 {
        Seq::empty()
    } else if q.len() == 1 {
        encoded_param(q[0])
    } else {
        encoded_query(q.drop_last()) + "&"@ + encoded_param(q.last())
    }
}

/// The URL of the REST endpoint `endpoint` of a server (trailing slashes
/// removed) with the query `q`.
pub open spec fn navidrome_url_text(server_url: Seq<char>, endpoint: Seq<char>, q: Seq<(Seq<char>, Seq<char>)>) -> Seq<char> {
    trim_end_slashes(server_url) + "/rest/"@ + endpoint + ".view?"@ + encoded_query(q)
}

/// The URL of a REST endpoint of the server with the given query
/// parameters, each percent-encoded.
pub fn build_navidrome_url(server_url: &str, endpoint: &str, query: &[(String, String)]) -> (u: String)
    ensures
        u@ == navidrome_url_text(server_url@, endpoint@, param_texts(query@)),
{
    let ghost q = param_texts(query@);
    let mut encoded = String::new();
    let mut i: usize = 0;
    while i < query.len()
        invariant
            i <= query@.len(),
            q == param_texts(query@),
            encoded@ == encoded_query(q.take(i as int)),
        decreases query@.len() - i,
    {
        let ghost t = q.take(i + 1);
        assert(t.drop_last() =~= q.take(i as int));
        assert(t.last() == q[i as int]);
        assert(q[i as int] == (query@[i as int].0@, query@[i as int].1@));
        if i > 0 {
            push_str(&mut encoded, "&");
        } else {
            assert(t =~= seq![q[0]]);
        }
        let k = url_encode(query[i].0.as_str());
        let v = url_encode(query[i].1.as_str());
        push_str(&mut encoded, k.as_str());
        push_str(&mut encoded, "=");
        push_str(&mut encoded, v.as_str());
        proof {
            if i > 0 {
                assert(encoded@ =~= encoded_query(t.drop_last()) + "&"@ + encoded_param(t.last()));
            } else {
                assert(encoded@ =~= encoded_param(q[0]));
            }
        }
        i = i + 1;
    }
    assert(q.take(i as int) =~= q);
    let mut u = without_trailing_slashes(server_url);
    push_str(&mut u, "/rest/");
    push_str(&mut u, endpoint);
    push_str(&mut u, ".view?");
    push_str(&mut u, encoded.as_str());
    u
}

fn pair(name: &str, value: String) -> (p: (String, String))
    ensures
        p.0@ == name@,
        p.1@ == value@,
{
    (owned(name), value)
}

impl NavidromeClient {
    /// A client of `server_url` without an account.
    pub fn new(server_url: String) -> (c: NavidromeClient)
        ensures
            c.server_url == server_url,
            c.username@ == Seq::<char>::empty(),
            c.password@ == Seq::<char>::empty(),
    {
        NavidromeClient { server_url, username: String::new(), password: String::new() }
    }

    /// A client of `server_url` signing in as `username`.
    pub fn with_auth(server_url: String, username: String, password: String) -> (c: NavidromeClient)
        ensures
            c == (NavidromeClient { server_url, username, password }),
    {
        NavidromeClient { server_url, username, password }
    }

    /// The authentication parameters of a request with `salt`.
    pub fn auth_query_with_salt(&self, salt: &str) -> (q: Vec<(String, String)>)
        ensures
            param_texts(q@) == auth_params(self.username@, self.password@, salt@),
    {
        let mut secret = self.password.clone();
        push_str(&mut secret, salt);
        let token = md5_hex(secret.as_str());
        let mut q: Vec<(String, String)> = Vec::new();
        q.push(pair("u", self.username.clone()));
        q.push(pair("t", token));
        q.push(pair("s", owned(salt)));
        q.push(pair("v", owned("1.16.1")));
        q.push(pair("c", owned("aurelia")));
        q.push(pair("f", owned("json")));
        assert(param_texts(q@) =~= auth_params(self.username@, self.password@, salt@));
        q
    }

    /// The authentication parameters of a request, with a fresh salt.
    pub fn auth_query(&self) -> (q: Vec<(String, String)>)
        ensures
            exists|salt: Seq<char>|
                valid_salt(salt) && param_texts(q@) == auth_params(self.username@, self.password@, salt),
    {
        let salt = new_salt();
        let q = self.auth_query_with_salt(salt.as_str());
        assert(valid_salt(salt@));
        q
    }

    /// The URL of `endpoint` for the item `id`, authenticated with `salt`.
    pub fn item_url_with_salt(&self, endpoint: &str, id: &str, salt: &str) -> (u: String)
        ensures
            u@ == item_url_text(*self, endpoint@, id@, salt@),
    {
        let mut q = self.auth_query_with_salt(salt);
        let ghost before = param_texts(q@);
        q.push(pair("id", owned(id)));
        assert(param_texts(q@) =~= before.push(("id"@, id@)));
        build_navidrome_url(self.server_url.as_str(), endpoint, q.as_slice())
    }

    /// The stream URL of an item.
    pub fn get_audio_stream_url(&self, item_id: &str, container: Option<&str>) -> (u: String)
        ensures
            exists|salt: Seq<char>| valid_salt(salt) && u@ == item_url_text(*self, "stream"@, item_id@, salt),
    {
        let salt = new_salt();
        let u = self.item_url_with_salt("stream", item_id, salt.as_str());
        assert(valid_salt(salt@));
        u
    }

    /// The stream URL of an item for mobile players: the same stream.
    pub fn get_mobile_audio_stream_url(&self, item_id: &str, container: Option<&str>) -> (u: String)
        ensures
            exists|salt: Seq<char>| valid_salt(salt) && u@ == item_url_text(*self, "stream"@, item_id@, salt),
    {
        self.get_audio_stream_url(item_id, container)
    }

    /// The URL of a cover art image.
    pub fn get_cover_art_url(&self, cover_art_id: &str) -> (u: String)
        ensures
            exists|salt: Seq<char>|
                valid_salt(salt) && u@ == item_url_text(*self, "getCoverArt"@, cover_art_id@, salt),
    {
        let salt = new_salt();
        let u = self.item_url_with_salt("getCoverArt", cover_art_id, salt.as_str());
        assert(valid_salt(salt@));
        u
    }
}

/// The URL of `endpoint` for the item `id`: the authentication parameters
/// with `salt`, then the id.
pub open spec fn item_url_text(c: NavidromeClient, endpoint: Seq<char>, id: Seq<char>, salt: Seq<char>) -> Seq<char> {
    navidrome_url_text(
        c.server_url@,
        endpoint,
        auth_params(c.username@, c.password@, salt).push(("id"@, id)),
    )
}

/// Why a Subsonic response or item could not be read.
#[derive(Clone, Debug, PartialEq)]
pub enum SubsonicError {
    /// The response has no "subsonic-response" member.
    MissingWrapper,
    /// The server reported a failure, with its message.
    Failed(String),
    /// A song without an id.
    SongMissingId,
}

/// The message of an error.
pub open spec fn subsonic_error_text(e: SubsonicError) -> Seq<char> {
    match e {
        SubsonicError::MissingWrapper => "Missing subsonic-response wrapper"@,
        SubsonicError::SongMissingId => "Song missing id"@,
        SubsonicError::Failed(detail) => detail@,
    }
}

impl SubsonicError {
    /// The error's message.
    pub fn message(&self) -> (s: String)
        ensures
            s@ == subsonic_error_text(*self),
    {
        match self {
            SubsonicError::MissingWrapper => String::from_str("Missing subsonic-response wrapper"),
            SubsonicError::Failed(detail) => detail.clone(),
            SubsonicError::SongMissingId => String::from_str("Song missing id"),
        }
    }
}

/// The message of a failed response: its error message, else
/// "Unknown Subsonic API error".
pub open spec fn failure_detail(root: JsonValue) -> Seq<char> {
    match str_of(member(member(root, "error"@), "message"@)) {
        Some(m) => m,
        None => "Unknown Subsonic API error"@,
    }
}

/// A response body whose status is "failed".
pub open spec fn is_failed(root: JsonValue) -> bool {
    str_of(member(root, "status"@)) == Some("failed"@)
}

/// The body of a Subsonic response: its "subsonic-response" member; a
/// response without one, or whose status is "failed", is refused.
pub fn subsonic_root(json: &JsonValue) -> (r: Result<&JsonValue, SubsonicError>)
    ensures
        !has_key(*json, "subsonic-response"@) ==> r == Err::<&JsonValue, SubsonicError>(
            SubsonicError::MissingWrapper,
        ),
        has_key(*json, "subsonic-response"@) && is_failed(member(*json, "subsonic-response"@)) ==> (
        r matches Err(SubsonicError::Failed(d)) && d@ == failure_detail(
            member(*json, "subsonic-response"@),
        )),
        has_key(*json, "subsonic-response"@) && !is_failed(member(*json, "subsonic-response"@)) ==> (
        r matches Ok(root) && *root == member(*json, "subsonic-response"@)),
{
    let root = match get(json, "subsonic-response") {
        Some(root) => root,
        None => {
            return Err(SubsonicError::MissingWrapper);
        },
    };
    let failed = match str_member(root, "status") {
        Some(status) => crate::text::str_eq(status, "failed"),
        None => false,
    };
    if failed {
        let detail = match get(root, "error") {
            Some(e) => match str_member(e, "message") {
                Some(m) => m.to_string(),
                None => String::from_str("Unknown Subsonic API error"),
            },
            None => String::from_str("Unknown Subsonic API error"),
        };
        proof {
            assert(member(JsonValue::Null, "message"@) == JsonValue::Null);
        }
        return Err(SubsonicError::Failed(detail));
    }
    Ok(root)
}

/// What a member holds as a list: the elements of an array, nothing for a
/// missing member or null, else the value alone.
pub open spec fn value_list(v: Option<JsonValue>) -> Seq<JsonValue> {
    match v {
        None => Seq::empty(),
        Some(JsonValue::Array(items)) => items@,
        Some(JsonValue::Null) => Seq::empty(),
        Some(other) => seq![other],
    }
}

/// What a member holds as a list (see `value_list`).
pub fn value_array(value: Option<&JsonValue>) -> (r: Vec<&JsonValue>)
    ensures
        r@.len() == value_list(match value {
            Some(v) => Some(*v),
            None => None,
        }).len(),
        forall|i: int| 0 <= i < r@.len() ==> *r@[i] == value_list(match value {
            Some(v) => Some(*v),
            None => None,
        })[i],
{
    match value {
        None => Vec::new(),
        Some(JsonValue::Array(items)) => {
            let mut r: Vec<&JsonValue> = Vec::new();
            let mut i: usize = 0;
            while i < items.len()
                invariant
                    i <= items@.len(),
                    r@.len() == i,
                    forall|j: int| 0 <= j < i ==> *r@[j] == items@[j],
                decreases items@.len() - i,
            {
                r.push(&items[i]);
                i = i + 1;
            }
            r
        },
        Some(JsonValue::Null) => Vec::new(),
        Some(other) => {
            let mut r: Vec<&JsonValue> = Vec::new();
            r.push(other);
            r
        },
    }
}

/// The position just after `c` scanning `s` from `start`: where the next
/// `c` is, or the end.
fn find_from(s: &Vec<char>, start: usize, c: char) -> (p: usize)
    requires
        start <= s@.len(),
    ensures
        start <= p <= s@.len(),
        p == start + find_char(s@.skip(start as int), c),
{
    let mut p = start;
    while p < s.len() && s[p] != c
        invariant
            start <= p <= s@.len(),
            find_char(s@.skip(start as int), c) == (p - start) + find_char(s@.skip(p as int), c),
        decreases s@.len() - p,
    {
        proof {
            assert(s@.skip(p as int).drop_first() =~= s@.skip(p + 1));
            assert(s@.skip(p as int)[0] == s@[p as int]);
        }
        p = p + 1;
    }
    proof {
        if p < s@.len() {
            assert(s@.skip(p as int)[0] == s@[p as int]);
        } else {
            assert(s@.skip(p as int).len() == 0);
        }
    }
    p
}

/// The second '/'-separated piece of a text, when it has a '/'.
pub open spec fn second_piece(t: Seq<char>) -> Option<Seq<char>> {
    let k = find_char(t, '/');
    if k < t.len() {
        let rest = t.skip(k + 1);
        Some(rest.take(find_char(rest, '/')))
    } else {
        None
    }
}

/// The second '/'-separated piece of a text (the subtype of a media type).
fn second_piece_of(t: &str) -> (r: Option<String>)
    ensures
        opt_chars(r) == second_piece(t@),
{
    let chars = chars_of(t);
    assert(chars@.skip(0) =~= chars@);
    let k = find_from(&chars, 0, '/');
    if k < chars.len() {
        let j = find_from(&chars, k + 1, '/');
        let piece = string_from(&chars, k + 1, j);
        assert(piece@ =~= chars@.skip(k + 1).take(find_char(chars@.skip(k + 1), '/')));
        Some(piece)
    } else {
        None
    }
}

/// A copy of an optional text.
fn copy_opt(o: &Option<String>) -> (r: Option<String>)
    ensures
        r == *o,
{
    o.clone()
}

/// The tags naming `id` as the primary image.
pub open spec fn primary_tags(id: Seq<char>) -> Seq<(Seq<char>, Seq<char>)> {
    seq![("Primary"@, id)]
}

fn primary_tag(id: &String) -> (r: Vec<Tag>)
    ensures
        crate::jellyfin_items::tag_views(r@) == primary_tags(id@),
{
    let mut r: Vec<Tag> = Vec::new();
    r.push(Tag { key: owned("Primary"), value: id.clone() });
    assert(crate::jellyfin_items::tag_views(r@) =~= primary_tags(id@));
    r
}

/// An integer narrowed to an `i32` the way `as` does.
pub open spec fn as_i32(o: Option<i64>) -> Option<i32> {
    match o {
        Some(n) => Some(n as i32),
        None => None,
    }
}

fn narrow(o: Option<i64>) -> (r: Option<i32>)
    ensures
        r == as_i32(o),
{
    match o {
        Some(n) => Some(n as i32),
        None => None,
    }
}

/// The container of a song: its suffix, else the subtype of its content
/// type.
pub open spec fn subsonic_container(song: JsonValue) -> Option<Seq<char>> {
    match str_of(member(song, "suffix"@)) {
        Some(x) => Some(x),
        None => match str_of(member(song, "contentType"@)) {
            Some(t) => second_piece(t),
            None => None,
        },
    }
}

/// The bit rate in bits per second of a reported rate (kbps below 10000).
pub open spec fn bps(b: i64) -> i32 {
    (if 1 <= b < 10000 { b * 1000 } else { b as int }) as i32
}

/// A single text as a list.
pub open spec fn one_of(o: Option<Seq<char>>) -> Option<Seq<Seq<char>>> {
    match o {
        Some(x) => Some(seq![x]),
        None => None,
    }
}

/// `s` is the song the Subsonic item `song` describes, its cover URL made
/// with `salt`.
pub open spec fn subsonic_song(s: Song, c: NavidromeClient, song: JsonValue, salt: Seq<char>) -> bool {
    let cover = str_of(member(song, "coverArt"@));
    let lookup = match cover {
        Some(x) => Some(x),
        None => str_of(member(song, "albumId"@)),
    };
    let artist = str_of(member(song, "artist"@));
    let artist_id = str_of(member(song, "artistId"@));
    &&& str_of(member(song, "id"@)) == Some(s.id@)
    &&& s.name@ == match str_of(member(song, "title"@)) {
        Some(t) => t,
        None => "Unknown"@,
    }
    &&& s.item_type@ == "Audio"@
    &&& opt_chars(s.album) == str_of(member(song, "album"@))
    &&& opt_chars(s.album_id) == str_of(member(song, "albumId"@))
    &&& crate::jellyfin_items::opt_views(s.artists) == one_of(artist)
    &&& crate::jellyfin_items::opt_views(s.artist_ids) == one_of(artist_id)
    &&& opt_chars(s.path) == str_of(member(song, "path"@))
    &&& s.duration_bits == float_bits_of(member(song, "duration"@))
    &&& opt_chars(s.album_art_url) == match lookup {
        Some(id) => Some(item_url_text(c, "getCoverArt"@, id, salt)),
        None => None,
    }
    &&& s.year == as_i32(int_of(member(song, "year"@)))
    &&& s.play_count == as_i32(int_of(member(song, "playCount"@)))
    &&& s.is_favorite == Some(has_key(song, "starred"@))
    &&& s.disc_number == as_i32(int_of(member(song, "discNumber"@)))
    &&& s.track_number == as_i32(int_of(member(song, "track"@)))
    &&& opt_chars(s.container) == subsonic_container(song)
    &&& s.bit_rate == match int_of(member(song, "bitRate"@)) {
        Some(b) => Some(bps(b)),
        None => None,
    }
    &&& s.sample_rate == as_i32(int_of(member(song, "samplingRate"@)))
    &&& opt_chars(s.codec) == subsonic_container(song)
    &&& crate::jellyfin_items::opt_views(s.genres) == one_of(str_of(member(song, "genre"@)))
    &&& opt_chars(s.premiere_date) == str_of(member(song, "created"@))
    &&& opt_chars(s.date_played) == str_of(member(song, "played"@))
    &&& opt_chars(s.date_created) == str_of(member(song, "created"@))
    &&& opt_chars(s.date_modified) == str_of(member(song, "changed"@))
    &&& match s.album_artists {
        Some(v) => artist is Some && artist_id is Some && crate::jellyfin_items::pair_views(v@) == seq![
            (artist_id->0, artist->0),
        ],
        None => artist is None || artist_id is None,
    }
    &&& s.lyrics is None
    &&& crate::jellyfin_items::opt_tag_views(s.image_tags) == match cover {
        Some(id) => Some(primary_tags(id)),
        None => None,
    }
}

fn one(o: &Option<String>) -> (r: Option<Vec<String>>)
    ensures
        crate::jellyfin_items::opt_views(r) == one_of(opt_chars(*o)),
{
    match o {
        Some(x) => {
            let mut v: Vec<String> = Vec::new();
            v.push(x.clone());
            assert(crate::text::views(v@) =~= seq![x@]);
            Some(v)
        },
        None => None,
    }
}

/// Reads a song of a Subsonic response, its cover URL made with `salt`;
/// a song without an id is refused.
pub fn parse_song_with_salt(client: &NavidromeClient, song: &JsonValue, salt: &str) -> (r: Result<Song, SubsonicError>)
    ensures
        match r {
            Ok(s) => subsonic_song(s, *client, *song, salt@),
            Err(e) => e == SubsonicError::SongMissingId && str_of(member(*song, "id"@)) is None,
        },
{
    let id = match string_member(song, "id") {
        Some(id) => id,
        None => {
            return Err(SubsonicError::SongMissingId);
        },
    };
    let cover = string_member(song, "coverArt");
    let album_id = string_member(song, "albumId");
    let lookup = match &cover {
        Some(x) => Some(x.clone()),
        None => copy_opt(&album_id),
    };
    let album_art_url = match &lookup {
        Some(x) => Some(client.item_url_with_salt("getCoverArt", x.as_str(), salt)),
        None => None,
    };
    let image_tags = match &cover {
        Some(x) => Some(primary_tag(x)),
        None => None,
    };
    let artist = string_member(song, "artist");
    let artist_id = string_member(song, "artistId");
    let album_artists = match (&artist, &artist_id) {
        (Some(name), Some(aid)) => {
            let mut v: Vec<NameIdPair> = Vec::new();
            v.push(NameIdPair { name: name.clone(), id: aid.clone() });
            assert(crate::jellyfin_items::pair_views(v@) =~= seq![(aid@, name@)]);
            Some(v)
        },
        _ => None,
    };
    let container = match string_member(song, "suffix") {
        Some(x) => Some(x),
        None => match str_member(song, "contentType") {
            Some(t) => second_piece_of(t),
            None => None,
        },
    };
    let codec = copy_opt(&container);
    let name = match str_member(song, "title") {
        Some(t) => t.to_string(),
        None => String::from_str("Unknown"),
    };
    let bit_rate = match int_member(song, "bitRate") {
        Some(b) => Some(normalize_bitrate_to_bps(b)),
        None => None,
    };
    let genre = string_member(song, "genre");
    let created = string_member(song, "created");
    Ok(
        Song {
            id,
            name,
            item_type: String::from_str("Audio"),
            album: string_member(song, "album"),
            album_id,
            artists: one(&artist),
            artist_ids: one(&artist_id),
            path: string_member(song, "path"),
            duration_bits: float_bits_member(song, "duration"),
            album_art_url,
            year: narrow(int_member(song, "year")),
            play_count: narrow(int_member(song, "playCount")),
            is_favorite: Some(get(song, "starred").is_some()),
            disc_number: narrow(int_member(song, "discNumber")),
            track_number: narrow(int_member(song, "track")),
            container,
            bit_rate,
            sample_rate: narrow(int_member(song, "samplingRate")),
            codec,
            genres: one(&genre),
            premiere_date: copy_opt(&created),
            date_played: string_member(song, "played"),
            date_created: created,
            date_modified: string_member(song, "changed"),
            album_artists,
            lyrics: None,
            image_tags,
        },
    )
}

/// A song read from a Subsonic item takes its track number from the item's
/// `track` and its disc number from the item's `discNumber`, each cut to
/// 32 bits; so a song whose track and disc differ keeps them apart.
pub proof fn lemma_song_track_and_disc(s: Song, c: NavidromeClient, song: JsonValue, salt: Seq<char>)
    requires
        subsonic_song(s, c, song, salt),
    ensures
        s.track_number == match int_of(member(song, "track"@)) {
            Some(n) => Some(n as i32),
            None => None::<i32>,
        },
        s.disc_number == match int_of(member(song, "discNumber"@)) {
            Some(n) => Some(n as i32),
            None => None::<i32>,
        },
{
}

/// Reads a song of a Subsonic response, its cover URL made with a fresh
/// salt; a song without an id is refused.
pub fn parse_song(client: &NavidromeClient, song: &JsonValue) -> (r: Result<Song, SubsonicError>)
    ensures
        r is Err <==> str_of(member(*song, "id"@)) is None,
        r is Err ==> r == Err::<Song, SubsonicError>(SubsonicError::SongMissingId),
        r matches Ok(s) ==> exists|salt: Seq<char>| valid_salt(salt) && subsonic_song(s, *client, *song, salt),
{
    let salt = new_salt();
    let r = parse_song_with_salt(client, song, salt.as_str());
    proof {
        if r is Ok {
            assert(valid_salt(salt@) && subsonic_song(r->Ok_0, *client, *song, salt@));
        }
    }
    r
}

/// `a` is the artist the Subsonic item `artist` describes, its cover URL
/// made with `salt`.
pub open spec fn subsonic_artist(a: Artist, c: NavidromeClient, artist: JsonValue, salt: Seq<char>) -> bool {
    let cover = str_of(member(artist, "coverArt"@));
    &&& a.name@ == match str_of(member(artist, "name"@)) {
        Some(n) => n,
        None => "Unknown Artist"@,
    }
    &&& a.id@ == crate::jellyfin_items::or_empty(str_of(member(artist, "id"@)))
    &&& crate::jellyfin_items::opt_tag_views(a.image_tags) == match cover {
        Some(id) => Some(primary_tags(id)),
        None => None,
    }
    &&& opt_chars(a.image_url) == match cover {
        Some(id) => Some(item_url_text(c, "getCoverArt"@, id, salt)),
        None => None,
    }
    &&& a.overview is None
    &&& a.provider_ids is None
    &&& a.community_rating_bits is None
    &&& a.song_count == int_of(member(artist, "albumCount"@))
    &&& a.date_modified is None
    &&& a.songs is None
}

/// Reads an artist of a Subsonic response, its cover URL made with `salt`.
pub fn parse_artist_with_salt(client: &NavidromeClient, artist: &JsonValue, salt: &str) -> (a: Artist)
    ensures
        subsonic_artist(a, *client, *artist, salt@),
{
    let cover = string_member(artist, "coverArt");
    let image_tags = match &cover {
        Some(x) => Some(primary_tag(x)),
        None => None,
    };
    let image_url = match &cover {
        Some(x) => Some(client.item_url_with_salt("getCoverArt", x.as_str(), salt)),
        None => None,
    };
    let name = match str_member(artist, "name") {
        Some(n) => n.to_string(),
        None => String::from_str("Unknown Artist"),
    };
    let id = match str_member(artist, "id") {
        Some(i) => i.to_string(),
        None => String::new(),
    };
    Artist {
        name,
        id,
        image_tags,
        image_url,
        overview: None,
        provider_ids: None,
        community_rating_bits: None,
        song_count: int_member(artist, "albumCount"),
        date_modified: None,
        songs: None,
    }
}

/// Reads an artist of a Subsonic response, its cover URL made with a fresh
/// salt.
pub fn parse_artist(client: &NavidromeClient, artist: &JsonValue) -> (a: Artist)
    ensures
        exists|salt: Seq<char>| valid_salt(salt) && subsonic_artist(a, *client, *artist, salt),
{
    let salt = new_salt();
    let a = parse_artist_with_salt(client, artist, salt.as_str());
    assert(valid_salt(salt@));
    a
}

/// The name of a Subsonic album: its "name" member when it has one, else
/// its "title"; "Unknown Album" when that is no string.
pub open spec fn subsonic_album_name(album: JsonValue) -> Seq<char> {
    let v = if has_key(album, "name"@) {
        member(album, "name"@)
    } else {
        member(album, "title"@)
    };
    match str_of(v) {
        Some(n) => n,
        None => "Unknown Album"@,
    }
}

/// `a` is the album the Subsonic item `album` describes, its cover URL
/// made with `salt`.
pub open spec fn subsonic_album(a: Album, c: NavidromeClient, album: JsonValue, salt: Seq<char>) -> bool {
    let cover = str_of(member(album, "coverArt"@));
    &&& opt_chars(a.id) == str_of(member(album, "id"@))
    &&& a.name@ == subsonic_album_name(album)
    &&& a.artist@ == match str_of(member(album, "artist"@)) {
        Some(n) => n,
        None => "Unknown Artist"@,
    }
    &&& opt_chars(a.artist_id) == str_of(member(album, "artistId"@))
    &&& opt_chars(a.album_art_url) == match cover {
        Some(id) => Some(item_url_text(c, "getCoverArt"@, id, salt)),
        None => None,
    }
    &&& a.song_count == match int_of(member(album, "songCount"@)) {
        Some(n) => n,
        None => 0,
    }
    &&& a.songs is None
    &&& crate::jellyfin_items::opt_tag_views(a.image_tags) == match cover {
        Some(id) => Some(primary_tags(id)),
        None => None,
    }
    &&& a.provider_ids is None
    &&& opt_chars(a.date_created) == str_of(member(album, "created"@))
    &&& opt_chars(a.date_modified) == str_of(member(album, "changed"@))
}

/// Reads an album of a Subsonic response, its cover URL made with `salt`.
pub fn parse_album_with_salt(client: &NavidromeClient, album: &JsonValue, salt: &str) -> (a: Album)
    ensures
        subsonic_album(a, *client, *album, salt@),
{
    let cover = string_member(album, "coverArt");
    let image_tags = match &cover {
        Some(x) => Some(primary_tag(x)),
        None => None,
    };
    let album_art_url = match &cover {
        Some(x) => Some(client.item_url_with_salt("getCoverArt", x.as_str(), salt)),
        None => None,
    };
    let name_value = match get(album, "name") {
        Some(v) => Some(v),
        None => get(album, "title"),
    };
    let name = match name_value {
        Some(v) => match crate::json::as_str(v) {
            Some(n) => n.to_string(),
            None => String::from_str("Unknown Album"),
        },
        None => String::from_str("Unknown Album"),
    };
    let artist = match str_member(album, "artist") {
        Some(n) => n.to_string(),
        None => String::from_str("Unknown Artist"),
    };
    let song_count = match int_member(album, "songCount") {
        Some(n) => n,
        None => 0,
    };
    Album {
        id: string_member(album, "id"),
        name,
        artist,
        artist_id: string_member(album, "artistId"),
        album_art_url,
        song_count,
        songs: None,
        image_tags,
        provider_ids: None,
        date_created: string_member(album, "created"),
        date_modified: string_member(album, "changed"),
    }
}

/// Reads an album of a Subsonic response, its cover URL made with a fresh
/// salt.
pub fn parse_album(client: &NavidromeClient, album: &JsonValue) -> (a: Album)
    ensures
        exists|salt: Seq<char>| valid_salt(salt) && subsonic_album(a, *client, *album, salt),
{
    let salt = new_salt();
    let a = parse_album_with_salt(client, album, salt.as_str());
    assert(valid_salt(salt@));
    a
}

/// Seconds from ticks of 100 ns, rounded toward zero.
pub open spec fn tick_seconds(ticks: i64) -> int {
    if ticks >= 0 {
        ticks as int / 10_000_000
    } else {
        -((-(ticks as int)) / 10_000_000)
    }
}

/// The parameters of a scrobble of an item: its id, whether it is a
/// submission (a finished play) or a now-playing notice, and the position
/// in seconds when known.
pub open spec fn scrobble_params_text(item_id: Seq<char>, position_ticks: Option<i64>, submission: bool) -> Seq<(Seq<char>, Seq<char>)> {
    let base = seq![("id"@, item_id), ("submission"@, if submission { "true"@ } else { "false"@ })];
    match position_ticks {
        Some(t) => base.push(("time"@, crate::lastfm::signed_decimal(tick_seconds(t)))),
        None => base,
    }
}

/// The parameters of a scrobble (see `scrobble_params_text`).
pub fn scrobble_params(item_id: &str, position_ticks: Option<i64>, submission: bool) -> (q: Vec<(String, String)>)
    ensures
        param_texts(q@) == scrobble_params_text(item_id@, position_ticks, submission),
{
    let mut q: Vec<(String, String)> = Vec::new();
    q.push(pair("id", owned(item_id)));
    q.push(pair("submission", owned(if submission { "true" } else { "false" })));
    match position_ticks {
        Some(ticks) => {
            let secs = ticks / 10_000_000;
            assert(secs == tick_seconds(ticks));
            let mut t = String::new();
            crate::lastfm::push_signed_decimal(&mut t, secs);
            q.push(pair("time", t));
        },
        None => {},
    }
    assert(param_texts(q@) =~= scrobble_params_text(item_id@, position_ticks, submission));
    q
}

/// The endpoint that stars or unstars an item.
pub fn favorite_endpoint(is_favorite: bool) -> (e: &'static str)
    ensures
        e@ == (if is_favorite { "star"@ } else { "unstar"@ }),
{
    if is_favorite {
        "star"
    } else {
        "unstar"
    }
}

/// `(name, value)` for each value, in order.
pub open spec fn repeated(name: Seq<char>, values: Seq<Seq<char>>) -> Seq<(Seq<char>, Seq<char>)> {
    values.map_values(|v: Seq<char>| (name, v))
}

fn push_repeated(q: &mut Vec<(String, String)>, name: &str, values: &[String])
    ensures
        param_texts(final(q)@) == param_texts(old(q)@) + repeated(name@, crate::text::views(values@)),
{
    let ghost base = param_texts(q@);
    let mut i: usize = 0;
    while i < values.len()
        invariant
            i <= values@.len(),
            param_texts(q@) == base + repeated(name@, crate::text::views(values@.take(i as int))),
        decreases values@.len() - i,
    {
        let ghost prev = param_texts(q@);
        q.push(pair(name, values[i].clone()));
        assert(param_texts(q@) =~= prev.push((name@, values@[i as int]@)));
        assert(repeated(name@, crate::text::views(values@.take(i + 1))) =~= repeated(
            name@,
            crate::text::views(values@.take(i as int)),
        ).push((name@, values@[i as int]@)));
        i = i + 1;
    }
    assert(values@.take(i as int) =~= values@);
}

/// The parameters that create a playlist: its name, then each song id.
pub open spec fn create_playlist_params_text(name: Seq<char>, ids: Option<Seq<Seq<char>>>) -> Seq<(Seq<char>, Seq<char>)> {
    seq![("name"@, name)] + repeated(
        "songId"@,
        match ids {
            Some(v) => v,
            None => Seq::empty(),
        },
    )
}

/// The parameters that create a playlist (see `create_playlist_params_text`).
pub fn create_playlist_params(name: &str, ids: Option<&[String]>) -> (q: Vec<(String, String)>)
    ensures
        param_texts(q@) == create_playlist_params_text(
            name@,
            match ids {
                Some(v) => Some(crate::text::views(v@)),
                None => None,
            },
        ),
{
    let mut q: Vec<(String, String)> = Vec::new();
    q.push(pair("name", owned(name)));
    assert(param_texts(q@) =~= seq![("name"@, name@)]);
    match ids {
        Some(v) => push_repeated(&mut q, "songId", v),
        None => {
            let empty: Vec<String> = Vec::new();
            push_repeated(&mut q, "songId", empty.as_slice());
            assert(crate::text::views(empty@) =~= Seq::<Seq<char>>::empty());
        },
    }
    q
}

/// The parameters that add songs to a playlist.
pub open spec fn add_playlist_items_params_text(playlist_id: Seq<char>, ids: Seq<Seq<char>>) -> Seq<(Seq<char>, Seq<char>)> {
    seq![("playlistId"@, playlist_id)] + repeated("songIdToAdd"@, ids)
}

/// The parameters that add songs to a playlist.
pub fn add_playlist_items_params(playlist_id: &str, item_ids: &[String]) -> (q: Vec<(String, String)>)
    ensures
        param_texts(q@) == add_playlist_items_params_text(playlist_id@, crate::text::views(item_ids@)),
{
    let mut q: Vec<(String, String)> = Vec::new();
    q.push(pair("playlistId", owned(playlist_id)));
    assert(param_texts(q@) =~= seq![("playlistId"@, playlist_id@)]);
    push_repeated(&mut q, "songIdToAdd", item_ids);
    q
}

/// The positions, last first, of the songs whose id is among `ids`.
pub open spec fn positions_to_remove(existing: Seq<Seq<char>>, ids: Seq<Seq<char>>) -> Seq<nat>
    decreases existing.len(),
{
    if existing.len() == 0 {
        Seq::empty()
    } else {
        let rest = positions_to_remove(existing.drop_last(), ids);
        if ids.contains(existing.last()) {
            seq![(existing.len() - 1) as nat] + rest
        } else {
            rest
        }
    }
}

/// The parameters that remove song positions from a playlist.
pub open spec fn index_params(positions: Seq<nat>) -> Seq<(Seq<char>, Seq<char>)> {
    positions.map_values(|p: nat| ("songIndexToRemove"@, decimal(p)))
}

/// The parameters that remove from a playlist the songs whose id is among
/// `item_ids`, given the ids of its songs in order: the playlist, then
/// their positions, last first.
pub open spec fn remove_playlist_items_params_text(
    playlist_id: Seq<char>,
    existing: Seq<Seq<char>>,
    ids: Seq<Seq<char>>,
) -> Seq<(Seq<char>, Seq<char>)> {
    seq![("playlistId"@, playlist_id)] + index_params(positions_to_remove(existing, ids))
}

fn contains_id(ids: &[String], id: &String) -> (b: bool)
    ensures
        b == crate::text::views(ids@).contains(id@),
{
    let mut i: usize = 0;
    while i < ids.len()
        invariant
            i <= ids@.len(),
            forall|j: int| 0 <= j < i ==> ids@[j]@ != id@,
        decreases ids@.len() - i,
    {
        if crate::text::str_eq(ids[i].as_str(), id.as_str()) {
            assert(crate::text::views(ids@)[i as int] == id@);
            return true;
        }
        i = i + 1;
    }
    proof {
        if crate::text::views(ids@).contains(id@) {
            let k = choose|k: int| 0 <= k < crate::text::views(ids@).len() && crate::text::views(ids@)[k] == id@;
            assert(ids@[k]@ == id@);
        }
    }
    false
}

/// The parameters that remove songs from a playlist (see
/// `remove_playlist_items_params_text`).
pub fn remove_playlist_items_params(playlist_id: &str, existing: &[String], item_ids: &[String]) -> (q: Vec<(String, String)>)
    ensures
        param_texts(q@) == remove_playlist_items_params_text(
            playlist_id@,
            crate::text::views(existing@),
            crate::text::views(item_ids@),
        ),
{
    let ghost ev = crate::text::views(existing@);
    let ghost iv = crate::text::views(item_ids@);
    let mut q: Vec<(String, String)> = Vec::new();
    q.push(pair("playlistId", owned(playlist_id)));
    let mut k: usize = existing.len();
    assert(ev.take(k as int) =~= ev);
    assert(param_texts(q@) =~= seq![("playlistId"@, playlist_id@)] + index_params(
        positions_to_remove(ev, iv),
    ).take(0));
    while k > 0
        invariant
            k <= existing@.len(),
            ev == crate::text::views(existing@),
            iv == crate::text::views(item_ids@),
            positions_to_remove(ev, iv) == positions_to_remove(ev, iv).take(
                positions_to_remove(ev, iv).len() - positions_to_remove(ev.take(k as int), iv).len(),
            ) + positions_to_remove(ev.take(k as int), iv),
            param_texts(q@) == seq![("playlistId"@, playlist_id@)] + index_params(
                positions_to_remove(ev, iv).take(
                    positions_to_remove(ev, iv).len() - positions_to_remove(ev.take(k as int), iv).len(),
                ),
            ),
        decreases k,
    {
        let i = k - 1;
        let ghost pre = ev.take(k as int);
        let ghost all = positions_to_remove(ev, iv);
        let ghost done = all.len() - positions_to_remove(pre, iv).len();
        assert(pre.drop_last() =~= ev.take(i as int));
        assert(pre.last() == existing@[i as int]@);
        if contains_id(item_ids, &existing[i]) {
            let ghost prev = param_texts(q@);
            let mut t = String::new();
            crate::text::push_decimal(&mut t, i as u64);
            q.push(pair("songIndexToRemove", t));
            assert(positions_to_remove(pre, iv) == seq![i as nat] + positions_to_remove(
                ev.take(i as int),
                iv,
            ));
            assert(all[done] == i as nat) by {
                assert(all == all.take(done) + positions_to_remove(pre, iv));
            }
            assert(all.take(done + 1) =~= all.take(done).push(i as nat));
            assert(index_params(all.take(done + 1)) =~= index_params(all.take(done)).push(
                ("songIndexToRemove"@, decimal(i as nat)),
            ));
            assert(param_texts(q@) =~= prev.push(("songIndexToRemove"@, decimal(i as nat))));
            assert(all =~= all.take(done + 1) + positions_to_remove(ev.take(i as int), iv));
        } else {
            assert(positions_to_remove(pre, iv) == positions_to_remove(ev.take(i as int), iv));
        }
        k = i;
    }
    assert(ev.take(0) =~= Seq::<Seq<char>>::empty());
    assert(positions_to_remove(ev, iv).take(positions_to_remove(ev, iv).len() as int) =~= positions_to_remove(ev, iv));
    q
}

/// The parameters that update a playlist: the playlist, its new name when
/// given, and when a new song list is given, every present position (last
/// first) to remove and each new song id to add.
pub open spec fn update_playlist_params_text(
    playlist_id: Seq<char>,
    name: Option<Seq<char>>,
    ids: Option<Seq<Seq<char>>>,
    existing_count: nat,
) -> Seq<(Seq<char>, Seq<char>)> {
    let head = seq![("playlistId"@, playlist_id)];
    let named = match name {
        Some(n) => head.push(("name"@, n)),
        None => head,
    };
    match ids {
        Some(v) => named + index_params(Seq::new(existing_count, |j: int| (existing_count - 1 - j) as nat))
            + repeated("songIdToAdd"@, v),
        None => named,
    }
}

/// The parameters that update a playlist (see `update_playlist_params_text`),
/// given how many songs it has.
pub fn update_playlist_params(
    playlist_id: &str,
    name: Option<&str>,
    ids: Option<&[String]>,
    existing_count: usize,
) -> (q: Vec<(String, String)>)
    ensures
        param_texts(q@) == update_playlist_params_text(
            playlist_id@,
            match name {
                Some(n) => Some(n@),
                None => None,
            },
            match ids {
                Some(v) => Some(crate::text::views(v@)),
                None => None,
            },
            existing_count as nat,
        ),
{
    let mut q: Vec<(String, String)> = Vec::new();
    q.push(pair("playlistId", owned(playlist_id)));
    match name {
        Some(n) => q.push(pair("name", owned(n))),
        None => {},
    }
    let ghost named = param_texts(q@);
    match ids {
        Some(v) => {
            let ghost n = existing_count as nat;
            let ghost all = Seq::new(n, |j: int| (n - 1 - j) as nat);
            let mut k: usize = existing_count;
            while k > 0
                invariant
                    k <= existing_count,
                    n == existing_count as nat,
                    all == Seq::new(n, |j: int| (n - 1 - j) as nat),
                    param_texts(q@) == named + index_params(all.take(n - k)),
                decreases k,
            {
                let i = k - 1;
                let ghost prev = param_texts(q@);
                let mut t = String::new();
                crate::text::push_decimal(&mut t, i as u64);
                q.push(pair("songIndexToRemove", t));
                assert(all[n - k] == i as nat);
                assert(all.take(n - k + 1) =~= all.take(n - k).push(i as nat));
                assert(index_params(all.take(n - k + 1)) =~= index_params(all.take(n - k)).push(
                    ("songIndexToRemove"@, decimal(i as nat)),
                ));
                assert(param_texts(q@) =~= prev.push(("songIndexToRemove"@, decimal(i as nat))));
                k = i;
            }
            assert(all.take(n as int) =~= all);
            push_repeated(&mut q, "songIdToAdd", v);
        },
        None => {},
    }
    q
}

/// The ids of starred songs, in order; songs without one are skipped.
pub open spec fn song_ids_of(songs: Seq<JsonValue>) -> Seq<Seq<char>>
    decreases songs.len(),
{
    if songs.len() == 0 {
        Seq::empty()
    } else {
        match str_of(member(songs.last(), "id"@)) {
            Some(id) => song_ids_of(songs.drop_last()).push(id),
            None => song_ids_of(songs.drop_last()),
        }
    }
}

/// The ids of the songs, in order.
pub fn starred_song_ids(songs: &Vec<&JsonValue>) -> (r: Vec<String>)
    ensures
        crate::text::views(r@) == song_ids_of(songs@.map_values(|s: &JsonValue| *s)),
{
    let ghost sv = songs@.map_values(|s: &JsonValue| *s);
    let mut out: Vec<String> = Vec::new();
    let mut i: usize = 0;
    while i < songs.len()
        invariant
            i <= songs@.len(),
            sv == songs@.map_values(|s: &JsonValue| *s),
            crate::text::views(out@) == song_ids_of(sv.take(i as int)),
        decreases songs@.len() - i,
    {
        let ghost t = sv.take(i + 1);
        assert(t.drop_last() =~= sv.take(i as int));
        assert(t.last() == *songs@[i as int]);
        if let Some(id) = str_member(songs[i], "id") {
            let ghost prev = crate::text::views(out@);
            out.push(id.to_string());
            assert(crate::text::views(out@) =~= prev.push(id@));
        }
        i = i + 1;
    }
    assert(sv.take(i as int) =~= sv);
    out
}

/// The positions a playlist update removes are exactly those of the songs
/// listed for removal, each once and last first, so that removing them in
/// order never shifts a position still to be removed.
pub proof fn lemma_removed_positions(existing: Seq<Seq<char>>, ids: Seq<Seq<char>>)
    ensures
        ({
            let p = positions_to_remove(existing, ids);
            &&& forall|i: int, j: int| 0 <= i < j < p.len() ==> p[i] > p[j]
            &&& forall|i: int| 0 <= i < p.len() ==> p[i] < existing.len() && ids.contains(existing[p[i] as int])
            &&& forall|k: int| 0 <= k < existing.len() && ids.contains(existing[k]) ==> p.contains(k as nat)
        }),
    decreases existing.len(),
{
    if existing.len() > 0 {
        let rest = existing.drop_last();
        lemma_removed_positions(rest, ids);
        let pr = positions_to_remove(rest, ids);
        let p = positions_to_remove(existing, ids);
        let last = (existing.len() - 1) as nat;
        if ids.contains(existing.last()) {
            assert(p == seq![last] + pr);
            assert forall|i: int, j: int| 0 <= i < j < p.len() implies p[i] > p[j] by {
                if i == 0 {
                    assert(p[j] == pr[j - 1]);
                } else {
                    assert(p[i] == pr[i - 1] && p[j] == pr[j - 1]);
                }
            }
            assert forall|i: int| 0 <= i < p.len() implies p[i] < existing.len() && ids.contains(existing[p[i] as int]) by {
                if i > 0 {
                    assert(p[i] == pr[i - 1]);
                    assert(existing[p[i] as int] == rest[p[i] as int]);
                }
            }
            assert forall|k: int| 0 <= k < existing.len() && ids.contains(existing[k]) implies p.contains(k as nat) by {
                if k == existing.len() - 1 {
                    assert(p[0] == k as nat);
                } else {
                    assert(rest[k] == existing[k]);
                    let m = choose|m: int| 0 <= m < pr.len() && pr[m] == k as nat;
                    assert(p[m + 1] == k as nat);
                }
            }
        } else {
            assert(p == pr);
            assert forall|i: int| 0 <= i < p.len() implies p[i] < existing.len() && ids.contains(existing[p[i] as int]) by {
                assert(existing[p[i] as int] == rest[p[i] as int]);
            }
            assert forall|k: int| 0 <= k < existing.len() && ids.contains(existing[k]) implies p.contains(k as nat) by {
                if k == existing.len() - 1 {
                    assert(existing[k] == existing.last());
                } else {
                    assert(rest[k] == existing[k]);
                }
            }
        }
    }
}


// ---------------------------------------------------------------------------
// Playlists.
// ---------------------------------------------------------------------------

/// A playlist's duration in seconds, as ticks (ten million per second),
/// fits an `i64`.
pub open spec fn playlist_duration_fits(pl: JsonValue) -> bool {
    match int_of(member(pl, "duration"@)) {
        Some(d) => i64::MIN <= d * 10_000_000 <= i64::MAX,
        None => true,
    }
}

/// `p` is the playlist the Subsonic item `pl` describes: its name (or
/// "Playlist"), the server, its id (or the empty text), a deletable virtual
/// folder of audio, its duration as ticks, its song count (cut to 32 bits),
/// its cover as the primary image, and its creation and change dates.
pub open spec fn subsonic_playlist(p: Playlist, c: NavidromeClient, pl: JsonValue) -> bool {
    &&& p.name@ == or_text(str_of(member(pl, "name"@)), "Playlist"@)
    &&& p.server_id@ == c.server_url@
    &&& p.id@ == or_text(str_of(member(pl, "id"@)), Seq::empty())
    &&& p.can_delete == Some(true)
    &&& p.sort_name is None
    &&& p.is_folder
    &&& p.item_type@ == "Playlist"@
    &&& p.user_data is None
    &&& p.run_time_ticks == match int_of(member(pl, "duration"@)) {
        Some(d) => Some((d * 10_000_000) as i64),
        None => None::<i64>,
    }
    &&& p.child_count == as_i32(int_of(member(pl, "songCount"@)))
    &&& match str_of(member(pl, "coverArt"@)) {
        Some(id) => p.image_tags matches Some(t) && crate::jellyfin_items::tag_views(t@) == primary_tags(id),
        None => p.image_tags is None,
    }
    &&& p.backdrop_image_tags is None
    &&& p.image_blur_hashes is None
    &&& p.location_type@ == "Virtual"@
    &&& p.media_type matches Some(m) && m@ == "Audio"@
    &&& opt_chars(p.date_created) == str_of(member(pl, "created"@))
    &&& opt_chars(p.date_last_saved) == str_of(member(pl, "changed"@))
    &&& p.is_favorite is None
    &&& p.description is None
    &&& p.songs is None
}

fn text_or_default(o: Option<&str>, d: &str) -> (r: String)
    ensures
        r@ == or_text(
            match o {
                Some(t) => Some(t@),
                None => None,
            },
            d@,
        ),
{
    match o {
        Some(t) => owned(t),
        None => owned(d),
    }
}

/// Reads a playlist of a Subsonic response.
pub fn parse_playlist(client: &NavidromeClient, playlist: &JsonValue) -> (p: Playlist)
    requires
        playlist_duration_fits(*playlist),
    ensures
        subsonic_playlist(p, *client, *playlist),
{
    let image_tags = match string_member(playlist, "coverArt") {
        Some(id) => Some(primary_tag(&id)),
        None => None,
    };
    let run_time_ticks = match int_member(playlist, "duration") {
        Some(d) => Some(d * 10_000_000),
        None => None,
    };
    let child_count = match int_member(playlist, "songCount") {
        Some(n) => Some(n as i32),
        None => None,
    };
    let p = Playlist {
        name: text_or_default(str_member(playlist, "name"), "Playlist"),
        server_id: client.server_url.clone(),
        id: text_or_default(str_member(playlist, "id"), ""),
        can_delete: Some(true),
        sort_name: None,
        is_folder: true,
        item_type: owned("Playlist"),
        user_data: None,
        run_time_ticks,
        child_count,
        image_tags,
        backdrop_image_tags: None,
        image_blur_hashes: None,
        location_type: owned("Virtual"),
        media_type: Some(owned("Audio")),
        date_created: string_member(playlist, "created"),
        date_last_saved: string_member(playlist, "changed"),
        is_favorite: None,
        description: None,
        songs: None,
    };
    proof {
        reveal_strlit("");
    }
    assert(p.id@ == or_text(str_of(member(*playlist, "id"@)), Seq::empty()));
    assert(p.run_time_ticks == match int_of(member(*playlist, "duration"@)) {
        Some(d) => Some((d * 10_000_000) as i64),
        None => None::<i64>,
    });
    assert(match str_of(member(*playlist, "coverArt"@)) {
        Some(id) => p.image_tags matches Some(t) && crate::jellyfin_items::tag_views(t@) == primary_tags(id),
        None => p.image_tags is None,
    });
    assert(p.name@ == or_text(str_of(member(*playlist, "name"@)), "Playlist"@));
    p
}

/// `s` stands for the song `id` of a playlist whose songs were not read: the
/// id, the name "Unknown", the type "Audio", and nothing else.
pub open spec fn placeholder_song(s: Song, id: Seq<char>) -> bool {
    &&& s.id@ == id
    &&& s.name@ == "Unknown"@
    &&& s.item_type@ == "Audio"@
    &&& s.album is None && s.album_id is None && s.artists is None && s.artist_ids is None
    &&& s.path is None && s.duration_bits is None && s.album_art_url is None && s.year is None
    &&& s.play_count is None && s.is_favorite is None && s.disc_number is None
    &&& s.track_number is None && s.container is None && s.bit_rate is None
    &&& s.sample_rate is None && s.codec is None && s.genres is None && s.premiere_date is None
    &&& s.date_played is None && s.date_created is None && s.date_modified is None
    &&& s.album_artists is None && s.lyrics is None && s.image_tags is None
}

fn placeholder(id: &String) -> (s: Song)
    ensures
        placeholder_song(s, id@),
{
    Song {
        id: id.clone(),
        name: owned("Unknown"),
        item_type: owned("Audio"),
        album: None,
        album_id: None,
        artists: None,
        artist_ids: None,
        path: None,
        duration_bits: None,
        album_art_url: None,
        year: None,
        play_count: None,
        is_favorite: None,
        disc_number: None,
        track_number: None,
        container: None,
        bit_rate: None,
        sample_rate: None,
        codec: None,
        genres: None,
        premiere_date: None,
        date_played: None,
        date_created: None,
        date_modified: None,
        album_artists: None,
        lyrics: None,
        image_tags: None,
    }
}

/// `p` is the playlist built when the server lists no playlist of the
/// updated id: the new name (or "Playlist"), the server, the id, a
/// deletable virtual folder of audio with as many songs as were given (none
/// counted when no list was given), and nothing else.
pub open spec fn updated_fallback(
    p: Playlist,
    c: NavidromeClient,
    playlist_id: Seq<char>,
    updates: PlaylistUpdateData,
) -> bool {
    &&& p.name@ == or_text(opt_chars(updates.name), "Playlist"@)
    &&& p.server_id@ == c.server_url@
    &&& p.id@ == playlist_id
    &&& p.can_delete == Some(true)
    &&& p.sort_name is None
    &&& p.is_folder
    &&& p.item_type@ == "Playlist"@
    &&& p.user_data is None
    &&& p.run_time_ticks is None
    &&& p.child_count == match updates.ids {
        Some(v) => Some(v@.len() as i32),
        None => None::<i32>,
    }
    &&& p.image_tags is None
    &&& p.backdrop_image_tags is None
    &&& p.image_blur_hashes is None
    &&& p.location_type@ == "Virtual"@
    &&& p.media_type matches Some(m) && m@ == "Audio"@
    &&& p.date_created is None
    &&& p.date_last_saved is None
    &&& p.is_favorite is None
    &&& p.description is None
}

/// The playlist an update answers with: the listed playlist `found` of the
/// updated id when there is one, else one built from the update; when the
/// update gives song ids, its songs are those ids as placeholder songs.
pub fn updated_playlist(
    client: &NavidromeClient,
    playlist_id: &str,
    updates: &PlaylistUpdateData,
    found: Option<Playlist>,
) -> (p: Playlist)
    ensures
        match found {
            Some(f) => p == (Playlist { songs: p.songs, ..f }),
            None => updated_fallback(p, *client, playlist_id@, *updates),
        },
        match updates.ids {
            Some(ids) => p.songs matches Some(v) && v@.len() == ids@.len() && forall|i: int|
                0 <= i < ids@.len() ==> placeholder_song(#[trigger] v@[i], ids@[i]@),
            None => p.songs == match found {
                Some(f) => f.songs,
                None => None::<Vec<Song>>,
            },
        },
{
    let mut p = match found {
        Some(f) => f,
        None => {
            let name = match &updates.name {
                Some(n) => n.clone(),
                None => owned("Playlist"),
            };
            let child_count = match &updates.ids {
                Some(v) => Some(v.len() as i32),
                None => None,
            };
            Playlist {
                name,
                server_id: client.server_url.clone(),
                id: owned(playlist_id),
                can_delete: Some(true),
                sort_name: None,
                is_folder: true,
                item_type: owned("Playlist"),
                user_data: None,
                run_time_ticks: None,
                child_count,
                image_tags: None,
                backdrop_image_tags: None,
                image_blur_hashes: None,
                location_type: owned("Virtual"),
                media_type: Some(owned("Audio")),
                date_created: None,
                date_last_saved: None,
                is_favorite: None,
                description: None,
                songs: None,
            }
        },
    };
    match &updates.ids {
        Some(ids) => {
            let mut songs: Vec<Song> = Vec::new();
            let mut i: usize = 0;
            while i < ids.len()
                invariant
                    i <= ids@.len(),
                    songs@.len() == i,
                    forall|k: int| 0 <= k < i ==> placeholder_song(#[trigger] songs@[k], ids@[k]@),
                decreases ids@.len() - i,
            {
                songs.push(placeholder(&ids[i]));
                i = i + 1;
            }
            p.songs = Some(songs);
        },
        None => {},
    }
    p
}

} // verus!
