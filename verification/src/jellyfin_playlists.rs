//! Jellyfin playlists: reading a playlist item, the bodies of the create
//! and update requests, and the playlist a create or update answers with
//! (the server's own when it sends one, else one built from its reply and
//! the request).
use vstd::prelude::*;
use crate::json::{
    JsonValue, member, str_of, int_of, bool_of, array_of, members_of, as_str, str_member,
    string_member, int_member, bool_member, array_member, object_member, get,
};
use crate::jellyfin_items::{or_text, string_map, tags_of, tag_views, string_entries};
use crate::models::{Song, Tag};
use crate::profile_storage::{trim_whitespace, trimmed};
use crate::text::{copy_strings, opt_chars, owned, views};

verus! {

/// What the server records of a user and an item.
#[derive(Clone, Debug, PartialEq)]
pub struct UserData {
    pub playback_position_ticks: i64,
    pub play_count: i32,
    pub is_favorite: bool,
    pub played: bool,
    pub last_played_date: Option<String>,
}

/// The blur hashes of the images of one type.
#[derive(Clone, Debug, PartialEq)]
pub struct BlurHashGroup {
    pub image_type: String,
    pub hashes: Vec<Tag>,
}

/// A playlist.
#[derive(Clone, Debug, PartialEq)]
pub struct Playlist {
    pub name: String,
    pub server_id: String,
    pub id: String,
    pub can_delete: Option<bool>,
    pub sort_name: Option<String>,
    pub is_folder: bool,
    pub item_type: String,
    pub user_data: Option<UserData>,
    pub run_time_ticks: Option<i64>,
    pub child_count: Option<i32>,
    pub image_tags: Option<Vec<Tag>>,
    pub backdrop_image_tags: Option<Vec<String>>,
    pub image_blur_hashes: Option<Vec<BlurHashGroup>>,
    pub location_type: String,
    pub media_type: Option<String>,
    pub date_created: Option<String>,
    pub date_last_saved: Option<String>,
    pub is_favorite: Option<bool>,
    pub description: Option<String>,
    pub songs: Option<Vec<Song>>,
}

/// What a new playlist is made of.
#[derive(Clone, Debug, PartialEq)]
pub struct PlaylistCreateData {
    pub name: String,
    pub ids: Option<Vec<String>>,
    pub user_id: String,
    pub is_public: Option<bool>,
}

/// What an update of a playlist changes.
#[derive(Clone, Debug, PartialEq)]
pub struct PlaylistUpdateData {
    pub name: Option<String>,
    pub ids: Option<Vec<String>>,
    pub user_id: Option<String>,
    pub is_public: Option<bool>,
    pub songs: Option<Vec<Song>>,
    pub is_favorite: Option<bool>,
}

/// Why the reply to a create or update could not be read.
#[derive(Clone, Copy, Debug, PartialEq, Eq)]
pub enum PlaylistError {
    /// The playlist item has no id.
    MissingPlaylistId,
    /// The reply is not JSON.
    InvalidJson,
    /// The reply to a create names no playlist id.
    MissingIdInResponse,
}

/// The message of an error.
pub open spec fn playlist_error_text(e: PlaylistError) -> Seq<char> {
    match e {
        PlaylistError::MissingPlaylistId => "Missing playlist ID"@,
        PlaylistError::InvalidJson => "Failed to parse playlist response from server"@,
        PlaylistError::MissingIdInResponse => "Missing playlist ID in response"@,
    }
}

impl PlaylistError {
    /// The error's message.
    pub fn message(&self) -> (s: String)
        ensures
            s@ == playlist_error_text(*self),
    {
        match self {
            PlaylistError::MissingPlaylistId => String::from_str("Missing playlist ID"),
            PlaylistError::InvalidJson => String::from_str(
                "Failed to parse playlist response from server",
            ),
            PlaylistError::MissingIdInResponse => String::from_str("Missing playlist ID in response"),
        }
    }
}

// ---------------------------------------------------------------------------
// Reading a playlist item.
// ---------------------------------------------------------------------------

/// The texts of the string elements of an array, in order.
pub open spec fn str_values(items: Seq<JsonValue>) -> Seq<Seq<char>>
    decreases items.len(),
{
    if items.len() == 0 {
        Seq::empty()
    } else {
        let rest = str_values(items.drop_last());
        match str_of(items.last()) {
            Some(t) => rest.push(t),
            None => rest,
        }
    }
}

/// The members of an object whose values are objects, each with the string
/// members of its value.
pub open spec fn blur_entries(members: Seq<(String, JsonValue)>) -> Seq<(Seq<char>, Seq<(Seq<char>, Seq<char>)>)>
    decreases members.len(),
{
    if members.len() == 0 {
        Seq::empty()
    } else {
        let m = members.last();
        let rest = blur_entries(members.drop_last());
        match members_of(m.1) {
            Some(inner) => rest.push((m.0@, string_entries(inner))),
            None => rest,
        }
    }
}

/// The (image type, hashes) of each blur hash group.
pub open spec fn blur_views(v: Seq<BlurHashGroup>) -> Seq<(Seq<char>, Seq<(Seq<char>, Seq<char>)>)> {
    v.map_values(|g: BlurHashGroup| (g.image_type@, tag_views(g.hashes@)))
}

/// An integer, or zero.
pub open spec fn or_zero(o: Option<i64>) -> i64 {
    match o {
        Some(n) => n,
        None => 0,
    }
}

/// A flag, or a default.
pub open spec fn or_flag(o: Option<bool>, d: bool) -> bool {
    match o {
        Some(b) => b,
        None => d,
    }
}

/// `u` is what the user-data object `ud` records: the position and the
/// play count (zero when absent, the count cut to 32 bits), the favorite
/// and played flags (false when absent), and the last played date.
pub open spec fn user_data_from(u: UserData, ud: JsonValue) -> bool {
    &&& u.playback_position_ticks == or_zero(int_of(member(ud, "PlaybackPositionTicks"@)))
    &&& u.play_count == or_zero(int_of(member(ud, "PlayCount"@))) as i32
    &&& u.is_favorite == or_flag(bool_of(member(ud, "IsFavorite"@)), false)
    &&& u.played == or_flag(bool_of(member(ud, "Played"@)), false)
    &&& opt_chars(u.last_played_date) == str_of(member(ud, "LastPlayedDate"@))
}

/// `p` holds the image members of `item`: when `ImageTags` is an object,
/// its string members, the string elements of `BackdropImageTags` (when an
/// array) and the object members of `ImageBlurHashes` (when an object);
/// none of the three otherwise.
pub open spec fn images_from(p: Playlist, item: JsonValue) -> bool {
    match tags_of(item, "ImageTags"@) {
        Some(t) => {
            &&& p.image_tags matches Some(v) && tag_views(v@) == t
            &&& match array_of(member(item, "BackdropImageTags"@)) {
                Some(a) => p.backdrop_image_tags matches Some(v) && views(v@) == str_values(a),
                None => p.backdrop_image_tags is None,
            }
            &&& match members_of(member(item, "ImageBlurHashes"@)) {
                Some(m) => p.image_blur_hashes matches Some(v) && blur_views(v@) == blur_entries(m),
                None => p.image_blur_hashes is None,
            }
        },
        None => {
            &&& p.image_tags is None
            &&& p.backdrop_image_tags is None
            &&& p.image_blur_hashes is None
        },
    }
}

/// `p` is the playlist the item `item` describes (which has a string `Id`).
pub open spec fn playlist_from(p: Playlist, item: JsonValue) -> bool {
    let ud = member(item, "UserData"@);
    &&& str_of(member(item, "Id"@)) == Some(p.id@)
    &&& p.name@ == or_text(str_of(member(item, "Name"@)), "Untitled Playlist"@)
    &&& p.server_id@ == or_text(str_of(member(item, "ServerId"@)), Seq::empty())
    &&& p.can_delete == bool_of(member(item, "CanDelete"@))
    &&& opt_chars(p.sort_name) == str_of(member(item, "SortName"@))
    &&& p.is_folder == or_flag(bool_of(member(item, "IsFolder"@)), true)
    &&& p.item_type@ == or_text(str_of(member(item, "Type"@)), "Playlist"@)
    &&& match members_of(ud) {
        Some(_) => {
            &&& p.user_data matches Some(u) && user_data_from(u, ud)
            &&& p.is_favorite == Some(or_flag(bool_of(member(ud, "IsFavorite"@)), false))
        },
        None => p.user_data is None && p.is_favorite == Some(false),
    }
    &&& p.run_time_ticks == int_of(member(item, "RunTimeTicks"@))
    &&& p.child_count == match int_of(member(item, "ChildCount"@)) {
        Some(n) => Some(n as i32),
        None => None::<i32>,
    }
    &&& opt_chars(p.date_created) == str_of(member(item, "DateCreated"@))
    &&& opt_chars(p.date_last_saved) == str_of(member(item, "DateLastSaved"@))
    &&& images_from(p, item)
    &&& p.location_type@ == or_text(str_of(member(item, "LocationType"@)), "Virtual"@)
    &&& opt_chars(p.media_type) == str_of(member(item, "MediaType"@))
    &&& p.description is None
    &&& p.songs is None
}

fn text_or(o: Option<&str>, d: &str) -> (r: String)
    ensures
        r@ == or_text(
            match o {
                Some(t) => Some(t@),
                None => None,
            },
            d@,
        ),
{
    match o {
        Some(t) => owned(t),
        None => owned(d),
    }
}

fn string_values(items: &Vec<JsonValue>) -> (r: Vec<String>)
    ensures
        views(r@) == str_values(items@),
{
    let mut out: Vec<String> = Vec::new();
    let mut i: usize = 0;
    while i < items.len()
        invariant
            i <= items@.len(),
            views(out@) == str_values(items@.take(i as int)),
        decreases items@.len() - i,
    {
        let ghost t = items@.take(i + 1);
        assert(t.drop_last() =~= items@.take(i as int));
        assert(t.last() == items@[i as int]);
        if let Some(s) = as_str(&items[i]) {
            let ghost prev = views(out@);
            out.push(owned(s));
            assert(views(out@) =~= prev.push(s@));
        }
        i = i + 1;
    }
    assert(items@.take(i as int) =~= items@);
    out
}

fn tags_of_members(members: &Vec<(String, JsonValue)>) -> (r: Vec<Tag>)
    ensures
        tag_views(r@) == string_entries(members@),
{
    let mut out: Vec<Tag> = Vec::new();
    let mut i: usize = 0;
    while i < members.len()
        invariant
            i <= members@.len(),
            tag_views(out@) == string_entries(members@.take(i as int)),
        decreases members@.len() - i,
    {
        let m = &members[i];
        let ghost t = members@.take(i + 1);
        assert(t.drop_last() =~= members@.take(i as int));
        assert(t.last() == *m);
        if let Some(text) = as_str(&m.1) {
            let ghost prev = tag_views(out@);
            out.push(Tag { key: m.0.clone(), value: owned(text) });
            assert(tag_views(out@) =~= prev.push((m.0@, text@)));
        }
        i = i + 1;
    }
    assert(members@.take(i as int) =~= members@);
    out
}

fn blur_groups(members: &Vec<(String, JsonValue)>) -> (r: Vec<BlurHashGroup>)
    ensures
        blur_views(r@) == blur_entries(members@),
{
    let mut out: Vec<BlurHashGroup> = Vec::new();
    let mut i: usize = 0;
    while i < members.len()
        invariant
            i <= members@.len(),
            blur_views(out@) == blur_entries(members@.take(i as int)),
        decreases members@.len() - i,
    {
        let m = &members[i];
        let ghost t = members@.take(i + 1);
        assert(t.drop_last() =~= members@.take(i as int));
        assert(t.last() == *m);
        match &m.1 {
            JsonValue::Object(inner) => {
                let ghost prev = blur_views(out@);
                let hashes = tags_of_members(inner);
                out.push(BlurHashGroup { image_type: m.0.clone(), hashes });
                assert(blur_views(out@) =~= prev.push((m.0@, string_entries(inner@))));
            },
            _ => {},
        }
        i = i + 1;
    }
    assert(members@.take(i as int) =~= members@);
    out
}

fn user_data_of(ud: &JsonValue) -> (u: UserData)
    ensures
        user_data_from(u, *ud),
{
    let position = match int_member(ud, "PlaybackPositionTicks") {
        Some(n) => n,
        None => 0,
    };
    let count = match int_member(ud, "PlayCount") {
        Some(n) => n,
        None => 0,
    };
    UserData {
        playback_position_ticks: position,
        play_count: count as i32,
        is_favorite: match bool_member(ud, "IsFavorite") {
            Some(b) => b,
            None => false,
        },
        played: match bool_member(ud, "Played") {
            Some(b) => b,
            None => false,
        },
        last_played_date: string_member(ud, "LastPlayedDate"),
    }
}

/// Reads a playlist item; an item without a string id is refused.
pub fn parse_single_playlist_item(item: &JsonValue) -> (r: Result<Playlist, PlaylistError>)
    ensures
        r is Err <==> str_of(member(*item, "Id"@)) is None,
        r is Err ==> r == Err::<Playlist, PlaylistError>(PlaylistError::MissingPlaylistId),
        r matches Ok(p) ==> playlist_from(p, *item),
{
    let id = match string_member(item, "Id") {
        Some(id) => id,
        None => return Err(PlaylistError::MissingPlaylistId),
    };
    let (user_data, is_favorite) = match get(item, "UserData") {
        Some(ud) => match ud {
            JsonValue::Object(_) => {
                let u = user_data_of(ud);
                let fav = u.is_favorite;
                (Some(u), fav)
            },
            _ => (None, false),
        },
        None => (None, false),
    };
    let (image_tags, backdrop_image_tags, image_blur_hashes) = match string_map(item, "ImageTags") {
        Some(tags) => {
            let backdrop = match array_member(item, "BackdropImageTags") {
                Some(a) => Some(string_values(a)),
                None => None,
            };
            let blur = match object_member(item, "ImageBlurHashes") {
                Some(m) => Some(blur_groups(m)),
                None => None,
            };
            (Some(tags), backdrop, blur)
        },
        None => (None, None, None),
    };
    let child_count = match int_member(item, "ChildCount") {
        Some(n) => Some(n as i32),
        None => None,
    };
    let p = Playlist {
        name: text_or(str_member(item, "Name"), "Untitled Playlist"),
        server_id: text_or(str_member(item, "ServerId"), ""),
        id,
        can_delete: bool_member(item, "CanDelete"),
        sort_name: string_member(item, "SortName"),
        is_folder: match bool_member(item, "IsFolder") {
            Some(b) => b,
            None => true,
        },
        item_type: text_or(str_member(item, "Type"), "Playlist"),
        user_data,
        run_time_ticks: int_member(item, "RunTimeTicks"),
        child_count,
        image_tags,
        backdrop_image_tags,
        image_blur_hashes,
        location_type: text_or(str_member(item, "LocationType"), "Virtual"),
        media_type: string_member(item, "MediaType"),
        date_created: string_member(item, "DateCreated"),
        date_last_saved: string_member(item, "DateLastSaved"),
        is_favorite: Some(is_favorite),
        description: None,
        songs: None,
    };
    let ghost ud = member(*item, "UserData"@);
    proof {
        reveal_strlit("");
    }
    assert(p.server_id@ == or_text(str_of(member(*item, "ServerId"@)), Seq::empty()));
    assert(p.name@ == or_text(str_of(member(*item, "Name"@)), "Untitled Playlist"@));
    assert(str_of(member(*item, "Id"@)) == Some(p.id@));
    assert(match members_of(ud) {
        Some(_) => {
            &&& p.user_data matches Some(u) && user_data_from(u, ud)
            &&& p.is_favorite == Some(or_flag(bool_of(member(ud, "IsFavorite"@)), false))
        },
        None => p.user_data is None && p.is_favorite == Some(false),
    });
    assert(images_from(p, *item));
    assert(p.child_count == match int_of(member(*item, "ChildCount"@)) {
        Some(n) => Some(n as i32),
        None => None::<i32>,
    });
    Ok(p)
}


// ---------------------------------------------------------------------------
// Creating and updating playlists.
// ---------------------------------------------------------------------------

/// What `serde_json` reads of the text `text`: `None` when it is not JSON,
/// else whether the member `key` of the value is a string, and which.
pub uninterp spec fn json_text_str_member(text: Seq<char>, key: Seq<char>) -> Option<Option<Seq<char>>>;

/// Parses `text` as JSON (`serde_json::from_str` into a `Value`) and picks
/// the string member `key` (`Value::get`, then `Value::as_str`); `None`
/// when the text is not JSON.
#[verifier::external_body]
fn json_str_member(text: &str, key: &str) -> (r: Option<Option<String>>)
    ensures
        match r {
            Some(Some(s)) => json_text_str_member(text@, key@) == Some(Some(s@)),
            Some(None) => json_text_str_member(text@, key@) == Some(None::<Seq<char>>),
            None => json_text_str_member(text@, key@) is None,
        },
{
    match serde_json::from_str::<serde_json::Value>(text) {
        Ok(v) => Some(v.get(key).and_then(|m| m.as_str()).map(|t| t.to_string())),
        Err(_) => None,
    }
}

/// `v` is a JSON string holding `t`.
pub open spec fn json_text(v: JsonValue, t: Seq<char>) -> bool {
    v matches JsonValue::Str(s) && s@ == t
}

/// `v` is null for no text, else a JSON string holding it.
pub open spec fn json_opt_text(v: JsonValue, o: Option<Seq<char>>) -> bool {
    match o {
        Some(t) => json_text(v, t),
        None => v == JsonValue::Null,
    }
}

/// `v` is null for no list, else an array of strings holding the texts.
pub open spec fn json_opt_texts(v: JsonValue, o: Option<Seq<Seq<char>>>) -> bool {
    match o {
        Some(ts) => v matches JsonValue::Array(items) && items@.len() == ts.len() && forall|i: int|
            0 <= i < ts.len() ==> json_text(#[trigger] items@[i], ts[i]),
        None => v == JsonValue::Null,
    }
}

/// `v` is null for no flag, else the flag.
pub open spec fn json_opt_flag(v: JsonValue, o: Option<bool>) -> bool {
    match o {
        Some(b) => v == JsonValue::Bool(b),
        None => v == JsonValue::Null,
    }
}

/// The texts of an optional list of strings.
pub open spec fn opt_texts(o: Option<Vec<String>>) -> Option<Seq<Seq<char>>> {
    match o {
        Some(v) => Some(views(v@)),
        None => None,
    }
}

/// `b` is the JSON object with exactly the members Name, Ids, UserId and
/// IsPublic, in that order, satisfying the four predicates.
pub open spec fn four_members(
    b: JsonValue,
    name: spec_fn(JsonValue) -> bool,
    ids: Option<Seq<Seq<char>>>,
    user: spec_fn(JsonValue) -> bool,
    public: spec_fn(JsonValue) -> bool,
) -> bool {
    &&& b matches JsonValue::Object(m)
    &&& m@.len() == 4
    &&& m@[0].0@ == "Name"@ && name(m@[0].1)
    &&& m@[1].0@ == "Ids"@ && json_opt_texts(m@[1].1, ids)
    &&& m@[2].0@ == "UserId"@ && user(m@[2].1)
    &&& m@[3].0@ == "IsPublic"@ && public(m@[3].1)
}

fn text_value(t: &str) -> (v: JsonValue)
    ensures
        json_text(v, t@),
{
    JsonValue::Str(owned(t))
}

fn opt_text_value(o: &Option<String>) -> (v: JsonValue)
    ensures
        json_opt_text(v, opt_chars(*o)),
{
    match o {
        Some(t) => text_value(t.as_str()),
        None => JsonValue::Null,
    }
}

fn opt_texts_value(o: &Option<Vec<String>>) -> (v: JsonValue)
    ensures
        json_opt_texts(v, opt_texts(*o)),
{
    match o {
        Some(ids) => {
            let mut items: Vec<JsonValue> = Vec::new();
            let mut i: usize = 0;
            while i < ids.len()
                invariant
                    i <= ids@.len(),
                    items@.len() == i,
                    forall|j: int| 0 <= j < i ==> json_text(#[trigger] items@[j], ids@[j]@),
                decreases ids@.len() - i,
            {
                items.push(text_value(ids[i].as_str()));
                i = i + 1;
            }
            JsonValue::Array(items)
        },
        None => JsonValue::Null,
    }
}

fn opt_flag_value(o: Option<bool>) -> (v: JsonValue)
    ensures
        json_opt_flag(v, o),
{
    match o {
        Some(b) => JsonValue::Bool(b),
        None => JsonValue::Null,
    }
}

/// The body of a create request: the name, the song ids (null when none
/// are given), the user and whether it is public (false unless given).
pub fn create_playlist_body(data: &PlaylistCreateData) -> (b: JsonValue)
    ensures
        four_members(
            b,
            |v: JsonValue| json_text(v, data.name@),
            opt_texts(data.ids),
            |v: JsonValue| json_text(v, data.user_id@),
            |v: JsonValue| v == JsonValue::Bool(or_flag(data.is_public, false)),
        ),
{
    let mut m: Vec<(String, JsonValue)> = Vec::new();
    m.push((owned("Name"), text_value(data.name.as_str())));
    m.push((owned("Ids"), opt_texts_value(&data.ids)));
    m.push((owned("UserId"), text_value(data.user_id.as_str())));
    let public = match data.is_public {
        Some(b) => b,
        None => false,
    };
    m.push((owned("IsPublic"), JsonValue::Bool(public)));
    JsonValue::Object(m)
}

/// The body of an update request: the name, the song ids, the user and
/// whether it is public, each null when not given.
pub fn update_playlist_body(updates: &PlaylistUpdateData) -> (b: JsonValue)
    ensures
        four_members(
            b,
            |v: JsonValue| json_opt_text(v, opt_chars(updates.name)),
            opt_texts(updates.ids),
            |v: JsonValue| json_opt_text(v, opt_chars(updates.user_id)),
            |v: JsonValue| json_opt_flag(v, updates.is_public),
        ),
{
    let mut m: Vec<(String, JsonValue)> = Vec::new();
    m.push((owned("Name"), opt_text_value(&updates.name)));
    m.push((owned("Ids"), opt_texts_value(&updates.ids)));
    m.push((owned("UserId"), opt_text_value(&updates.user_id)));
    m.push((owned("IsPublic"), opt_flag_value(updates.is_public)));
    JsonValue::Object(m)
}

/// The number of song ids of a request (none when no list is given).
pub open spec fn id_count(ids: Option<Vec<String>>) -> int {
    match ids {
        Some(v) => v@.len() as int,
        None => 0,
    }
}

/// `p` is the playlist built from a reply: the name, the server, the id,
/// a deletable virtual folder of type Playlist holding `count` songs (cut
/// to 32 bits), and nothing else.
pub open spec fn built_playlist(p: Playlist, name: Seq<char>, server: Seq<char>, id: Seq<char>, count: int) -> bool {
    &&& p.name@ == name
    &&& p.server_id@ == server
    &&& p.id@ == id
    &&& p.can_delete == Some(true)
    &&& p.sort_name is None
    &&& p.is_folder
    &&& p.item_type@ == "Playlist"@
    &&& p.user_data is None
    &&& p.run_time_ticks is None
    &&& p.child_count == Some(count as i32)
    &&& p.image_tags is None
    &&& p.backdrop_image_tags is None
    &&& p.image_blur_hashes is None
    &&& p.location_type@ == "Virtual"@
    &&& p.media_type is None
    &&& p.date_created is None
    &&& p.date_last_saved is None
    &&& p.is_favorite is None
    &&& p.description is None
    &&& p.songs is None
}

fn build_playlist(name: String, server_url: &str, id: String, ids: &Option<Vec<String>>) -> (p: Playlist)
    ensures
        built_playlist(p, name@, server_url@, id@, id_count(*ids)),
{
    let count: usize = match ids {
        Some(v) => v.len(),
        None => 0,
    };
    Playlist {
        name,
        server_id: owned(server_url),
        id,
        can_delete: Some(true),
        sort_name: None,
        is_folder: true,
        item_type: owned("Playlist"),
        user_data: None,
        run_time_ticks: None,
        child_count: Some(count as i32),
        image_tags: None,
        backdrop_image_tags: None,
        image_blur_hashes: None,
        location_type: owned("Virtual"),
        media_type: None,
        date_created: None,
        date_last_saved: None,
        is_favorite: None,
        description: None,
        songs: None,
    }
}

fn name_or_untitled(n: Option<String>) -> (r: String)
    ensures
        r@ == or_text(opt_chars(n), "Untitled Playlist"@),
{
    match n {
        Some(t) => t,
        None => owned("Untitled Playlist"),
    }
}

/// The playlist a create answers with: the server's playlist `parsed` when
/// the reply read as one; else, when the reply is JSON with a string `Id`,
/// a playlist built from its `Name` (or "Untitled Playlist"), that id, the
/// server and the number of requested songs; an error when the reply is not
/// JSON or names no id.
pub fn create_playlist_result(
    server_url: &str,
    data: &PlaylistCreateData,
    parsed: Option<Playlist>,
    response_text: &str,
) -> (r: Result<Playlist, PlaylistError>)
    ensures
        parsed is Some ==> r == Ok::<Playlist, PlaylistError>(parsed->0),
        parsed is None ==> match (
            json_text_str_member(response_text@, "Name"@),
            json_text_str_member(response_text@, "Id"@),
        ) {
            (Some(n), Some(Some(id))) => r matches Ok(p) && built_playlist(
                p,
                or_text(n, "Untitled Playlist"@),
                server_url@,
                id,
                id_count(data.ids),
            ),
            (Some(_), Some(None)) => r == Err::<Playlist, PlaylistError>(PlaylistError::MissingIdInResponse),
            _ => r == Err::<Playlist, PlaylistError>(PlaylistError::InvalidJson),
        },
{
    match parsed {
        Some(p) => Ok(p),
        None => {
            let name = json_str_member(response_text, "Name");
            let id = json_str_member(response_text, "Id");
            match (name, id) {
                (Some(n), Some(Some(id))) => Ok(
                    build_playlist(name_or_untitled(n), server_url, id, &data.ids),
                ),
                (Some(_), Some(None)) => Err(PlaylistError::MissingIdInResponse),
                _ => Err(PlaylistError::InvalidJson),
            }
        },
    }
}

/// The playlist an update answers with: when the reply is blank (only
/// whitespace), one built from the request (its name or "Untitled
/// Playlist", `playlist_id`, the server, the number of requested songs);
/// else the server's playlist `parsed` when the reply read as one; else,
/// when the reply is JSON, one built from its `Name` (or "Untitled
/// Playlist") and `Id` (or `playlist_id`); an error when it is not JSON.
pub fn update_playlist_result(
    server_url: &str,
    playlist_id: &str,
    updates: &PlaylistUpdateData,
    parsed: Option<Playlist>,
    response_text: &str,
) -> (r: Result<Playlist, PlaylistError>)
    ensures
        trimmed(response_text@).len() == 0 ==> (r matches Ok(p) && built_playlist(
            p,
            or_text(opt_chars(updates.name), "Untitled Playlist"@),
            server_url@,
            playlist_id@,
            id_count(updates.ids),
        )),
        trimmed(response_text@).len() != 0 && parsed is Some ==> r == Ok::<Playlist, PlaylistError>(
            parsed->0,
        ),
        trimmed(response_text@).len() != 0 && parsed is None ==> match (
            json_text_str_member(response_text@, "Name"@),
            json_text_str_member(response_text@, "Id"@),
        ) {
            (Some(n), Some(i)) => r matches Ok(p) && built_playlist(
                p,
                or_text(n, "Untitled Playlist"@),
                server_url@,
                or_text(i, playlist_id@),
                id_count(updates.ids),
            ),
            _ => r == Err::<Playlist, PlaylistError>(PlaylistError::InvalidJson),
        },
{
    let trimmed_text = trim_whitespace(response_text);
    if trimmed_text.as_str().unicode_len() == 0 {
        return Ok(
            build_playlist(
                name_or_untitled(updates.name.clone()),
                server_url,
                owned(playlist_id),
                &updates.ids,
            ),
        );
    }
    match parsed {
        Some(p) => Ok(p),
        None => {
            let name = json_str_member(response_text, "Name");
            let id = json_str_member(response_text, "Id");
            match (name, id) {
                (Some(n), Some(i)) => {
                    let id_text = match i {
                        Some(t) => t,
                        None => owned(playlist_id),
                    };
                    Ok(build_playlist(name_or_untitled(n), server_url, id_text, &updates.ids))
                },
                _ => Err(PlaylistError::InvalidJson),
            }
        },
    }
}

} // verus!
