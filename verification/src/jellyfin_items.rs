//! Building library items from the media server's item JSON.
//!
//! The server may send several names in one string, separated by the unit
//! separator (U+001F); such strings stand for their nonempty pieces.
use vstd::prelude::*;
use crate::json::{
    JsonValue, member, str_of, int_of, bool_of, array_of, members_of, float_bits_of, get,
    as_str, str_member, string_member, int_member, bool_member, array_member, object_member,
    float_bits_member,
};
use crate::models::{Album, AlbumV, Artist, ArtistV, NameIdPair, Song, SongV, Tag};
use crate::text::{chars_of, opt_chars, owned, push_char, str_eq, views};
use crate::profile_storage::{lowercase, to_lowercase, trim_whitespace, trimmed};

verus! {

/// The separator of several names in one string.
pub open spec fn unit_sep() -> char {
    '\u{1f}'
}

/// The nonempty pieces of `s` between separators, the first continuing
/// `cur`.
pub open spec fn pieces_from(s: Seq<char>, cur: Seq<char>) -> Seq<Seq<char>>
    decreases s.len(),
{
    if s.len() == 0 {
        if cur.len() > 0 { seq![cur] } else { Seq::empty() }
    } else if s[0] == unit_sep() {
        (if cur.len() > 0 { seq![cur] } else { Seq::empty() }) + pieces_from(s.drop_first(), Seq::empty())
    } else {
        pieces_from(s.drop_first(), cur.push(s[0]))
    }
}

/// The nonempty pieces of `s` between separators.
pub open spec fn pieces(s: Seq<char>) -> Seq<Seq<char>> {
    pieces_from(s, Seq::empty())
}

/// The names a string stands for: its nonempty pieces when it holds a
/// separator, else the string itself (empty or not).
pub open spec fn names_in(s: Seq<char>) -> Seq<Seq<char>> {
    if s.contains(unit_sep()) {
        pieces(s)
    } else {
        seq![s]
    }
}

/// Appends the nonempty pieces of `t` to `out`; returns whether `t` holds
/// a separator.
fn push_pieces(out: &mut Vec<String>, t: &str) -> (has_sep: bool)
    ensures
        views(final(out)@) == views(old(out)@) + pieces(t@),
        has_sep == t@.contains(unit_sep()),
{
    let chars = chars_of(t);
    let ghost s = t@;
    let ghost base = views(out@);
    let mut cur = String::new();
    let mut has_sep = false;
    let mut i: usize = 0;
    assert(s.skip(0) =~= s);
    while i < chars.len()
        invariant
            chars@ == s,
            i <= s.len(),
            base + pieces(s) == views(out@) + pieces_from(s.skip(i as int), cur@),
            has_sep == s.take(i as int).contains(unit_sep()),
        decreases s.len() - i,
    {
        let c = chars[i];
        let ghost rest = s.skip(i as int);
        assert(rest[0] == c);
        assert(rest.drop_first() =~= s.skip(i + 1));
        assert(s.take(i + 1) =~= s.take(i as int).push(c));
        if c == '\u{1f}' {
            let ghost before = views(out@);
            if cur.unicode_len() > 0 {
                out.push(cur);
                assert(views(out@) =~= before.push(cur@));
                assert(before + (seq![cur@] + pieces_from(s.skip(i + 1), Seq::empty())) =~= views(out@)
                    + pieces_from(s.skip(i + 1), Seq::empty()));
            } else {
                assert(before + (Seq::<Seq<char>>::empty() + pieces_from(s.skip(i + 1), Seq::empty()))
                    =~= before + pieces_from(s.skip(i + 1), Seq::empty()));
            }
            cur = String::new();
            has_sep = true;
            assert(s.take(i + 1).contains(unit_sep())) by {
                assert(s.take(i + 1)[i as int] == c);
            }
        } else {
            let ghost prev = cur@;
            push_char(&mut cur, c);
            assert(s.take(i + 1).contains(unit_sep()) == s.take(i as int).contains(unit_sep())) by {
                let t1 = s.take(i + 1);
                let t0 = s.take(i as int);
                assert(t1 =~= t0.push(c));
                if t1.contains(unit_sep()) {
                    let k = choose|k: int| 0 <= k < t1.len() && #[trigger] t1[k] == unit_sep();
                    assert(k < t0.len());
                    assert(t0[k] == t1[k]);
                }
                if t0.contains(unit_sep()) {
                    let k = choose|k: int| 0 <= k < t0.len() && #[trigger] t0[k] == unit_sep();
                    assert(t1[k] == t0[k]);
                }
            }
        }
        i = i + 1;
    }
    assert(s.skip(i as int).len() == 0);
    assert(s.take(i as int) =~= s);
    let ghost before = views(out@);
    if cur.unicode_len() > 0 {
        out.push(cur);
        assert(views(out@) =~= before.push(cur@));
        assert(before + seq![cur@] =~= views(out@));
    } else {
        assert(before + Seq::<Seq<char>>::empty() =~= before);
    }
    has_sep
}

/// Appends the names `t` stands for to `out`.
fn push_names(out: &mut Vec<String>, t: &str)
    ensures
        views(final(out)@) == views(old(out)@) + names_in(t@),
{
    let mut split: Vec<String> = Vec::new();
    let has_sep = push_pieces(&mut split, t);
    assert(views(split@) =~= pieces(t@)) by {
        assert(Seq::<Seq<char>>::empty() + pieces(t@) =~= pieces(t@));
    }
    let ghost before = views(out@);
    if has_sep {
        let mut i: usize = 0;
        while i < split.len()
            invariant
                i <= split@.len(),
                views(out@) == before + views(split@).take(i as int),
            decreases split@.len() - i,
        {
            let ghost prev = views(out@);
            out.push(split[i].clone());
            assert(views(out@) =~= prev.push(split@[i as int]@));
            assert(views(split@).take(i + 1) =~= views(split@).take(i as int).push(split@[i as int]@));
            i = i + 1;
        }
        assert(views(split@).take(i as int) =~= views(split@));
    } else {
        out.push(owned(t));
        assert(views(out@) =~= before + seq![t@]);
    }
}

/// The text an element gives: its member `key` when one is named, else
/// the element itself, when that is a string.
pub open spec fn text_at(v: JsonValue, key: Option<Seq<char>>) -> Option<Seq<char>> {
    match key {
        Some(k) => str_of(member(v, k)),
        None => str_of(v),
    }
}

/// The names the texts of `items` stand for, in order.
pub open spec fn names_from(items: Seq<JsonValue>, key: Option<Seq<char>>) -> Seq<Seq<char>>
    decreases items.len(),
{
    if items.len() == 0 {
        Seq::empty()
    } else {
        names_from(items.drop_last(), key) + match text_at(items.last(), key) {
            Some(t) => names_in(t),
            None => Seq::empty(),
        }
    }
}

/// Some element of `items` is a string.
pub open spec fn any_str(items: Seq<JsonValue>) -> bool {
    exists|i: int| 0 <= i < items.len() && (#[trigger] str_of(items[i])) is Some
}

fn key_chars(key: Option<&str>) -> (r: Option<&str>)
    ensures
        r == key,
{
    key
}

/// The names the texts of `items` stand for; whether any element is a
/// string.
fn names_of_items(items: &Vec<JsonValue>, key: Option<&str>) -> (r: (Vec<String>, bool))
    ensures
        views(r.0@) == names_from(items@, opt_str_chars(key)),
        r.1 == any_str(items@),
{
    let ghost k = opt_str_chars(key);
    let mut out: Vec<String> = Vec::new();
    let mut any = false;
    let mut i: usize = 0;
    while i < items.len()
        invariant
            i <= items@.len(),
            k == opt_str_chars(key),
            views(out@) == names_from(items@.take(i as int), k),
            any == any_str(items@.take(i as int)),
        decreases items@.len() - i,
    {
        let item = &items[i];
        let ghost t = items@.take(i + 1);
        assert(t.drop_last() =~= items@.take(i as int));
        assert(t.last() == *item);
        let text = match key {
            Some(name) => str_member(item, name),
            None => as_str(item),
        };
        match text {
            Some(x) => push_names(&mut out, x),
            None => {
                assert(views(out@) + Seq::<Seq<char>>::empty() =~= views(out@));
            },
        }
        let is_str = as_str(item).is_some();
        assert(any_str(t) == (any_str(items@.take(i as int)) || str_of(*item) is Some)) by {
            if any_str(t) {
                let j = choose|j: int| 0 <= j < t.len() && (#[trigger] str_of(t[j])) is Some;
                if j < i {
                    assert(items@.take(i as int)[j] == t[j]);
                }
            }
            if any_str(items@.take(i as int)) {
                let j = choose|j: int| 0 <= j < items@.take(i as int).len() && (#[trigger] str_of(items@.take(i as int)[j])) is Some;
                assert(t[j] == items@.take(i as int)[j]);
            }
            if str_of(*item) is Some {
                assert(t[i as int] == *item);
            }
        }
        any = any || is_str;
        i = i + 1;
    }
    assert(items@.take(i as int) =~= items@);
    (out, any)
}

/// The text of an optional key.
pub open spec fn opt_str_chars(key: Option<&str>) -> Option<Seq<char>> {
    match key {
        Some(k) => Some(k@),
        None => None,
    }
}

/// The artists of an item: the names of its artist items, else those of
/// its artist list, else the pieces of its artist string; none when each
/// gives no name.
pub open spec fn artists_of(item: JsonValue) -> Option<Seq<Seq<char>>> {
    let from_items = match array_of(member(item, "ArtistItems"@)) {
        Some(a) => names_from(a, Some("Name"@)),
        None => Seq::empty(),
    };
    let from_list = match array_of(member(item, "Artists"@)) {
        Some(a) => names_from(a, None),
        None => Seq::empty(),
    };
    let from_text = match str_of(member(item, "Artists"@)) {
        Some(t) => pieces(t),
        None => Seq::empty(),
    };
    if from_items.len() > 0 {
        Some(from_items)
    } else if from_list.len() > 0 {
        Some(from_list)
    } else if from_text.len() > 0 {
        Some(from_text)
    } else {
        None
    }
}

/// The artist names of an item.
pub fn extract_artists(item: &JsonValue) -> (r: Option<Vec<String>>)
    ensures
        match r {
            Some(v) => artists_of(*item) == Some(views(v@)),
            None => artists_of(*item) is None,
        },
{
    if let Some(arr) = array_member(item, "ArtistItems") {
        let (names, _) = names_of_items(arr, key_chars(Some("Name")));
        if names.len() > 0 {
            return Some(names);
        }
    }
    if let Some(arr) = array_member(item, "Artists") {
        let (names, _) = names_of_items(arr, None);
        if names.len() > 0 {
            return Some(names);
        }
    }
    if let Some(text) = str_member(item, "Artists") {
        let mut names: Vec<String> = Vec::new();
        let _ = push_pieces(&mut names, text);
        assert(views(names@) =~= pieces(text@)) by {
            assert(Seq::<Seq<char>>::empty() + pieces(text@) =~= pieces(text@));
        }
        if names.len() > 0 {
            return Some(names);
        }
    }
    None
}

/// The artist ids of an item: the ids of its artist items, else, when
/// some artist item is a string, the names those strings stand for.
pub open spec fn artist_ids_of(item: JsonValue) -> Option<Seq<Seq<char>>> {
    match array_of(member(item, "ArtistItems"@)) {
        Some(a) => if names_from(a, Some("Id"@)).len() > 0 {
            Some(names_from(a, Some("Id"@)))
        } else if any_str(a) {
            Some(names_from(a, None))
        } else {
            None
        },
        None => None,
    }
}

/// The artist ids of an item.
pub fn extract_artist_ids(item: &JsonValue) -> (r: Option<Vec<String>>)
    ensures
        match r {
            Some(v) => artist_ids_of(*item) == Some(views(v@)),
            None => artist_ids_of(*item) is None,
        },
{
    if let Some(arr) = array_member(item, "ArtistItems") {
        let (ids, _) = names_of_items(arr, key_chars(Some("Id")));
        if ids.len() > 0 {
            return Some(ids);
        }
        let (names, any) = names_of_items(arr, None);
        if any {
            return Some(names);
        }
    }
    None
}

/// The genres of an item: the names its genre list stands for, else the
/// pieces of its genre string; none when either gives no name.
pub open spec fn genres_of(item: JsonValue) -> Option<Seq<Seq<char>>> {
    let from_list = match array_of(member(item, "Genres"@)) {
        Some(a) => names_from(a, None),
        None => Seq::empty(),
    };
    let from_text = match str_of(member(item, "Genres"@)) {
        Some(t) => pieces(t),
        None => Seq::empty(),
    };
    if from_list.len() > 0 {
        Some(from_list)
    } else if from_text.len() > 0 {
        Some(from_text)
    } else {
        None
    }
}

/// The genres of an item.
pub fn extract_genres(item: &JsonValue) -> (r: Option<Vec<String>>)
    ensures
        match r {
            Some(v) => genres_of(*item) == Some(views(v@)),
            None => genres_of(*item) is None,
        },
{
    if let Some(arr) = array_member(item, "Genres") {
        let (names, _) = names_of_items(arr, None);
        if names.len() > 0 {
            return Some(names);
        }
    }
    if let Some(text) = str_member(item, "Genres") {
        let mut names: Vec<String> = Vec::new();
        let _ = push_pieces(&mut names, text);
        assert(views(names@) =~= pieces(text@)) by {
            assert(Seq::<Seq<char>>::empty() + pieces(text@) =~= pieces(text@));
        }
        if names.len() > 0 {
            return Some(names);
        }
    }
    None
}

/// The (id, name) of each element of `items` that has both as strings.
pub open spec fn id_name_pairs(items: Seq<JsonValue>) -> Seq<(Seq<char>, Seq<char>)>
    decreases items.len(),
{
    if items.len() == 0 {
        Seq::empty()
    } else {
        let x = items.last();
        let rest = id_name_pairs(items.drop_last());
        match (str_of(member(x, "Id"@)), str_of(member(x, "Name"@))) {
            (Some(id), Some(name)) => rest.push((id, name)),
            _ => rest,
        }
    }
}

/// The (id, name) of each pair.
pub open spec fn pair_views(v: Seq<NameIdPair>) -> Seq<(Seq<char>, Seq<char>)> {
    v.map_values(|p: NameIdPair| (p.id@, p.name@))
}

/// The album artists of an item: each element of its album artist list
/// with an id and a name; none when there is none.
pub open spec fn album_artists_of(item: JsonValue) -> Option<Seq<(Seq<char>, Seq<char>)>> {
    match array_of(member(item, "AlbumArtists"@)) {
        Some(a) => if id_name_pairs(a).len() > 0 {
            Some(id_name_pairs(a))
        } else {
            None
        },
        None => None,
    }
}

/// The album artists of an item.
pub fn extract_album_artists(item: &JsonValue) -> (r: Option<Vec<NameIdPair>>)
    ensures
        match r {
            Some(v) => album_artists_of(*item) == Some(pair_views(v@)),
            None => album_artists_of(*item) is None,
        },
{
    if let Some(arr) = array_member(item, "AlbumArtists") {
        let mut out: Vec<NameIdPair> = Vec::new();
        let mut i: usize = 0;
        while i < arr.len()
            invariant
                i <= arr@.len(),
                pair_views(out@) == id_name_pairs(arr@.take(i as int)),
            decreases arr@.len() - i,
        {
            let x = &arr[i];
            let ghost t = arr@.take(i + 1);
            assert(t.drop_last() =~= arr@.take(i as int));
            assert(t.last() == *x);
            match (string_member(x, "Id"), string_member(x, "Name")) {
                (Some(id), Some(name)) => {
                    let ghost prev = pair_views(out@);
                    out.push(NameIdPair { id, name });
                    assert(pair_views(out@) =~= prev.push((id@, name@)));
                },
                _ => {},
            }
            i = i + 1;
        }
        assert(arr@.take(i as int) =~= arr@);
        if out.len() > 0 {
            return Some(out);
        }
    }
    None
}

/// The members of an object whose values are strings, as (key, text).
pub open spec fn string_entries(members: Seq<(String, JsonValue)>) -> Seq<(Seq<char>, Seq<char>)>
    decreases members.len(),
{
    if members.len() == 0 {
        Seq::empty()
    } else {
        let m = members.last();
        let rest = string_entries(members.drop_last());
        match str_of(m.1) {
            Some(t) => rest.push((m.0@, t)),
            None => rest,
        }
    }
}

/// The (key, value) of each tag.
pub open spec fn tag_views(v: Seq<Tag>) -> Seq<(Seq<char>, Seq<char>)> {
    v.map_values(|t: Tag| (t.key@, t.value@))
}

/// The string members of the object member `key` of `item`, as tags; none
/// when that member is no object.
pub open spec fn tags_of(item: JsonValue, key: Seq<char>) -> Option<Seq<(Seq<char>, Seq<char>)>> {
    match members_of(member(item, key)) {
        Some(m) => Some(string_entries(m)),
        None => None,
    }
}

/// The string members of the object member `key` of `item`, as tags.
pub fn string_map(item: &JsonValue, key: &str) -> (r: Option<Vec<Tag>>)
    ensures
        match r {
            Some(v) => tags_of(*item, key@) == Some(tag_views(v@)),
            None => tags_of(*item, key@) is None,
        },
{
    match object_member(item, key) {
        Some(members) => {
            let mut out: Vec<Tag> = Vec::new();
            let mut i: usize = 0;
            while i < members.len()
                invariant
                    i <= members@.len(),
                    tag_views(out@) == string_entries(members@.take(i as int)),
                decreases members@.len() - i,
            {
                let m = &members[i];
                let ghost t = members@.take(i + 1);
                assert(t.drop_last() =~= members@.take(i as int));
                assert(t.last() == *m);
                if let Some(text) = as_str(&m.1) {
                    let ghost prev = tag_views(out@);
                    out.push(Tag { key: m.0.clone(), value: text.to_string() });
                    assert(tag_views(out@) =~= prev.push((m.0@, text@)));
                }
                i = i + 1;
            }
            assert(members@.take(i as int) =~= members@);
            Some(out)
        },
        None => None,
    }
}

/// Why an item could not be read.
#[derive(Clone, Copy, Debug, PartialEq, Eq)]
pub enum ItemParseError {
    /// An audio item without an id.
    MissingItemId,
    /// An artist without an id.
    MissingArtistId,
    /// A response without an item list.
    InvalidResponse,
}

/// The message of an error.
pub open spec fn item_error_text(e: ItemParseError) -> Seq<char> {
    match e {
        ItemParseError::MissingItemId => "Missing item ID"@,
        ItemParseError::MissingArtistId => "Missing artist ID"@,
        ItemParseError::InvalidResponse => "Invalid response format"@,
    }
}

impl ItemParseError {
    /// The error's message.
    pub fn message(&self) -> (s: String)
        ensures
            s@ == item_error_text(*self),
    {
        match self {
            ItemParseError::MissingItemId => String::from_str("Missing item ID"),
            ItemParseError::MissingArtistId => String::from_str("Missing artist ID"),
            ItemParseError::InvalidResponse => String::from_str("Invalid response format"),
        }
    }
}

/// An integer that fits an `i32`.
pub open spec fn fit_i32(o: Option<i64>) -> Option<i32> {
    match o {
        Some(n) => if i32::MIN <= n <= i32::MAX {
            Some(n as i32)
        } else {
            None
        },
        None => None,
    }
}

fn to_i32(o: Option<i64>) -> (r: Option<i32>)
    ensures
        r == fit_i32(o),
{
    match o {
        Some(n) => if i32::MIN as i64 <= n && n <= i32::MAX as i64 {
            Some(n as i32)
        } else {
            None
        },
        None => None,
    }
}

/// A text, or the empty text.
pub open spec fn or_empty(o: Option<Seq<char>>) -> Seq<char> {
    match o {
        Some(t) => t,
        None => Seq::empty(),
    }
}

/// A text, or a default.
pub open spec fn or_text(o: Option<Seq<char>>, d: Seq<char>) -> Seq<char> {
    match o {
        Some(t) => t,
        None => d,
    }
}

fn text_or_empty(o: Option<&str>) -> (r: String)
    ensures
        r@ == or_empty(opt_str_chars(o)),
{
    match o {
        Some(t) => t.to_string(),
        None => String::new(),
    }
}

fn text_or(o: Option<&str>, d: &str) -> (r: String)
    ensures
        r@ == or_text(opt_str_chars(o), d@),
{
    match o {
        Some(t) => t.to_string(),
        None => d.to_string(),
    }
}

/// The texts of an optional list of strings.
pub open spec fn opt_views(o: Option<Vec<String>>) -> Option<Seq<Seq<char>>> {
    match o {
        Some(v) => Some(views(v@)),
        None => None,
    }
}

/// The entries of optional tags.
pub open spec fn opt_tag_views(o: Option<Vec<Tag>>) -> Option<Seq<(Seq<char>, Seq<char>)>> {
    match o {
        Some(v) => Some(tag_views(v@)),
        None => None,
    }
}

/// The first stream whose type is "Audio".
pub open spec fn first_audio(streams: Seq<JsonValue>) -> Option<JsonValue>
    decreases streams.len(),
{
    if streams.len() == 0 {
        None
    } else if str_of(member(streams[0], "Type"@)) == Some("Audio"@) {
        Some(streams[0])
    } else {
        first_audio(streams.drop_first())
    }
}

/// The audio stream of an item, if it lists one.
pub open spec fn audio_stream_of(item: JsonValue) -> Option<JsonValue> {
    match array_of(member(item, "MediaStreams"@)) {
        Some(streams) => first_audio(streams),
        None => None,
    }
}

fn audio_stream<'a>(item: &'a JsonValue) -> (r: Option<&'a JsonValue>)
    ensures
        match r {
            Some(x) => audio_stream_of(*item) == Some(*x),
            None => audio_stream_of(*item) is None,
        },
{
    match array_member(item, "MediaStreams") {
        Some(streams) => {
            let mut i: usize = 0;
            assert(streams@.skip(0) =~= streams@);
            while i < streams.len()
                invariant
                    i <= streams@.len(),
                    audio_stream_of(*item) == first_audio(streams@.skip(i as int)),
                decreases streams@.len() - i,
            {
                let x = &streams[i];
                assert(streams@.skip(i as int).drop_first() =~= streams@.skip(i + 1));
                assert(streams@.skip(i as int)[0] == *x);
                let is_audio = match str_member(x, "Type") {
                    Some(t) => str_eq(t, "Audio"),
                    None => false,
                };
                if is_audio {
                    return Some(x);
                }
                i = i + 1;
            }
            assert(streams@.skip(i as int).len() == 0);
            None
        },
        None => None,
    }
}

/// `p` has a dot at `i` followed by `e`.
pub open spec fn dot_then_at(p: Seq<char>, e: Seq<char>, i: int) -> bool {
    &&& 0 <= i
    &&& i + e.len() + 1 <= p.len()
    &&& p[i] == '.'
    &&& p.subrange(i + 1, i + e.len() + 1) == e
}

/// `ext` can be the extension of the path `p`: none when the path holds no
/// dot; else a text without a dot that follows a dot somewhere in the path.
pub open spec fn path_ext_fits(p: Seq<char>, ext: Option<Seq<char>>) -> bool {
    &&& !p.contains('.') ==> ext is None
    &&& ext matches Some(e) ==> !e.contains('.') && exists|i: int| #[trigger] dot_then_at(p, e, i)
}

/// `ext` can be the extension of the path of `item` (none without a path).
pub open spec fn item_ext(item: JsonValue, ext: Option<Seq<char>>) -> bool {
    match str_of(member(item, "Path"@)) {
        Some(p) => path_ext_fits(p, ext),
        None => ext is None,
    }
}

/// `Path::extension` of a path: the part of its file name after the last
/// dot, if any. Which characters separate the components depends on the
/// platform, so what is stated holds on every platform: there is no
/// extension without a dot in the path, and an extension holds no dot and
/// follows a dot of the path.
#[verifier::external_body]
fn path_extension(p: &str) -> (r: Option<String>)
    ensures
        path_ext_fits(p@, opt_chars(r)),
{
    std::path::Path::new(p).extension().and_then(|e| e.to_str()).map(|e| e.to_string())
}

/// The container of an item: the one it names, else the lowercased
/// extension `ext` of its path (when it has a path).
pub open spec fn container_of(item: JsonValue, ext: Option<Seq<char>>) -> Option<Seq<char>> {
    match str_of(member(item, "Container"@)) {
        Some(c) => Some(c),
        None => match str_of(member(item, "Path"@)) {
            Some(_) => match ext {
                Some(e) => Some(lowercase(e)),
                None => None,
            },
            None => None,
        },
    }
}

/// The album of an audio item: its album id, else its parent's id.
pub open spec fn album_id_of(item: JsonValue) -> Option<Seq<char>> {
    match str_of(member(item, "AlbumId"@)) {
        Some(a) => Some(a),
        None => str_of(member(item, "ParentId"@)),
    }
}

/// `s` is the song the item `item` describes, the extension of its path
/// being `ext`. Its duration (a float computed from `RunTimeTicks`) and its
/// image URL (see `image_target_of`) are left for the caller to fill in.
pub open spec fn song_from(s: Song, item: JsonValue, ext: Option<Seq<char>>) -> bool {
    let user_data = member(item, "UserData"@);
    let audio = audio_stream_of(item);
    &&& str_of(member(item, "Id"@)) == Some(s.id@)
    &&& s.name@ == or_empty(str_of(member(item, "Name"@)))
    &&& s.item_type@ == or_empty(str_of(member(item, "Type"@)))
    &&& opt_chars(s.album) == str_of(member(item, "Album"@))
    &&& opt_chars(s.album_id) == album_id_of(item)
    &&& opt_views(s.artists) == artists_of(item)
    &&& opt_views(s.artist_ids) == artist_ids_of(item)
    &&& opt_chars(s.path) == str_of(member(item, "Path"@))
    &&& s.duration_bits is None
    &&& s.album_art_url is None
    &&& s.year == fit_i32(int_of(member(item, "ProductionYear"@)))
    &&& s.play_count == fit_i32(int_of(member(user_data, "PlayCount"@)))
    &&& s.is_favorite == bool_of(member(user_data, "IsFavorite"@))
    &&& s.disc_number == fit_i32(int_of(member(item, "ParentIndexNumber"@)))
    &&& s.track_number == fit_i32(int_of(member(item, "IndexNumber"@)))
    &&& opt_chars(s.container) == container_of(item, ext)
    &&& s.bit_rate == match audio {
        Some(a) => fit_i32(int_of(member(a, "BitRate"@))),
        None => None,
    }
    &&& s.sample_rate == match audio {
        Some(a) => fit_i32(int_of(member(a, "SampleRate"@))),
        None => None,
    }
    &&& opt_chars(s.codec) == match audio {
        Some(a) => str_of(member(a, "Codec"@)),
        None => None,
    }
    &&& opt_views(s.genres) == genres_of(item)
    &&& opt_chars(s.premiere_date) == str_of(member(item, "PremiereDate"@))
    &&& opt_chars(s.date_played) == str_of(member(user_data, "LastPlayedDate"@))
    &&& opt_chars(s.date_created) == str_of(member(item, "DateCreated"@))
    &&& opt_chars(s.date_modified) == str_of(member(item, "DateLastModified"@))
    &&& match s.album_artists {
        Some(v) => album_artists_of(item) == Some(pair_views(v@)),
        None => album_artists_of(item) is None,
    }
    &&& s.lyrics is None
    &&& opt_tag_views(s.image_tags) == tags_of(item, "ImageTags"@)
}

/// A song read from an item is modified when the item was last modified
/// and created when the item was created: its two dates are the item's
/// `DateLastModified` and `DateCreated`, so they differ whenever the
/// item's do.
pub proof fn lemma_song_dates(s: Song, item: JsonValue, ext: Option<Seq<char>>)
    requires
        song_from(s, item, ext),
    ensures
        opt_chars(s.date_modified) == str_of(member(item, "DateLastModified"@)),
        opt_chars(s.date_created) == str_of(member(item, "DateCreated"@)),
        str_of(member(item, "DateLastModified"@)) != str_of(member(item, "DateCreated"@)) ==> opt_chars(
            s.date_modified,
        ) != opt_chars(s.date_created),
{
}

/// The song of an audio item whose path has the extension `ext`; an item
/// without a string id is refused.
pub fn song_of_item(item: &JsonValue, ext: Option<String>) -> (r: Result<Song, ItemParseError>)
    ensures
        match r {
            Ok(s) => song_from(s, *item, opt_chars(ext)),
            Err(e) => e == ItemParseError::MissingItemId && str_of(member(*item, "Id"@)) is None,
        },
{
    let id = match string_member(item, "Id") {
        Some(id) => id,
        None => {
            return Err(ItemParseError::MissingItemId);
        },
    };
    let name = text_or_empty(str_member(item, "Name"));
    let item_type = text_or_empty(str_member(item, "Type"));
    let album = string_member(item, "Album");
    let album_id = match string_member(item, "AlbumId") {
        Some(a) => Some(a),
        None => string_member(item, "ParentId"),
    };
    let user_data = get(item, "UserData");
    let (play_count, is_favorite, date_played) = match user_data {
        Some(ud) => (
            to_i32(int_member(ud, "PlayCount")),
            bool_member(ud, "IsFavorite"),
            string_member(ud, "LastPlayedDate"),
        ),
        None => (None, None, None),
    };
    let year = to_i32(int_member(item, "ProductionYear"));
    let disc_number = to_i32(int_member(item, "ParentIndexNumber"));
    let track_number = to_i32(int_member(item, "IndexNumber"));
    let premiere_date = string_member(item, "PremiereDate");
    let date_created = string_member(item, "DateCreated");
    let (bit_rate, sample_rate, codec) = match audio_stream(item) {
        Some(a) => (
            to_i32(int_member(a, "BitRate")),
            to_i32(int_member(a, "SampleRate")),
            string_member(a, "Codec"),
        ),
        None => (None, None, None),
    };
    let image_tags = string_map(item, "ImageTags");
    let artists = extract_artists(item);
    let artist_ids = extract_artist_ids(item);
    let album_artists = extract_album_artists(item);
    let genres = extract_genres(item);
    let path = string_member(item, "Path");
    let container = match string_member(item, "Container") {
        Some(c) => Some(c),
        None => match &path {
            Some(_) => match &ext {
                Some(e) => Some(to_lowercase(e.as_str())),
                None => None,
            },
            None => None,
        },
    };
    let date_modified = string_member(item, "DateLastModified");
    let song = Song {
        id,
        name,
        item_type,
        album,
        album_id,
        artists,
        artist_ids,
        path,
        duration_bits: None,
        album_art_url: None,
        year,
        play_count,
        is_favorite,
        disc_number,
        track_number,
        container,
        bit_rate,
        sample_rate,
        codec,
        genres,
        premiere_date,
        date_played,
        date_created,
        date_modified,
        album_artists,
        lyrics: None,
        image_tags,
    };
    Ok(song)
}

/// Reads the song of an audio item, the extension of its path taken from
/// the platform's path rules. An item without a string id is refused.
pub fn parse_single_music_item(item: &JsonValue) -> (r: Result<Song, ItemParseError>)
    ensures
        r is Err <==> str_of(member(*item, "Id"@)) is None,
        r is Err ==> r == Err::<Song, ItemParseError>(ItemParseError::MissingItemId),
        r matches Ok(s) ==> exists|ext: Option<Seq<char>>| item_ext(*item, ext) && song_from(s, *item, ext),
{
    let ext = match str_member(item, "Path") {
        Some(p) => path_extension(p),
        None => None,
    };
    let r = song_of_item(item, ext);
    proof {
        if r is Ok {
            assert(item_ext(*item, opt_chars(ext)) && song_from(r->Ok_0, *item, opt_chars(ext)));
        }
    }
    r
}

/// Whether the string members of the image tags of `item` name a
/// "Primary" image.
pub open spec fn has_primary_tag(item: JsonValue) -> bool {
    match tags_of(item, "ImageTags"@) {
        Some(t) => exists|i: int| 0 <= i < t.len() && (#[trigger] t[i]).0 == "Primary"@,
        None => false,
    }
}

/// The item whose primary image stands for `item`, when it has one: its
/// album (for anything on an album), else `item_id`, else its own id (or
/// the empty id). There is an image when the item is on an album or its
/// image tags name a primary image.
pub open spec fn image_target_of(item: JsonValue, item_id: Option<Seq<char>>) -> Option<Seq<char>> {
    let image_id = match str_of(member(item, "AlbumId"@)) {
        Some(a) => a,
        None => match item_id {
            Some(i) => i,
            None => or_empty(str_of(member(item, "Id"@))),
        },
    };
    if str_of(member(item, "AlbumId"@)) is Some || has_primary_tag(item) {
        Some(image_id)
    } else {
        None
    }
}

fn names_primary(tags: &Vec<Tag>) -> (b: bool)
    ensures
        b == exists|i: int| 0 <= i < tag_views(tags@).len() && (#[trigger] tag_views(tags@)[i]).0 == "Primary"@,
{
    let mut i: usize = 0;
    while i < tags.len()
        invariant
            i <= tags@.len(),
            forall|j: int| 0 <= j < i ==> (#[trigger] tag_views(tags@)[j]).0 != "Primary"@,
        decreases tags@.len() - i,
    {
        if str_eq(tags[i].key.as_str(), "Primary") {
            assert(tag_views(tags@)[i as int].0 == "Primary"@);
            return true;
        }
        i = i + 1;
    }
    false
}

/// The item whose primary image stands for `item` (see `image_target_of`).
pub fn image_target(item: &JsonValue, item_id: Option<&str>) -> (r: Option<String>)
    ensures
        opt_chars(r) == image_target_of(*item, opt_str_chars(item_id)),
{
    let album_id = str_member(item, "AlbumId");
    let has_primary = match string_map(item, "ImageTags") {
        Some(tags) => names_primary(&tags),
        None => false,
    };
    proof {
        match tags_of(*item, "ImageTags"@) {
            Some(t) => {
                assert(has_primary == exists|i: int| 0 <= i < t.len() && (#[trigger] t[i]).0 == "Primary"@);
            },
            None => {},
        }
        assert(has_primary == has_primary_tag(*item));
    }
    if album_id.is_some() || has_primary {
        let image_id = match album_id {
            Some(a) => a.to_string(),
            None => match item_id {
                Some(i) => i.to_string(),
                None => text_or_empty(str_member(item, "Id")),
            },
        };
        Some(image_id)
    } else {
        None
    }
}

/// The URL of an image from the URL of its endpoint: the access token, if
/// any, is added as the `api_key` parameter.
pub open spec fn image_url_text(base: Seq<char>, token: Option<Seq<char>>) -> Seq<char> {
    match token {
        Some(t) => base + "?api_key="@ + t,
        None => base,
    }
}

/// The URL of an image from the URL of its endpoint and the access token.
pub fn primary_image_url(base: String, token: Option<&str>) -> (r: String)
    ensures
        r@ == image_url_text(base@, opt_str_chars(token)),
{
    match token {
        Some(t) => {
            let mut url = base;
            crate::text::push_str(&mut url, "?api_key=");
            crate::text::push_str(&mut url, t);
            url
        },
        None => base,
    }
}

/// `a` is the album the item `item` describes. Its image URL (see
/// `image_target_of`) is left for the caller to fill in.
pub open spec fn album_from(a: Album, item: JsonValue) -> bool {
    let artists = array_of(member(item, "Artists"@));
    let album_artists = array_of(member(item, "AlbumArtists"@));
    &&& opt_chars(a.id) == str_of(member(item, "Id"@))
    &&& a.name@ == or_text(str_of(member(item, "Name"@)), "Unknown Album"@)
    &&& a.artist@ == match artists {
        Some(l) => if l.len() > 0 && str_of(l[0]) is Some {
            str_of(l[0])->0
        } else {
            "Unknown Artist"@
        },
        None => "Unknown Artist"@,
    }
    &&& opt_chars(a.artist_id) == match album_artists {
        Some(l) => if l.len() > 0 {
            str_of(member(l[0], "Id"@))
        } else {
            None
        },
        None => None,
    }
    &&& a.album_art_url is None
    &&& a.song_count == match int_of(member(item, "SongCount"@)) {
        Some(n) => n,
        None => 0,
    }
    &&& a.songs is None
    &&& opt_tag_views(a.image_tags) == tags_of(item, "ImageTags"@)
    &&& opt_tag_views(a.provider_ids) == tags_of(item, "ProviderIds"@)
    &&& opt_chars(a.date_created) == str_of(member(item, "DateCreated"@))
    &&& opt_chars(a.date_modified) == str_of(member(item, "DateLastModified"@))
}

/// Reads the album an album item describes; missing names read as
/// "Unknown Album" and "Unknown Artist", a missing song count as 0.
pub fn parse_single_album(item: &JsonValue) -> (a: Album)
    ensures
        album_from(a, *item),
{
    let id = string_member(item, "Id");
    let name = text_or(str_member(item, "Name"), "Unknown Album");
    let artist = match array_member(item, "Artists") {
        Some(l) => if l.len() > 0 {
            match as_str(&l[0]) {
                Some(t) => t.to_string(),
                None => String::from_str("Unknown Artist"),
            }
        } else {
            String::from_str("Unknown Artist")
        },
        None => String::from_str("Unknown Artist"),
    };
    let artist_id = match array_member(item, "AlbumArtists") {
        Some(l) => if l.len() > 0 {
            string_member(&l[0], "Id")
        } else {
            None
        },
        None => None,
    };
    let song_count = match int_member(item, "SongCount") {
        Some(n) => n,
        None => 0,
    };
    Album {
        id,
        name,
        artist,
        artist_id,
        album_art_url: None,
        song_count,
        songs: None,
        image_tags: string_map(item, "ImageTags"),
        provider_ids: string_map(item, "ProviderIds"),
        date_created: string_member(item, "DateCreated"),
        date_modified: string_member(item, "DateLastModified"),
    }
}

/// Whether an artist item has an image: its image tags, as an object,
/// have a member "Primary" (of any kind).
pub open spec fn artist_has_image(item: JsonValue) -> bool {
    match members_of(member(item, "ImageTags"@)) {
        Some(m) => exists|i: int| 0 <= i < m.len() && (#[trigger] m[i]).0@ == "Primary"@,
        None => false,
    }
}

/// Whether an artist item has an image (see `artist_has_image`).
pub fn artist_image_present(item: &JsonValue) -> (b: bool)
    ensures
        b == artist_has_image(*item),
{
    match object_member(item, "ImageTags") {
        Some(m) => {
            let mut i: usize = 0;
            while i < m.len()
                invariant
                    i <= m@.len(),
                    members_of(member(*item, "ImageTags"@)) == Some(m@),
                    forall|j: int| 0 <= j < i ==> (#[trigger] m@[j]).0@ != "Primary"@,
                decreases m@.len() - i,
            {
                if str_eq(m[i].0.as_str(), "Primary") {
                    let ghost mm = members_of(member(*item, "ImageTags"@))->0;
                    assert(mm[i as int].0@ == "Primary"@);
                    return true;
                }
                i = i + 1;
            }
            false
        },
        None => false,
    }
}

/// The overview of an artist: its text trimmed, none when empty.
pub open spec fn overview_of(item: JsonValue) -> Option<Seq<char>> {
    match str_of(member(item, "Overview"@)) {
        Some(t) => if trimmed(t).len() > 0 {
            Some(trimmed(t))
        } else {
            None
        },
        None => None,
    }
}

/// `a` is the artist the item `item` describes. Its image URL (made when
/// `artist_has_image`) is left for the caller to fill in.
pub open spec fn artist_from(a: Artist, item: JsonValue) -> bool {
    &&& str_of(member(item, "Id"@)) == Some(a.id@)
    &&& a.name@ == or_empty(str_of(member(item, "Name"@)))
    &&& opt_tag_views(a.image_tags) == tags_of(item, "ImageTags"@)
    &&& a.image_url is None
    &&& opt_chars(a.overview) == overview_of(item)
    &&& opt_tag_views(a.provider_ids) == tags_of(item, "ProviderIds"@)
    &&& a.community_rating_bits == float_bits_of(member(item, "CommunityRating"@))
    &&& a.song_count == int_of(member(item, "SongCount"@))
    &&& opt_chars(a.date_modified) == str_of(member(item, "DateLastModified"@))
    &&& a.songs is None
}

/// Reads the artist an artist item describes; an item without a string id
/// is refused.
pub fn parse_single_artist(item: &JsonValue) -> (r: Result<Artist, ItemParseError>)
    ensures
        match r {
            Ok(a) => artist_from(a, *item),
            Err(e) => e == ItemParseError::MissingArtistId && str_of(member(*item, "Id"@)) is None,
        },
{
    let id = match string_member(item, "Id") {
        Some(id) => id,
        None => {
            return Err(ItemParseError::MissingArtistId);
        },
    };
    let overview = match str_member(item, "Overview") {
        Some(t) => {
            let trimmed_text = trim_whitespace(t);
            if trimmed_text.unicode_len() > 0 {
                Some(trimmed_text)
            } else {
                None
            }
        },
        None => None,
    };
    Ok(
        Artist {
            name: text_or_empty(str_member(item, "Name")),
            id,
            image_tags: string_map(item, "ImageTags"),
            image_url: None,
            overview,
            provider_ids: string_map(item, "ProviderIds"),
            community_rating_bits: float_bits_member(item, "CommunityRating"),
            song_count: int_member(item, "SongCount"),
            date_modified: string_member(item, "DateLastModified"),
            songs: None,
        },
    )
}

/// Every item has a string id.
pub open spec fn all_have_ids(items: Seq<JsonValue>) -> bool {
    forall|i: int| 0 <= i < items.len() ==> (#[trigger] str_of(member(items[i], "Id"@))) is Some
}

/// `songs` are the songs the items describe, one for one, their paths
/// having the extensions `exts` (each fitting its item's path).
pub open spec fn songs_with(songs: Seq<Song>, items: Seq<JsonValue>, exts: Seq<Option<Seq<char>>>) -> bool {
    &&& songs.len() == items.len()
    &&& exts.len() == items.len()
    &&& forall|i: int| 0 <= i < items.len() ==> song_from(#[trigger] songs[i], items[i], exts[i])
    &&& forall|i: int| 0 <= i < items.len() ==> item_ext(#[trigger] items[i], exts[i])
}

/// `songs` are the songs the items describe, one for one, for some
/// extensions of their paths.
pub open spec fn songs_from(songs: Seq<Song>, items: Seq<JsonValue>) -> bool {
    exists|exts: Seq<Option<Seq<char>>>| songs_with(songs, items, exts)
}

/// Reads the songs of an item list response: the items of its "Items"
/// list, in order. A response without such a list, or with an item
/// without an id, is refused.
pub fn parse_music_items(response: &JsonValue) -> (r: Result<Vec<Song>, ItemParseError>)
    ensures
        array_of(member(*response, "Items"@)) is None ==> r == Err::<Vec<Song>, ItemParseError>(
            ItemParseError::InvalidResponse,
        ),
        array_of(member(*response, "Items"@)) matches Some(items) && !all_have_ids(items) ==> r
            == Err::<Vec<Song>, ItemParseError>(ItemParseError::MissingItemId),
        array_of(member(*response, "Items"@)) matches Some(items) && all_have_ids(items) ==> r is Ok,
        r matches Ok(songs) ==> array_of(member(*response, "Items"@)) matches Some(items)
            && songs_from(songs@, items),
{
    let items = match array_member(response, "Items") {
        Some(items) => items,
        None => {
            return Err(ItemParseError::InvalidResponse);
        },
    };
    let mut songs: Vec<Song> = Vec::new();
    let ghost mut exts: Seq<Option<Seq<char>>> = Seq::empty();
    let mut i: usize = 0;
    while i < items.len()
        invariant
            i <= items@.len(),
            array_of(member(*response, "Items"@)) == Some(items@),
            songs@.len() == i,
            all_have_ids(items@.take(i as int)),
            exts.len() == i,
            forall|j: int| 0 <= j < i ==> song_from(#[trigger] songs@[j], items@[j], exts[j]),
            forall|j: int| 0 <= j < i ==> item_ext(#[trigger] items@[j], exts[j]),
        decreases items@.len() - i,
    {
        let parsed = parse_single_music_item(&items[i]);
        let s = match parsed {
            Ok(s) => s,
            Err(_) => {
                assert(!all_have_ids(items@)) by {
                    assert(str_of(member(items@[i as int], "Id"@)) is None);
                }
                return Err(ItemParseError::MissingItemId);
            },
        };
        let ghost prev = songs@;
        let ghost prev_exts = exts;
        let ghost e = choose|ext: Option<Seq<char>>| item_ext(items@[i as int], ext) && song_from(s, items@[i as int], ext);
        proof {
            exts = exts.push(e);
        }
        songs.push(s);
        assert forall|j: int| 0 <= j < i + 1 implies song_from(#[trigger] songs@[j], items@[j], exts[j]) by {
            if j < i {
                assert(songs@[j] == prev[j]);
                assert(exts[j] == prev_exts[j]);
            }
        }
        assert forall|j: int| 0 <= j < i + 1 implies item_ext(#[trigger] items@[j], exts[j]) by {
            if j < i {
                assert(exts[j] == prev_exts[j]);
            }
        }
        assert(all_have_ids(items@.take(i + 1))) by {
            assert forall|j: int| 0 <= j < items@.take(i + 1).len() implies (#[trigger] str_of(
                member(items@.take(i + 1)[j], "Id"@),
            )) is Some by {
                if j < i {
                    assert(items@.take(i + 1)[j] == items@.take(i as int)[j]);
                }
            }
        }
        i = i + 1;
    }
    assert(items@.take(i as int) =~= items@);
    assert(all_have_ids(items@));
    assert(songs_with(songs@, items@, exts));
    Ok(songs)
}

/// Every piece of a separated string is nonempty and holds no separator,
/// the first continuing `cur` (which holds none).
pub proof fn lemma_pieces_from_clean(s: Seq<char>, cur: Seq<char>)
    requires
        !cur.contains(unit_sep()),
    ensures
        forall|i: int|
            0 <= i < pieces_from(s, cur).len() ==> (#[trigger] pieces_from(s, cur)[i]).len() > 0
                && !pieces_from(s, cur)[i].contains(unit_sep()),
    decreases s.len(),
{
    if s.len() == 0 {
    } else if s[0] == unit_sep() {
        lemma_pieces_from_clean(s.drop_first(), Seq::empty());
        let head: Seq<Seq<char>> = if cur.len() > 0 { seq![cur] } else { Seq::empty() };
        let tail = pieces_from(s.drop_first(), Seq::empty());
        assert(pieces_from(s, cur) == head + tail);
        assert forall|i: int| 0 <= i < pieces_from(s, cur).len() implies (#[trigger] pieces_from(s, cur)[i]).len() > 0
            && !pieces_from(s, cur)[i].contains(unit_sep()) by {
            if i < head.len() {
                assert(pieces_from(s, cur)[i] == cur);
            } else {
                assert(pieces_from(s, cur)[i] == tail[i - head.len()]);
            }
        }
    } else {
        let next = cur.push(s[0]);
        assert(!next.contains(unit_sep())) by {
            if next.contains(unit_sep()) {
                let k = choose|k: int| 0 <= k < next.len() && #[trigger] next[k] == unit_sep();
                if k < cur.len() {
                    assert(cur[k] == next[k]);
                }
            }
        }
        lemma_pieces_from_clean(s.drop_first(), next);
        assert(pieces_from(s, cur) == pieces_from(s.drop_first(), next));
    }
}

/// Reading names from a separated string keeps no empty name and no
/// separator.
pub proof fn lemma_pieces_clean(s: Seq<char>)
    ensures
        forall|i: int|
            0 <= i < pieces(s).len() ==> (#[trigger] pieces(s)[i]).len() > 0 && !pieces(s)[i].contains(unit_sep()),
{
    lemma_pieces_from_clean(s, Seq::empty());
}

/// The items that have a string id, in order.
pub open spec fn with_ids(items: Seq<JsonValue>) -> Seq<JsonValue>
    decreases items.len(),
{
    if items.len() == 0 {
        Seq::empty()
    } else if str_of(member(items.last(), "Id"@)) is Some {
        with_ids(items.drop_last()).push(items.last())
    } else {
        with_ids(items.drop_last())
    }
}

/// The songs of the items of a page that can be read, in order: items
/// without an id are passed over.
pub fn readable_songs(items: &Vec<JsonValue>) -> (r: Vec<Song>)
    ensures
        songs_from(r@, with_ids(items@)),
{
    let mut out: Vec<Song> = Vec::new();
    let ghost mut exts: Seq<Option<Seq<char>>> = Seq::empty();
    let mut i: usize = 0;
    while i < items.len()
        invariant
            i <= items@.len(),
            songs_with(out@, with_ids(items@.take(i as int)), exts),
        decreases items@.len() - i,
    {
        let ghost t = items@.take(i + 1);
        assert(t.drop_last() =~= items@.take(i as int));
        assert(t.last() == items@[i as int]);
        let ghost kept = with_ids(items@.take(i as int));
        match parse_single_music_item(&items[i]) {
            Ok(s) => {
                let ghost e = choose|ext: Option<Seq<char>>| item_ext(items@[i as int], ext) && song_from(s, items@[i as int], ext);
                let ghost prev = out@;
                let ghost prev_exts = exts;
                proof {
                    exts = exts.push(e);
                }
                out.push(s);
                assert(with_ids(t) == kept.push(items@[i as int]));
                assert forall|j: int| 0 <= j < out@.len() implies song_from(
                    #[trigger] out@[j],
                    with_ids(t)[j],
                    exts[j],
                ) by {
                    if j < prev.len() {
                        assert(out@[j] == prev[j]);
                        assert(exts[j] == prev_exts[j]);
                        assert(with_ids(t)[j] == kept[j]);
                    }
                }
                assert forall|j: int| 0 <= j < out@.len() implies item_ext(#[trigger] with_ids(t)[j], exts[j]) by {
                    if j < prev.len() {
                        assert(exts[j] == prev_exts[j]);
                        assert(with_ids(t)[j] == kept[j]);
                    }
                }
            },
            Err(_) => {
                assert(with_ids(t) == kept);
            },
        }
        i = i + 1;
    }
    assert(items@.take(i as int) =~= items@);
    assert(songs_with(out@, with_ids(items@), exts));
    out
}

/// The albums of the items of a page, in order.
pub fn page_albums(items: &Vec<JsonValue>) -> (r: Vec<Album>)
    ensures
        r@.len() == items@.len(),
        forall|i: int| 0 <= i < items@.len() ==> album_from(#[trigger] r@[i], items@[i]),
{
    let mut out: Vec<Album> = Vec::new();
    let mut i: usize = 0;
    while i < items.len()
        invariant
            i <= items@.len(),
            out@.len() == i,
            forall|j: int| 0 <= j < i ==> album_from(#[trigger] out@[j], items@[j]),
        decreases items@.len() - i,
    {
        out.push(parse_single_album(&items[i]));
        i = i + 1;
    }
    out
}

/// The artists of the items of a page that can be read, in order: items
/// without an id are passed over.
pub fn readable_artists(items: &Vec<JsonValue>) -> (r: Vec<Artist>)
    ensures
        r@.len() == with_ids(items@).len(),
        forall|i: int| 0 <= i < r@.len() ==> artist_from(#[trigger] r@[i], with_ids(items@)[i]),
{
    let mut out: Vec<Artist> = Vec::new();
    let mut i: usize = 0;
    while i < items.len()
        invariant
            i <= items@.len(),
            out@.len() == with_ids(items@.take(i as int)).len(),
            forall|j: int| 0 <= j < out@.len() ==> artist_from(#[trigger] out@[j], with_ids(items@.take(i as int))[j]),
        decreases items@.len() - i,
    {
        let ghost t = items@.take(i + 1);
        assert(t.drop_last() =~= items@.take(i as int));
        assert(t.last() == items@[i as int]);
        let ghost kept = with_ids(items@.take(i as int));
        match parse_single_artist(&items[i]) {
            Ok(a) => {
                let ghost prev = out@;
                out.push(a);
                assert(with_ids(t) == kept.push(items@[i as int]));
                assert forall|j: int| 0 <= j < out@.len() implies artist_from(#[trigger] out@[j], with_ids(t)[j]) by {
                    if j < prev.len() {
                        assert(out@[j] == prev[j]);
                        assert(with_ids(t)[j] == kept[j]);
                    }
                }
            },
            Err(_) => {
                assert(with_ids(t) == kept);
            },
        }
        i = i + 1;
    }
    assert(items@.take(i as int) =~= items@);
    out
}

} // verus!
