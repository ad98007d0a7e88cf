use aurelia::json::JsonValue;
use aurelia::jellyfin_playlists::PlaylistUpdateData;
use aurelia::navidrome::{parse_playlist, updated_playlist};
use aurelia::navidrome::{
    add_playlist_items_params, build_navidrome_url, create_playlist_params, favorite_endpoint,
    parse_album, parse_album_with_salt, parse_artist_with_salt, parse_song, parse_song_with_salt,
    remove_playlist_items_params, scrobble_params, starred_song_ids, subsonic_root,
    update_playlist_params, value_array, NavidromeClient, SubsonicError,
};

fn s(t: &str) -> JsonValue {
    JsonValue::Str(t.to_string())
}

fn num(n: i64) -> JsonValue {
    JsonValue::Number { integer: Some(n), unsigned: if n >= 0 { Some(n as u64) } else { None }, float_bits: (n as f64).to_bits() }
}

fn obj(members: Vec<(&str, JsonValue)>) -> JsonValue {
    JsonValue::Object(members.into_iter().map(|(k, v)| (k.to_string(), v)).collect())
}

fn pairs(v: &[(&str, &str)]) -> Vec<(String, String)> {
    v.iter().map(|(a, b)| (a.to_string(), b.to_string())).collect()
}

fn client() -> NavidromeClient {
    NavidromeClient::with_auth("http://nd.local/".to_string(), "alice".to_string(), "pw".to_string())
}

const SALT: &str = "0123456789abcdef0123456789abcdef";

fn token() -> String {
    format!("{:x}", md5::compute(format!("pw{SALT}")))
}

#[test]
fn urls_encode_each_parameter() {
    let url = build_navidrome_url(
        "http://nd.local//",
        "search3",
        &pairs(&[("query", "a b&c"), ("f", "json")]),
    );
    assert_eq!(url, "http://nd.local/rest/search3.view?query=a%20b%26c&f=json");
    assert_eq!(build_navidrome_url("http://x", "ping", &[]), "http://x/rest/ping.view?");
}

#[test]
fn auth_query_carries_salted_token() {
    let q = client().auth_query_with_salt(SALT);
    assert_eq!(
        q,
        pairs(&[
            ("u", "alice"),
            ("t", &token()),
            ("s", SALT),
            ("v", "1.16.1"),
            ("c", "aurelia"),
            ("f", "json"),
        ])
    );
    let fresh = client().auth_query();
    assert_eq!(fresh.len(), 6);
    assert_eq!(fresh[2].1.len(), 32);
    assert!(fresh[2].1.chars().all(|c| c.is_ascii_hexdigit() && !c.is_ascii_uppercase()));
    assert_eq!(fresh[1].1, format!("{:x}", md5::compute(format!("pw{}", fresh[2].1))));
}

#[test]
fn stream_and_cover_urls() {
    let c = client();
    let url = c.item_url_with_salt("stream", "song 1", SALT);
    assert_eq!(
        url,
        format!("http://nd.local/rest/stream.view?u=alice&t={}&s={SALT}&v=1.16.1&c=aurelia&f=json&id=song%201", token())
    );
    let stream = c.get_audio_stream_url("s1", Some("flac"));
    assert!(stream.starts_with("http://nd.local/rest/stream.view?u=alice&t="));
    assert!(stream.ends_with("&id=s1"));
    let cover = c.get_cover_art_url("al-1");
    assert!(cover.starts_with("http://nd.local/rest/getCoverArt.view?u=alice&t="));
    assert!(cover.ends_with("&v=1.16.1&c=aurelia&f=json&id=al-1"));
    assert!(NavidromeClient::new("http://x".to_string()).username.is_empty());
}

#[test]
fn subsonic_root_unwraps_or_fails() {
    let ok = obj(vec![("subsonic-response", obj(vec![("status", s("ok")), ("version", s("1"))]))]);
    let root = subsonic_root(&ok).unwrap();
    assert!(matches!(root, JsonValue::Object(m) if m.len() == 2));
    assert_eq!(subsonic_root(&obj(vec![])).err(), Some(SubsonicError::MissingWrapper));
    let failed = obj(vec![(
        "subsonic-response",
        obj(vec![("status", s("failed")), ("error", obj(vec![("message", s("Wrong username or password"))]))]),
    )]);
    assert_eq!(
        subsonic_root(&failed).err(),
        Some(SubsonicError::Failed("Wrong username or password".to_string()))
    );
    let failed_silently = obj(vec![("subsonic-response", obj(vec![("status", s("failed"))]))]);
    let err = subsonic_root(&failed_silently).err().unwrap();
    assert_eq!(err.message(), "Unknown Subsonic API error");
    assert_eq!(SubsonicError::MissingWrapper.message(), "Missing subsonic-response wrapper");
}

#[test]
fn song_fields_are_read() {
    let song = obj(vec![
        ("id", s("s1")),
        ("title", s("Title")),
        ("album", s("Alb")),
        ("albumId", s("al1")),
        ("artist", s("Art")),
        ("artistId", s("ar1")),
        ("duration", num(215)),
        ("year", num(1999)),
        ("playCount", num(4)),
        ("discNumber", num(1)),
        ("track", num(2)),
        ("bitRate", num(320)),
        ("samplingRate", num(48000)),
        ("contentType", s("audio/mpeg")),
        ("genre", s("Rock")),
        ("created", s("2024-01-01")),
        ("changed", s("2024-02-02")),
        ("starred", s("2024-03-03")),
    ]);
    let c = client();
    let parsed = parse_song_with_salt(&c, &song, SALT).unwrap();
    assert_eq!(parsed.id, "s1");
    assert_eq!(parsed.name, "Title");
    assert_eq!(parsed.item_type, "Audio");
    assert_eq!(parsed.artists, Some(vec!["Art".to_string()]));
    assert_eq!(parsed.artist_ids, Some(vec!["ar1".to_string()]));
    assert_eq!(parsed.duration_bits, Some(215f64.to_bits()));
    assert_eq!(parsed.bit_rate, Some(320_000));
    assert_eq!(parsed.sample_rate, Some(48000));
    assert_eq!(parsed.container, Some("mpeg".to_string()));
    assert_eq!(parsed.codec, Some("mpeg".to_string()));
    assert_eq!(parsed.is_favorite, Some(true));
    assert_eq!(parsed.genres, Some(vec!["Rock".to_string()]));
    assert_eq!(parsed.premiere_date, Some("2024-01-01".to_string()));
    assert_eq!(parsed.date_modified, Some("2024-02-02".to_string()));
    assert_eq!(parsed.image_tags, None);
    assert_eq!(parsed.album_art_url, Some(c.item_url_with_salt("getCoverArt", "al1", SALT)));
    let pairs: Vec<(String, String)> =
        parsed.album_artists.unwrap().into_iter().map(|p| (p.id, p.name)).collect();
    assert_eq!(pairs, vec![("ar1".to_string(), "Art".to_string())]);
}

#[test]
fn song_defaults_and_narrowing() {
    let song = obj(vec![
        ("id", s("s2")),
        ("coverArt", s("cv")),
        ("suffix", s("flac")),
        ("year", num(4_294_967_297)),
        ("bitRate", num(128_000)),
    ]);
    let parsed = parse_song(&client(), &song).unwrap();
    assert_eq!(parsed.name, "Unknown");
    assert_eq!(parsed.is_favorite, Some(false));
    assert_eq!(parsed.container, Some("flac".to_string()));
    // `as i32` keeps the low 32 bits.
    assert_eq!(parsed.year, Some(1));
    assert_eq!(parsed.bit_rate, Some(128_000));
    let tags: Vec<(String, String)> = parsed.image_tags.unwrap().into_iter().map(|t| (t.key, t.value)).collect();
    assert_eq!(tags, vec![("Primary".to_string(), "cv".to_string())]);
    assert!(parsed.album_art_url.unwrap().ends_with("&id=cv"));
    assert_eq!(parsed.album_artists, None);
    assert_eq!(
        parse_song(&client(), &obj(vec![("title", s("t"))])).err(),
        Some(SubsonicError::SongMissingId)
    );
}

#[test]
fn artists_and_albums() {
    let c = client();
    let artist = parse_artist_with_salt(&c, &obj(vec![("albumCount", num(3)), ("coverArt", s("ca"))]), SALT);
    assert_eq!(artist.name, "Unknown Artist");
    assert_eq!(artist.id, "");
    assert_eq!(artist.song_count, Some(3));
    assert_eq!(artist.image_url, Some(c.item_url_with_salt("getCoverArt", "ca", SALT)));

    let album = parse_album_with_salt(&c, &obj(vec![("title", s("By Title")), ("songCount", num(9))]), SALT);
    assert_eq!(album.name, "By Title");
    assert_eq!(album.artist, "Unknown Artist");
    assert_eq!(album.song_count, 9);
    assert_eq!(album.album_art_url, None);
    // A "name" that is no string is not replaced by the title.
    let album = parse_album(&c, &obj(vec![("name", num(1)), ("title", s("T"))]));
    assert_eq!(album.name, "Unknown Album");
}

#[test]
fn value_lists() {
    let a = JsonValue::Array(vec![s("x"), s("y")]);
    assert_eq!(value_array(Some(&a)).len(), 2);
    assert_eq!(value_array(Some(&JsonValue::Null)).len(), 0);
    assert_eq!(value_array(None).len(), 0);
    assert_eq!(value_array(Some(&s("single"))).len(), 1);
    let songs = vec![obj(vec![("id", s("a"))]), obj(vec![]), obj(vec![("id", s("b"))])];
    let refs: Vec<&JsonValue> = songs.iter().collect();
    assert_eq!(starred_song_ids(&refs), vec!["a".to_string(), "b".to_string()]);
}

#[test]
fn request_parameters() {
    assert_eq!(
        scrobble_params("s1", Some(1_234_567_890), true),
        pairs(&[("id", "s1"), ("submission", "true"), ("time", "123")])
    );
    assert_eq!(
        scrobble_params("s1", Some(-15_000_000), false),
        pairs(&[("id", "s1"), ("submission", "false"), ("time", "-1")])
    );
    assert_eq!(scrobble_params("s1", None, false), pairs(&[("id", "s1"), ("submission", "false")]));
    assert_eq!(favorite_endpoint(true), "star");
    assert_eq!(favorite_endpoint(false), "unstar");
    let ids = vec!["a".to_string(), "b".to_string()];
    assert_eq!(
        create_playlist_params("Mix", Some(&ids)),
        pairs(&[("name", "Mix"), ("songId", "a"), ("songId", "b")])
    );
    assert_eq!(create_playlist_params("Mix", None), pairs(&[("name", "Mix")]));
    assert_eq!(
        add_playlist_items_params("p1", &ids),
        pairs(&[("playlistId", "p1"), ("songIdToAdd", "a"), ("songIdToAdd", "b")])
    );
}

#[test]
fn playlist_removal_lists_positions_last_first() {
    let existing = vec!["a".to_string(), "b".to_string(), "a".to_string(), "c".to_string()];
    let remove = vec!["a".to_string(), "c".to_string()];
    assert_eq!(
        remove_playlist_items_params("p1", &existing, &remove),
        pairs(&[
            ("playlistId", "p1"),
            ("songIndexToRemove", "3"),
            ("songIndexToRemove", "2"),
            ("songIndexToRemove", "0"),
        ])
    );
    assert_eq!(remove_playlist_items_params("p1", &existing, &[]), pairs(&[("playlistId", "p1")]));
}

#[test]
fn playlist_update_replaces_every_song() {
    let ids = vec!["x".to_string()];
    assert_eq!(
        update_playlist_params("p1", Some("New"), Some(&ids), 3),
        pairs(&[
            ("playlistId", "p1"),
            ("name", "New"),
            ("songIndexToRemove", "2"),
            ("songIndexToRemove", "1"),
            ("songIndexToRemove", "0"),
            ("songIdToAdd", "x"),
        ])
    );
    assert_eq!(update_playlist_params("p1", None, None, 3), pairs(&[("playlistId", "p1")]));
}

#[test]
fn navidrome_playlist_is_read() {
    let c = client();
    let pl = obj(vec![
        ("id", s("pl1")),
        ("name", s("Mix")),
        ("songCount", num(4)),
        ("duration", num(90)),
        ("coverArt", s("pl-1")),
        ("created", s("2024-01-01")),
    ]);
    let p = parse_playlist(&c, &pl);
    assert_eq!(p.id, "pl1");
    assert_eq!(p.name, "Mix");
    assert_eq!(p.server_id, c.server_url);
    assert_eq!(p.child_count, Some(4));
    assert_eq!(p.run_time_ticks, Some(900_000_000));
    assert_eq!(p.image_tags.as_ref().map(|t| t[0].value.clone()), Some("pl-1".to_string()));
    assert_eq!(p.media_type, Some("Audio".to_string()));
    assert_eq!(p.date_created, Some("2024-01-01".to_string()));
    let bare = parse_playlist(&c, &obj(vec![]));
    assert_eq!(bare.name, "Playlist");
    assert_eq!(bare.id, "");
    assert_eq!(bare.image_tags, None);
}

#[test]
fn navidrome_updated_playlist_falls_back() {
    let c = client();
    let updates = PlaylistUpdateData {
        name: None,
        ids: Some(vec!["a".to_string(), "b".to_string()]),
        user_id: None,
        is_public: None,
        songs: None,
        is_favorite: None,
    };
    let p = updated_playlist(&c, "p7", &updates, None);
    assert_eq!(p.name, "Playlist");
    assert_eq!(p.id, "p7");
    assert_eq!(p.child_count, Some(2));
    let songs = p.songs.unwrap();
    assert_eq!(songs.len(), 2);
    assert_eq!(songs[1].id, "b");
    assert_eq!(songs[1].name, "Unknown");
    assert_eq!(songs[1].item_type, "Audio");
}
