use aurelia::jellyfin_items::{
    extract_album_artists, extract_artist_ids, extract_artists, extract_genres, image_target,
    parse_music_items, parse_single_album, parse_single_artist, parse_single_music_item,
    primary_image_url, artist_image_present, ItemParseError,
};
use aurelia::json::JsonValue;

fn s(t: &str) -> JsonValue {
    JsonValue::Str(t.to_string())
}

fn num(n: i64) -> JsonValue {
    JsonValue::Number { integer: Some(n), unsigned: if n >= 0 { Some(n as u64) } else { None }, float_bits: (n as f64).to_bits() }
}

fn obj(members: Vec<(&str, JsonValue)>) -> JsonValue {
    JsonValue::Object(members.into_iter().map(|(k, v)| (k.to_string(), v)).collect())
}

fn arr(items: Vec<JsonValue>) -> JsonValue {
    JsonValue::Array(items)
}

fn full_item() -> JsonValue {
    obj(vec![
        ("Id", s("song-1")),
        ("Name", s("Track One")),
        ("Type", s("Audio")),
        ("Album", s("Album A")),
        ("AlbumId", s("album-a")),
        ("RunTimeTicks", num(1_800_000_000)),
        ("ProductionYear", num(2021)),
        ("ParentIndexNumber", num(1)),
        ("IndexNumber", num(3)),
        ("PremiereDate", s("2021-05-01")),
        ("DateCreated", s("2024-01-01")),
        ("DateLastModified", s("2024-02-01")),
        ("Path", s("/music/a/track.FLAC")),
        (
            "UserData",
            obj(vec![
                ("PlayCount", num(7)),
                ("IsFavorite", JsonValue::Bool(true)),
                ("LastPlayedDate", s("2025-01-02")),
            ]),
        ),
        (
            "MediaStreams",
            arr(vec![
                obj(vec![("Type", s("Video")), ("Codec", s("mjpeg"))]),
                obj(vec![
                    ("Type", s("Audio")),
                    ("Codec", s("flac")),
                    ("BitRate", num(900_000)),
                    ("SampleRate", num(44100)),
                ]),
            ]),
        ),
        (
            "ArtistItems",
            arr(vec![obj(vec![("Name", s("Singer\u{1f}Guest")), ("Id", s("ar-1\u{1f}ar-2"))])]),
        ),
        ("Genres", arr(vec![s("Rock"), s("Pop\u{1f}\u{1f}Indie")])),
        (
            "AlbumArtists",
            arr(vec![
                obj(vec![("Id", s("ar-1")), ("Name", s("Singer"))]),
                obj(vec![("Name", s("No Id"))]),
            ]),
        ),
        ("ImageTags", obj(vec![("Primary", s("tag-1")), ("Logo", num(3))])),
    ])
}

#[test]
fn music_item_fields_are_read() {
    let song = parse_single_music_item(&full_item()).unwrap();
    assert_eq!(song.id, "song-1");
    assert_eq!(song.name, "Track One");
    assert_eq!(song.item_type, "Audio");
    assert_eq!(song.album, Some("Album A".to_string()));
    assert_eq!(song.album_id, Some("album-a".to_string()));
    assert_eq!(song.artists, Some(vec!["Singer".to_string(), "Guest".to_string()]));
    assert_eq!(song.artist_ids, Some(vec!["ar-1".to_string(), "ar-2".to_string()]));
    assert_eq!(song.year, Some(2021));
    assert_eq!(song.disc_number, Some(1));
    assert_eq!(song.track_number, Some(3));
    assert_eq!(song.play_count, Some(7));
    assert_eq!(song.is_favorite, Some(true));
    assert_eq!(song.date_played, Some("2025-01-02".to_string()));
    assert_eq!(song.bit_rate, Some(900_000));
    assert_eq!(song.sample_rate, Some(44100));
    assert_eq!(song.codec, Some("flac".to_string()));
    // No "Container": the path's extension, lowercased.
    assert_eq!(song.container, Some("flac".to_string()));
    assert_eq!(song.genres, Some(vec!["Rock".to_string(), "Pop".to_string(), "Indie".to_string()]));
    let pairs: Vec<(String, String)> =
        song.album_artists.unwrap().into_iter().map(|p| (p.id, p.name)).collect();
    assert_eq!(pairs, vec![("ar-1".to_string(), "Singer".to_string())]);
    let tags: Vec<(String, String)> =
        song.image_tags.unwrap().into_iter().map(|t| (t.key, t.value)).collect();
    assert_eq!(tags, vec![("Primary".to_string(), "tag-1".to_string())]);
    assert_eq!(song.duration_bits, None);
    assert_eq!(song.album_art_url, None);
    assert_eq!(song.lyrics, None);
}

#[test]
fn music_item_defaults_and_fallbacks() {
    let item = obj(vec![
        ("Id", s("x")),
        ("ParentId", s("parent-9")),
        ("Container", s("mp3")),
        ("Path", s("/a/b.FLAC")),
        ("ProductionYear", num(5_000_000_000)),
        ("Artists", arr(vec![s("A"), num(1), s("")])),
    ]);
    let song = parse_single_music_item(&item).unwrap();
    assert_eq!(song.name, "");
    assert_eq!(song.item_type, "");
    assert_eq!(song.album_id, Some("parent-9".to_string()));
    assert_eq!(song.container, Some("mp3".to_string()));
    // Out of range for an i32.
    assert_eq!(song.year, None);
    // A string without a separator stands for itself, even when empty.
    assert_eq!(song.artists, Some(vec!["A".to_string(), "".to_string()]));
    assert_eq!(song.artist_ids, None);
    assert_eq!(song.play_count, None);
    assert_eq!(song.bit_rate, None);
    assert_eq!(song.image_tags, None);
}

#[test]
fn music_item_without_id_is_refused() {
    let item = obj(vec![("Name", s("No id"))]);
    assert_eq!(parse_single_music_item(&item).err(), Some(ItemParseError::MissingItemId));
    assert_eq!(ItemParseError::MissingItemId.message(), "Missing item ID");
}

#[test]
fn artist_strings_split_on_separator() {
    let item = obj(vec![("Artists", s("\u{1f}One\u{1f}\u{1f}Two\u{1f}"))]);
    assert_eq!(extract_artists(&item), Some(vec!["One".to_string(), "Two".to_string()]));
    let only_separators = obj(vec![("Artists", s("\u{1f}\u{1f}"))]);
    assert_eq!(extract_artists(&only_separators), None);
    let genres = obj(vec![("Genres", s("Jazz"))]);
    assert_eq!(extract_genres(&genres), Some(vec!["Jazz".to_string()]));
    assert_eq!(extract_genres(&obj(vec![])), None);
}

#[test]
fn artist_ids_fall_back_to_string_items() {
    let item = obj(vec![("ArtistItems", arr(vec![s("a1\u{1f}a2"), s("a3")]))]);
    assert_eq!(
        extract_artist_ids(&item),
        Some(vec!["a1".to_string(), "a2".to_string(), "a3".to_string()])
    );
    let none = obj(vec![("ArtistItems", arr(vec![num(1)]))]);
    assert_eq!(extract_artist_ids(&none), None);
    // String items that give no name still give a (empty) list.
    let empty = obj(vec![("ArtistItems", arr(vec![s("\u{1f}")]))]);
    assert_eq!(extract_artist_ids(&empty), Some(vec![]));
}

#[test]
fn album_artists_need_id_and_name() {
    let item = obj(vec![("AlbumArtists", arr(vec![obj(vec![("Name", s("N"))])]))]);
    assert!(extract_album_artists(&item).is_none());
}

#[test]
fn image_targets_follow_album_or_primary_tag() {
    let on_album = obj(vec![("Id", s("song")), ("AlbumId", s("album"))]);
    assert_eq!(image_target(&on_album, Some("song")), Some("album".to_string()));
    let tagged = obj(vec![("Id", s("self")), ("ImageTags", obj(vec![("Primary", s("t"))]))]);
    assert_eq!(image_target(&tagged, None), Some("self".to_string()));
    assert_eq!(image_target(&tagged, Some("given")), Some("given".to_string()));
    let plain = obj(vec![("Id", s("self")), ("ImageTags", obj(vec![("Primary", num(1))]))]);
    assert_eq!(image_target(&plain, None), None);
    assert_eq!(
        primary_image_url("http://srv/Items/a/Images/Primary".to_string(), Some("tok")),
        "http://srv/Items/a/Images/Primary?api_key=tok"
    );
    assert_eq!(primary_image_url("u".to_string(), None), "u");
}

#[test]
fn album_defaults() {
    let album = parse_single_album(&obj(vec![("Artists", arr(vec![num(3)]))]));
    assert_eq!(album.id, None);
    assert_eq!(album.name, "Unknown Album");
    assert_eq!(album.artist, "Unknown Artist");
    assert_eq!(album.song_count, 0);
    let album = parse_single_album(&obj(vec![
        ("Id", s("al")),
        ("Name", s("Named")),
        ("Artists", arr(vec![s("First"), s("Second")])),
        ("AlbumArtists", arr(vec![obj(vec![("Id", s("ar"))])])),
        ("SongCount", num(12)),
        ("ProviderIds", obj(vec![("MusicBrainzAlbum", s("mb")), ("Other", JsonValue::Null)])),
    ]));
    assert_eq!(album.name, "Named");
    assert_eq!(album.artist, "First");
    assert_eq!(album.artist_id, Some("ar".to_string()));
    assert_eq!(album.song_count, 12);
    let ids: Vec<(String, String)> = album.provider_ids.unwrap().into_iter().map(|t| (t.key, t.value)).collect();
    assert_eq!(ids, vec![("MusicBrainzAlbum".to_string(), "mb".to_string())]);
}

#[test]
fn artist_overview_trimmed_and_id_required() {
    let artist = parse_single_artist(&obj(vec![
        ("Id", s("ar")),
        ("Overview", s("  Bio text \n")),
        ("CommunityRating", JsonValue::Number { integer: None, unsigned: None, float_bits: 7.5f64.to_bits() }),
        ("ImageTags", obj(vec![("Primary", num(0))])),
    ]))
    .unwrap();
    assert_eq!(artist.overview, Some("Bio text".to_string()));
    assert_eq!(artist.community_rating_bits, Some(7.5f64.to_bits()));
    assert_eq!(artist.name, "");
    let blank = parse_single_artist(&obj(vec![("Id", s("ar")), ("Overview", s("   "))])).unwrap();
    assert_eq!(blank.overview, None);
    assert!(artist_image_present(&obj(vec![("ImageTags", obj(vec![("Primary", num(0))]))])));
    assert!(!artist_image_present(&obj(vec![("ImageTags", obj(vec![]))])));
    assert_eq!(
        parse_single_artist(&obj(vec![("Name", s("x"))])).err(),
        Some(ItemParseError::MissingArtistId)
    );
}

#[test]
fn item_lists_are_read_in_order() {
    let response = obj(vec![(
        "Items",
        arr(vec![obj(vec![("Id", s("1"))]), obj(vec![("Id", s("2"))])]),
    )]);
    let songs = parse_music_items(&response).unwrap();
    let ids: Vec<String> = songs.into_iter().map(|s| s.id).collect();
    assert_eq!(ids, vec!["1".to_string(), "2".to_string()]);
    assert_eq!(
        parse_music_items(&obj(vec![])).err(),
        Some(ItemParseError::InvalidResponse)
    );
    let bad = obj(vec![("Items", arr(vec![obj(vec![("Id", s("1"))]), obj(vec![])]))]);
    assert_eq!(parse_music_items(&bad).err(), Some(ItemParseError::MissingItemId));
}
