use aurelia::models::Song;
use aurelia::view_data::{
    arrange_home_view, derive_home_view_data, derive_library_data, derive_mobile_home_data,
    home_albums, HomeViewLimits, MobileHomeViewLimits,
};
use rand::rngs::StdRng;
use rand::SeedableRng;

fn song(
    id: &str,
    album_id: Option<&str>,
    album: Option<&str>,
    artist_id: Option<&str>,
    artist: Option<&str>,
    date_created: Option<&str>,
) -> Song {
    Song {
        id: id.to_string(),
        name: format!("Song {id}"),
        item_type: "Audio".to_string(),
        album: album.map(ToString::to_string),
        album_id: album_id.map(ToString::to_string),
        artists: artist.map(|value| vec![value.to_string()]),
        artist_ids: artist_id.map(|value| vec![value.to_string()]),
        path: None,
        duration_bits: Some(180.0f64.to_bits()),
        album_art_url: Some(format!("https://img/{id}.jpg")),
        year: None,
        play_count: Some(1),
        is_favorite: Some(false),
        disc_number: None,
        track_number: None,
        container: None,
        bit_rate: None,
        sample_rate: None,
        codec: None,
        genres: None,
        premiere_date: None,
        date_played: None,
        date_created: date_created.map(ToString::to_string),
        date_modified: None,
        album_artists: None,
        lyrics: None,
        image_tags: None,
    }
}

fn three_albums() -> Vec<Song> {
    vec![
        song("1", Some("alb-1"), Some("Album 1"), Some("art-1"), Some("Artist 1"), Some("2025-01-01")),
        song("2", Some("alb-2"), Some("Album 2"), Some("art-2"), Some("Artist 2"), Some("2025-01-03")),
        song("3", Some("alb-3"), Some("Album 3"), Some("art-3"), Some("Artist 3"), Some("2025-01-02")),
    ]
}

#[test]
fn derive_library_data_builds_artist_and_album_collections() {
    let songs = vec![
        song("1", Some("alb-1"), Some("Album 1"), Some("art-1"), Some("Artist 1"), Some("2025-01-01")),
        song("2", Some("alb-1"), Some("Album 1"), Some("art-1"), Some("Artist 1"), Some("2025-01-02")),
        song("3", Some("alb-2"), Some("Album 2"), Some("art-2"), Some("Artist 2"), Some("2025-01-03")),
    ];

    let derived = derive_library_data(&songs);
    assert_eq!(derived.songs.len(), 3);
    assert_eq!(derived.artists.len(), 2);
    assert_eq!(derived.albums.len(), 2);
}

#[test]
fn derive_library_data_takes_album_from_latest_song() {
    let songs = vec![
        song("1", Some("alb-1"), Some("Old Title"), Some("art-1"), Some("Artist 1"), Some("2025-01-05")),
        song("2", Some("alb-1"), Some("New Title"), Some("art-1"), Some("Artist 1"), Some("2025-01-09")),
        song("3", Some("alb-1"), Some("Tie Title"), Some("art-1"), Some("Artist 1"), Some("2025-01-09")),
        song("4", Some("alb-2"), Some("No Artist"), None, None, Some("2025-01-01")),
    ];
    let derived = derive_library_data(&songs);
    assert_eq!(derived.albums.len(), 1);
    let album = &derived.albums[0];
    assert_eq!(album.id.as_deref(), Some("alb-1"));
    assert_eq!(album.name, "Tie Title");
    assert_eq!(album.song_count, 3);
    assert_eq!(album.artist, "Artist 1");
    assert_eq!(album.artist_id.as_deref(), Some("art-1"));
    assert_eq!(album.date_created.as_deref(), Some("2025-01-09"));
}

#[test]
fn derive_library_data_names_unknown_artists_once() {
    let mut first = song("1", None, None, Some("a"), Some("Named"), None);
    first.artist_ids = Some(vec!["a".to_string(), "b".to_string()]);
    let mut second = song("2", None, None, Some("b"), Some("Other"), None);
    second.artist_ids = Some(vec!["b".to_string(), "c".to_string()]);
    second.artists = None;
    let derived = derive_library_data(&[first, second]);
    let names: Vec<(String, String)> =
        derived.artists.iter().map(|a| (a.id.clone(), a.name.clone())).collect();
    assert_eq!(
        names,
        vec![
            ("a".to_string(), "Named".to_string()),
            ("b".to_string(), "Unknown Artist".to_string()),
            ("c".to_string(), "Unknown Artist".to_string()),
        ]
    );
    assert!(derived.albums.is_empty());
}

#[test]
fn derive_home_view_data_respects_limits_and_sorting() {
    let songs = three_albums();
    let recently_played = vec![songs[0].clone()];
    let limits = HomeViewLimits { featured_albums: 1, random_albums: 2, recently_added_albums: 2 };
    let mut rng = StdRng::seed_from_u64(42);

    let derived = derive_home_view_data(&songs, recently_played.clone(), limits, &mut rng);
    assert_eq!(derived.recently_played, recently_played);
    assert_eq!(derived.recently_added.len(), 2);
    assert_eq!(derived.recently_added[0].id.as_deref(), Some("alb-2"));
    assert_eq!(derived.random_albums.len(), 2);
    assert_eq!(derived.featured_albums.len(), 1);
}

#[test]
fn derive_mobile_home_data_respects_limits_and_sorting() {
    let mut songs = three_albums();
    songs[0].play_count = Some(3);
    songs[1].play_count = Some(8);
    songs[2].play_count = Some(1);
    songs[0].date_played = Some("2025-01-02T12:00:00Z".to_string());
    songs[1].date_played = Some("2025-01-03T12:00:00Z".to_string());

    let limits = MobileHomeViewLimits {
        most_played: 2,
        recently_played: 1,
        album_section: 2,
        featured_albums: 1,
    };
    let mut rng = StdRng::seed_from_u64(42);

    let derived = derive_mobile_home_data(&songs, limits, &mut rng);
    assert_eq!(derived.most_played.len(), 2);
    assert_eq!(derived.most_played[0].id, "2");
    assert_eq!(derived.recently_played.len(), 1);
    assert_eq!(derived.recently_played[0].id, "2");
    assert_eq!(derived.recently_added.len(), 2);
    assert_eq!(derived.random_albums.len(), 2);
    assert_eq!(derived.featured_albums.len(), 1);
}

#[test]
fn arrange_home_view_follows_the_given_order() {
    let songs = three_albums();
    let albums = home_albums(&songs);
    let limits = HomeViewLimits { featured_albums: 1, random_albums: 2, recently_added_albums: 3 };
    let view = arrange_home_view(albums, &[2, 0, 1], Vec::new(), limits);
    let added: Vec<Option<String>> = view.recently_added.iter().map(|a| a.id.clone()).collect();
    assert_eq!(
        added,
        vec![Some("alb-2".to_string()), Some("alb-3".to_string()), Some("alb-1".to_string())]
    );
    let random: Vec<Option<String>> = view.random_albums.iter().map(|a| a.id.clone()).collect();
    assert_eq!(random, vec![Some("alb-3".to_string()), Some("alb-1".to_string())]);
    assert_eq!(view.featured_albums[0].id.as_deref(), Some("alb-3"));
}

#[test]
fn home_albums_count_songs_per_album() {
    let mut songs = three_albums();
    songs.push(song("4", Some("alb-1"), Some("Album 1"), Some("art-1"), Some("Artist 1"), None));
    let albums = home_albums(&songs);
    assert_eq!(albums.len(), 3);
    assert_eq!(albums[0].song_count, 2);
    assert_eq!(albums[0].date_created.as_deref(), Some("2025-01-01"));
    assert_eq!(albums[1].song_count, 1);
}

#[test]
fn recently_added_puts_undated_albums_last() {
    let songs = vec![
        song("1", Some("alb-x"), Some("X"), None, None, None),
        song("2", Some("alb-y"), Some("Y"), None, None, Some("2024-05-05")),
    ];
    let mut rng = StdRng::seed_from_u64(7);
    let view = derive_home_view_data(&songs, Vec::new(), HomeViewLimits::default(), &mut rng);
    assert_eq!(view.recently_added[0].id.as_deref(), Some("alb-y"));
    assert_eq!(view.recently_added[1].id.as_deref(), Some("alb-x"));
    assert_eq!(view.random_albums.len(), 2);
    assert_ne!(view.random_albums[0].id, view.random_albums[1].id);
}

#[test]
fn view_limits_defaults() {
    let home = HomeViewLimits::default();
    assert_eq!((home.featured_albums, home.random_albums, home.recently_added_albums), (20, 20, 20));
    let mobile = MobileHomeViewLimits::default();
    assert_eq!(
        (mobile.most_played, mobile.recently_played, mobile.album_section, mobile.featured_albums),
        (10, 10, 12, 5)
    );
}

#[test]
fn requested_limits_clamp_negatives_and_keep_low_bits() {
    let limits = MobileHomeViewLimits::from_requested(-5, 20, 4_294_967_298, 0);
    assert_eq!(limits.most_played, 0);
    assert_eq!(limits.recently_played, 20);
    assert_eq!(limits.album_section, 2);
    assert_eq!(limits.featured_albums, 0);
}
