use aurelia::models::{Artist, Song};
use aurelia::related_artists::related_artists;

fn artist(id: &str, name: &str) -> Artist {
    Artist {
        name: name.to_string(),
        id: id.to_string(),
        image_tags: None,
        image_url: None,
        overview: None,
        provider_ids: None,
        community_rating_bits: None,
        song_count: None,
        date_modified: None,
        songs: None,
    }
}

fn song(id: &str, artists: &[&str], album: &str, genres: &[&str]) -> Song {
    Song {
        id: id.to_string(),
        name: id.to_string(),
        item_type: "Audio".to_string(),
        album: Some(album.to_string()),
        album_id: None,
        artists: Some(artists.iter().map(|s| s.to_string()).collect()),
        artist_ids: None,
        path: None,
        duration_bits: None,
        album_art_url: None,
        year: None,
        play_count: None,
        is_favorite: None,
        disc_number: None,
        track_number: None,
        container: None,
        bit_rate: None,
        sample_rate: None,
        codec: None,
        genres: Some(genres.iter().map(|s| s.to_string()).collect()),
        premiere_date: None,
        date_played: None,
        date_created: None,
        date_modified: None,
        album_artists: None,
        lyrics: None,
        image_tags: None,
    }
}

fn ids(v: &[Artist]) -> Vec<String> {
    v.iter().map(|a| a.id.clone()).collect()
}

#[test]
fn related_artists_are_ranked_by_score() {
    let artists = vec![
        artist("a", "Alpha"),
        artist("g", "Gamma"),
        artist("b", "Beta"),
        artist("d", "Delta"),
        artist("e", "Epsilon"),
    ];
    let songs = vec![
        song("1", &["Alpha"], "One", &["Rock", "Jazz"]),
        song("2", &["Alpha", "Beta"], "Two", &["Pop"]),
        song("3", &["Gamma"], "Three", &["Rock", "Jazz", "Rock"]),
        song("4", &["Delta"], "One", &["Folk"]),
        song("5", &["Epsilon"], "Five", &["Metal"]),
    ];
    // Beta: one collaboration (10) and the shared genre Pop (5) = 15.
    // Gamma: two shared genres = 10. Delta: one shared album = 2.
    let r = related_artists("a", &artists, &songs).unwrap();
    assert_eq!(ids(&r), vec!["b", "g", "d"]);
}

#[test]
fn related_artists_of_unknown_artist() {
    assert!(related_artists("zz", &[artist("a", "Alpha")], &[]).is_none());
}

#[test]
fn related_artists_keep_at_most_six() {
    let mut artists = vec![artist("a", "Alpha")];
    let mut songs = vec![song("0", &["Alpha"], "X", &["Rock"])];
    for i in 0..8 {
        let name = format!("N{i}");
        artists.push(artist(&format!("n{i}"), &name));
        songs.push(song(&format!("s{i}"), &[name.as_str()], "Y", &["Rock"]));
    }
    let r = related_artists("a", &artists, &songs).unwrap();
    assert_eq!(r.len(), 6);
    assert!(r.iter().all(|x| x.id != "a"));
}
