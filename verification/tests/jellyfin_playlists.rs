use aurelia::jellyfin_playlists::{
    create_playlist_body, create_playlist_result, parse_single_playlist_item, update_playlist_body,
    update_playlist_result, Playlist, PlaylistCreateData, PlaylistError, PlaylistUpdateData,
};
use aurelia::json::JsonValue;
use aurelia::models::Tag;

fn text(s: &str) -> JsonValue {
    JsonValue::Str(s.to_string())
}

fn num(n: i64) -> JsonValue {
    JsonValue::Number { integer: Some(n), unsigned: if n >= 0 { Some(n as u64) } else { None }, float_bits: (n as f64).to_bits() }
}

fn object(members: Vec<(&str, JsonValue)>) -> JsonValue {
    JsonValue::Object(members.into_iter().map(|(k, v)| (k.to_string(), v)).collect())
}

fn same(a: &JsonValue, b: &JsonValue) -> bool {
    match (a, b) {
        (JsonValue::Null, JsonValue::Null) => true,
        (JsonValue::Bool(x), JsonValue::Bool(y)) => x == y,
        (JsonValue::Str(x), JsonValue::Str(y)) => x == y,
        (
            JsonValue::Number { integer: i1, unsigned: u1, float_bits: f1 },
            JsonValue::Number { integer: i2, unsigned: u2, float_bits: f2 },
        ) => i1 == i2 && u1 == u2 && f1 == f2,
        (JsonValue::Array(x), JsonValue::Array(y)) => {
            x.len() == y.len() && x.iter().zip(y.iter()).all(|(p, q)| same(p, q))
        }
        (JsonValue::Object(x), JsonValue::Object(y)) => {
            x.len() == y.len() && x.iter().zip(y.iter()).all(|(p, q)| p.0 == q.0 && same(&p.1, &q.1))
        }
        _ => false,
    }
}

fn create_data(ids: Option<Vec<&str>>) -> PlaylistCreateData {
    PlaylistCreateData {
        name: "Road trip".to_string(),
        ids: ids.map(|v| v.into_iter().map(String::from).collect()),
        user_id: "u1".to_string(),
        is_public: None,
    }
}

fn update_data(name: Option<&str>, ids: Option<Vec<&str>>) -> PlaylistUpdateData {
    PlaylistUpdateData {
        name: name.map(String::from),
        ids: ids.map(|v| v.into_iter().map(String::from).collect()),
        user_id: None,
        is_public: Some(true),
        songs: None,
        is_favorite: None,
    }
}

fn assert_built(p: &Playlist, name: &str, server: &str, id: &str, count: i32) {
    assert_eq!(p.name, name);
    assert_eq!(p.server_id, server);
    assert_eq!(p.id, id);
    assert_eq!(p.can_delete, Some(true));
    assert!(p.is_folder);
    assert_eq!(p.item_type, "Playlist");
    assert_eq!(p.location_type, "Virtual");
    assert_eq!(p.child_count, Some(count));
    assert_eq!(p.user_data, None);
    assert_eq!(p.is_favorite, None);
}

#[test]
fn create_body_defaults_to_private() {
    let b = create_playlist_body(&create_data(Some(vec!["s1", "s2"])));
    assert!(same(
        &b,
        &object(vec![
            ("Name", text("Road trip")),
            ("Ids", JsonValue::Array(vec![text("s1"), text("s2")])),
            ("UserId", text("u1")),
            ("IsPublic", JsonValue::Bool(false)),
        ])
    ));
}

#[test]
fn update_body_keeps_absent_fields_null() {
    let b = update_playlist_body(&update_data(None, None));
    assert!(same(
        &b,
        &object(vec![
            ("Name", JsonValue::Null),
            ("Ids", JsonValue::Null),
            ("UserId", JsonValue::Null),
            ("IsPublic", JsonValue::Bool(true)),
        ])
    ));
}

#[test]
fn create_result_builds_from_a_simple_reply() {
    let data = create_data(Some(vec!["s1", "s2", "s3"]));
    let r = create_playlist_result("http://host", &data, None, r#"{"Id":"p9","Name":"Mix"}"#).unwrap();
    assert_built(&r, "Mix", "http://host", "p9", 3);
    let untitled = create_playlist_result("http://host", &data, None, r#"{"Id":"p9"}"#).unwrap();
    assert_eq!(untitled.name, "Untitled Playlist");
}

#[test]
fn create_result_errors() {
    let data = create_data(None);
    assert_eq!(create_playlist_result("h", &data, None, "not json"), Err(PlaylistError::InvalidJson));
    assert_eq!(
        create_playlist_result("h", &data, None, r#"{"Name":"Mix"}"#),
        Err(PlaylistError::MissingIdInResponse)
    );
    assert_eq!(PlaylistError::InvalidJson.message(), "Failed to parse playlist response from server");
}

#[test]
fn create_result_prefers_the_parsed_playlist() {
    let data = create_data(None);
    let parsed = create_playlist_result("h", &data, None, r#"{"Id":"x"}"#).unwrap();
    let mut server = parsed.clone();
    server.name = "From server".to_string();
    let r = create_playlist_result("h", &data, Some(server.clone()), "whatever").unwrap();
    assert_eq!(r, server);
}

#[test]
fn update_result_with_blank_reply_uses_the_request() {
    let r = update_playlist_result("h", "p1", &update_data(Some("New"), Some(vec!["a"])), None, "  \n").unwrap();
    assert_built(&r, "New", "h", "p1", 1);
    let r = update_playlist_result("h", "p1", &update_data(None, None), None, "").unwrap();
    assert_built(&r, "Untitled Playlist", "h", "p1", 0);
}

#[test]
fn update_result_from_reply() {
    let r = update_playlist_result("h", "p1", &update_data(None, None), None, r#"{"Name":"Renamed"}"#).unwrap();
    assert_built(&r, "Renamed", "h", "p1", 0);
    let r = update_playlist_result("h", "p1", &update_data(None, None), None, r#"{"Id":"p2"}"#).unwrap();
    assert_eq!(r.id, "p2");
    assert_eq!(
        update_playlist_result("h", "p1", &update_data(None, None), None, "<html>"),
        Err(PlaylistError::InvalidJson)
    );
}

#[test]
fn playlist_item_is_read() {
    let item = object(vec![
        ("Id", text("pl1")),
        ("Name", text("Favourites")),
        ("ServerId", text("srv")),
        ("ChildCount", num(12)),
        ("UserData", object(vec![("IsFavorite", JsonValue::Bool(true)), ("PlayCount", num(3))])),
        ("ImageTags", object(vec![("Primary", text("abc"))])),
        ("BackdropImageTags", JsonValue::Array(vec![text("b1"), num(1)])),
        ("ImageBlurHashes", object(vec![("Primary", object(vec![("abc", text("hash"))])), ("Odd", text("x"))])),
    ]);
    let p = parse_single_playlist_item(&item).unwrap();
    assert_eq!(p.id, "pl1");
    assert_eq!(p.name, "Favourites");
    assert_eq!(p.server_id, "srv");
    assert_eq!(p.child_count, Some(12));
    assert_eq!(p.is_favorite, Some(true));
    let ud = p.user_data.unwrap();
    assert_eq!(ud.play_count, 3);
    assert!(!ud.played);
    assert_eq!(p.image_tags, Some(vec![Tag { key: "Primary".to_string(), value: "abc".to_string() }]));
    assert_eq!(p.backdrop_image_tags, Some(vec!["b1".to_string()]));
    let blur = p.image_blur_hashes.unwrap();
    assert_eq!(blur.len(), 1);
    assert_eq!(blur[0].image_type, "Primary");
    assert_eq!(p.item_type, "Playlist");
    assert_eq!(p.location_type, "Virtual");
    assert!(p.is_folder);
}

#[test]
fn playlist_item_defaults_and_missing_id() {
    let p = parse_single_playlist_item(&object(vec![("Id", text("x"))])).unwrap();
    assert_eq!(p.name, "Untitled Playlist");
    assert_eq!(p.server_id, "");
    assert_eq!(p.is_favorite, Some(false));
    assert_eq!(p.user_data, None);
    assert_eq!(p.image_tags, None);
    assert_eq!(
        parse_single_playlist_item(&object(vec![("Name", text("x"))])),
        Err(PlaylistError::MissingPlaylistId)
    );
}
