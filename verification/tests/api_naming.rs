use aurelia::api_naming::{to_camel_case, to_pascal_case, uses_body, HttpMethod};

#[test]
fn body_methods() {
    assert!(uses_body(&HttpMethod::Post));
    assert!(uses_body(&HttpMethod::Put));
    assert!(uses_body(&HttpMethod::Patch));
    assert!(!uses_body(&HttpMethod::Get));
    assert!(!uses_body(&HttpMethod::Delete));
}

#[test]
fn pascal_case_of_snake_names() {
    assert_eq!(to_pascal_case("get_song_share_urls"), "GetSongShareUrls");
    assert_eq!(to_pascal_case("ABC_dEF"), "AbcDef");
    assert_eq!(to_pascal_case("a__b_"), "AB");
    assert_eq!(to_pascal_case(""), "");
    assert_eq!(to_pascal_case("ßx"), "SSx");
}

#[test]
fn camel_case_of_snake_names() {
    assert_eq!(to_camel_case("get_song_share_urls"), "getSongShareUrls");
    assert_eq!(to_camel_case("Song_id"), "songId");
    assert_eq!(to_camel_case("_leading"), "Leading");
    assert_eq!(to_camel_case("trailing_"), "trailing");
    assert_eq!(to_camel_case(""), "");
}
