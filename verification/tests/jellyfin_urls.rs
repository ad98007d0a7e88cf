use aurelia::jellyfin_urls::{
    append_incremental_date_filter, build_image_url, image_extension_from_content_type,
    normalize_bitrate_to_bps, parse_server_date, server_date_or_now, build_mobile_stream_url,
    build_desktop_stream_url, get_audio_stream_url, get_mobile_audio_stream_url,
};

#[test]
fn jellyfin_append_incremental_date_filter_encodes_timezone_offset() {
    let mut query = "/Items?userId=test".to_string();
    append_incremental_date_filter(&mut query, Some("2026-02-12T18:10:22+00:00"));

    assert!(query.contains("minDateLastSaved=2026-02-12T18%3A10%3A22%2B00%3A00"));
    assert!(query.contains("minDateLastSavedForUser=2026-02-12T18%3A10%3A22%2B00%3A00"));
}

#[test]
fn jellyfin_append_incremental_date_filter_noop_without_date() {
    let mut query = "/Items?userId=test".to_string();
    append_incremental_date_filter(&mut query, None);
    assert_eq!(query, "/Items?userId=test");
}

#[test]
fn incremental_append_incremental_date_filter_encodes_timezone_offset() {
    let mut query = "/Items?userId=test".to_string();
    append_incremental_date_filter(&mut query, Some("2026-02-12T18:10:22+00:00"));

    assert!(query.contains("minDateLastSaved=2026-02-12T18%3A10%3A22%2B00%3A00"));
    assert!(query.contains("minDateLastSavedForUser=2026-02-12T18%3A10%3A22%2B00%3A00"));
}

#[test]
fn incremental_append_incremental_date_filter_noop_without_date() {
    let mut query = "/Items?userId=test".to_string();
    append_incremental_date_filter(&mut query, None);
    assert_eq!(query, "/Items?userId=test");
}

#[test]
fn date_filter_exact_text_and_multibyte_encoding() {
    let mut query = String::new();
    append_incremental_date_filter(&mut query, Some("a b~é"));
    assert_eq!(query, "&minDateLastSaved=a%20b~%C3%A9&minDateLastSavedForUser=a%20b~%C3%A9");
}

#[test]
fn image_url_has_trimmed_server_and_query() {
    let url = build_image_url(
        "http://host:8096//".to_string(),
        "tok".to_string(),
        "item1".to_string(),
        "Primary".to_string(),
        Some(300),
        Some(90),
    );
    assert_eq!(
        url.as_deref(),
        Some("http://host:8096/Items/item1/Images/Primary?width=300&quality=90&api_key=tok")
    );
    let plain = build_image_url(
        "http://host".to_string(),
        "t".to_string(),
        "i".to_string(),
        "Backdrop".to_string(),
        None,
        None,
    );
    assert_eq!(plain.as_deref(), Some("http://host/Items/i/Images/Backdrop?api_key=t"));
}

#[test]
fn image_extension_by_mime_type() {
    assert_eq!(image_extension_from_content_type("image/jpeg; charset=binary"), "jpg");
    assert_eq!(image_extension_from_content_type(" image/png "), "png");
    assert_eq!(image_extension_from_content_type("image/jpg"), "jpg");
    assert_eq!(image_extension_from_content_type("image/svg+xml"), "svg");
    assert_eq!(image_extension_from_content_type("image/webp"), "webp");
    assert_eq!(image_extension_from_content_type("image/avif"), "avif");
    assert_eq!(image_extension_from_content_type("image/gif"), "gif");
    assert_eq!(image_extension_from_content_type("text/html"), "img");
    assert_eq!(image_extension_from_content_type(""), "img");
}

#[test]
fn bitrates_in_kbps_become_bps() {
    assert_eq!(normalize_bitrate_to_bps(320), 320_000);
    assert_eq!(normalize_bitrate_to_bps(9_999), 9_999_000);
    assert_eq!(normalize_bitrate_to_bps(10_000), 10_000);
    assert_eq!(normalize_bitrate_to_bps(0), 0);
    assert_eq!(normalize_bitrate_to_bps(-5), -5);
    assert_eq!(normalize_bitrate_to_bps(1_411_200), 1_411_200);
}

#[test]
fn server_date_parses_rfc2822_or_falls_back() {
    let parsed = parse_server_date(Some("Wed, 09 Jun 2021 10:18:14 GMT"), "NOW");
    assert_eq!(parsed, "2021-06-09T10:18:14+00:00");
    assert_eq!(parse_server_date(Some("not a date"), "NOW"), "NOW");
    assert_eq!(parse_server_date(None, "NOW"), "NOW");
    assert_eq!(server_date_or_now(Some("x".to_string()), "NOW"), "x");
    assert_eq!(server_date_or_now(None, "NOW"), "NOW");
}

#[test]
fn build_mobile_stream_url_uses_universal_for_non_seekable() {
    // An ALAC container cannot be seeked in.
    let url = build_mobile_stream_url(
        "http://localhost:8096".to_string(),
        "token".to_string(),
        "song123".to_string(),
        false,
    );
    assert!(url.contains("/Audio/song123/universal"));
    assert!(url.contains("transcodingProtocol=http"));
}

#[test]
fn mobile_stream_url_is_static_for_seekable() {
    let url = build_mobile_stream_url("http://h:8096/".to_string(), "t".to_string(), "s1".to_string(), true);
    assert_eq!(url, "http://h:8096/Audio/s1/stream?api_key=t&static=true");
}

#[test]
fn desktop_stream_urls() {
    assert_eq!(
        build_desktop_stream_url("http://h".to_string(), "t".to_string(), "s1".to_string(), false),
        "http://h/Audio/s1/stream.aac?api_key=t"
    );
    assert_eq!(
        get_audio_stream_url("http://h//", "t", "s1", true),
        "http://h/Audio/s1/stream?api_key=t&static=true"
    );
    assert_eq!(
        get_mobile_audio_stream_url("http://h", "t", "s1", false),
        "http://h/Audio/s1/universal?api_key=t&container=mp3,aac,m4a|aac,flac,ogg&transcodingContainer=aac&transcodingProtocol=http&audioCodec=aac&maxStreamingBitrate=999999999"
    );
}
