use aurelia::jellyfin_models::client_capabilities;

#[test]
fn capabilities_describe_the_audio_profile() {
    let c = client_capabilities("device-9".to_string());
    assert_eq!(c.playable_media_types, vec!["Audio".to_string()]);
    assert_eq!(c.supported_commands, vec!["PlayNow", "PlayNext", "SetVolume", "ToggleMute"]);
    assert!(c.supports_media_control && c.supports_persistent_identifier);
    let p = &c.device_profile;
    assert_eq!(p.id.as_deref(), Some("device-9"));
    assert_eq!(p.name.as_deref(), Some("Aurelia Audio Profile"));
    assert_eq!(p.max_streaming_bitrate, Some(140000000));
    assert_eq!(p.music_streaming_transcoding_bitrate, Some(384000));
    let containers: Vec<&str> = p.direct_play_profiles.iter().map(|d| d.container.as_str()).collect();
    assert_eq!(containers, vec!["mp3", "flac", "ogg"]);
    assert_eq!(p.direct_play_profiles[2].audio_codec.as_deref(), Some("vorbis"));
    assert_eq!(p.transcoding_profiles[0].protocol, "http");
    assert_eq!(p.transcoding_profiles[0].context.as_deref(), Some("Streaming"));
    assert_eq!(p.subtitle_profiles[0].format, "srt");
    assert!(p.codec_profiles.is_empty() && p.container_profiles.is_empty());
}
