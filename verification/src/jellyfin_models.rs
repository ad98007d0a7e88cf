//! Jellyfin API data shapes: lyric metadata and the client capabilities
//! (device profile) this client registers with the server.
use vstd::prelude::*;
use crate::text::{owned, views};

verus! {

/// Lyric metadata as the server reports it.
#[derive(Clone, Debug, PartialEq)]
pub struct JellyfinLyricMetadata {
    pub artist: Option<String>,
    pub album: Option<String>,
    pub title: Option<String>,
    pub author: Option<String>,
    pub length: Option<i64>,
    pub by: Option<String>,
    pub offset: Option<i64>,
    pub creator: Option<String>,
    pub version: Option<String>,
    pub is_synced: Option<bool>,
}

/// A timed word of a lyric line.
#[derive(Clone, Debug, PartialEq)]
pub struct JellyfinLyricLineCue {
    pub position: i32,
    pub end_position: i32,
    pub start: i64,
    pub end: Option<i64>,
    pub word: Option<String>,
}

/// A singer of the lyrics.
#[derive(Clone, Debug, PartialEq)]
pub struct JellyfinLyricAgent {
    pub id: String,
    pub agent_type: String,
    pub name: Option<String>,
}

/// A device profile: what the client plays directly and how it wants the
/// rest transcoded.
#[derive(Clone, Debug, PartialEq)]
pub struct DeviceProfile {
    pub name: Option<String>,
    pub id: Option<String>,
    pub max_streaming_bitrate: Option<i32>,
    pub max_static_bitrate: Option<i32>,
    pub music_streaming_transcoding_bitrate: Option<i32>,
    pub max_static_music_bitrate: Option<i32>,
    pub direct_play_profiles: Vec<DirectPlayProfile>,
    pub transcoding_profiles: Vec<TranscodingProfile>,
    pub container_profiles: Vec<ContainerProfile>,
    pub codec_profiles: Vec<CodecProfile>,
    pub subtitle_profiles: Vec<SubtitleProfile>,
}

/// A container/codec the client plays without transcoding.
#[derive(Clone, Debug, PartialEq)]
pub struct DirectPlayProfile {
    pub container: String,
    pub audio_codec: Option<String>,
    pub video_codec: Option<String>,
    pub profile_type: String,
}

/// A format the server may transcode to.
#[derive(Clone, Debug, PartialEq)]
pub struct TranscodingProfile {
    pub container: String,
    pub profile_type: String,
    pub video_codec: Option<String>,
    pub audio_codec: Option<String>,
    pub protocol: String,
    pub estimate_content_length: Option<bool>,
    pub enable_mpegts_m2_ts_mode: Option<bool>,
    pub transcode_seek_info: Option<String>,
    pub copy_timestamps: Option<bool>,
    pub context: Option<String>,
    pub enable_subtitles_in_manifest: Option<bool>,
    pub max_audio_channels: Option<String>,
    pub min_segments: Option<i32>,
    pub segment_length: Option<i32>,
    pub break_on_non_key_frames: Option<bool>,
    pub conditions: Vec<ProfileCondition>,
    pub enable_audio_vbr_encoding: Option<bool>,
}

/// Conditions on a container.
#[derive(Clone, Debug, PartialEq)]
pub struct ContainerProfile {
    pub profile_type: String,
    pub conditions: Vec<ProfileCondition>,
    pub container: String,
    pub sub_container: Option<String>,
}

/// Conditions on a codec.
#[derive(Clone, Debug, PartialEq)]
pub struct CodecProfile {
    pub profile_type: String,
    pub conditions: Vec<ProfileCondition>,
    pub apply_conditions: Vec<ProfileCondition>,
    pub codec: String,
    pub container: Option<String>,
    pub sub_container: Option<String>,
}

/// How subtitles of a format are delivered.
#[derive(Clone, Debug, PartialEq)]
pub struct SubtitleProfile {
    pub format: String,
    pub method: String,
    pub didl_mode: Option<String>,
    pub language: Option<String>,
    pub container: Option<String>,
}

/// A condition of a profile.
#[derive(Clone, Debug, PartialEq)]
pub struct ProfileCondition {
    pub condition: String,
    pub property: String,
    pub value: String,
    pub is_required: bool,
}

/// What this client tells the server it can do.
#[derive(Clone, Debug, PartialEq)]
pub struct ClientCapabilities {
    pub playable_media_types: Vec<String>,
    pub supported_commands: Vec<String>,
    pub supports_media_control: bool,
    pub supports_persistent_identifier: bool,
    pub device_profile: DeviceProfile,
    pub app_store_url: Option<String>,
    pub icon_url: Option<String>,
}

/// `p` plays `container` directly with audio codec `codec`.
pub open spec fn direct_play(p: DirectPlayProfile, container: Seq<char>, codec: Seq<char>) -> bool {
    &&& p.container@ == container
    &&& p.audio_codec matches Some(c) && c@ == codec
    &&& p.video_codec is None
    &&& p.profile_type@ == "Audio"@
}

fn direct_play_profile(container: &str, codec: &str) -> (p: DirectPlayProfile)
    ensures
        direct_play(p, container@, codec@),
{
    DirectPlayProfile {
        container: owned(container),
        audio_codec: Some(owned(codec)),
        video_codec: None,
        profile_type: owned("Audio"),
    }
}

/// The capabilities this client registers for device `device_id`: audio
/// only, the play/volume commands, media control, and a profile that plays
/// mp3, flac and ogg (vorbis) directly and has the rest streamed as mp3
/// over http.
pub fn client_capabilities(device_id: String) -> (c: ClientCapabilities)
    ensures
        views(c.playable_media_types@) == seq!["Audio"@],
        views(c.supported_commands@) == seq!["PlayNow"@, "PlayNext"@, "SetVolume"@, "ToggleMute"@],
        c.supports_media_control,
        c.supports_persistent_identifier,
        c.app_store_url is None,
        c.icon_url is None,
        c.device_profile.name matches Some(n) && n@ == "Aurelia Audio Profile"@,
        c.device_profile.id == Some(device_id),
        c.device_profile.max_streaming_bitrate == Some(140000000i32),
        c.device_profile.max_static_bitrate == Some(140000000i32),
        c.device_profile.music_streaming_transcoding_bitrate == Some(384000i32),
        c.device_profile.max_static_music_bitrate == Some(4000000i32),
        c.device_profile.direct_play_profiles@.len() == 3,
        direct_play(c.device_profile.direct_play_profiles@[0], "mp3"@, "mp3"@),
        direct_play(c.device_profile.direct_play_profiles@[1], "flac"@, "flac"@),
        direct_play(c.device_profile.direct_play_profiles@[2], "ogg"@, "vorbis"@),
        c.device_profile.transcoding_profiles@.len() == 1,
        ({
            let t = c.device_profile.transcoding_profiles@[0];
            &&& t.container@ == "mp3"@
            &&& t.profile_type@ == "Audio"@
            &&& t.video_codec is None
            &&& t.audio_codec matches Some(a) && a@ == "mp3"@
            &&& t.protocol@ == "http"@
            &&& t.estimate_content_length is None
            &&& t.enable_mpegts_m2_ts_mode is None
            &&& t.transcode_seek_info is None
            &&& t.copy_timestamps is None
            &&& t.context matches Some(x) && x@ == "Streaming"@
            &&& t.enable_subtitles_in_manifest is None
            &&& t.max_audio_channels is None
            &&& t.min_segments is None
            &&& t.segment_length is None
            &&& t.break_on_non_key_frames is None
            &&& t.conditions@.len() == 0
            &&& t.enable_audio_vbr_encoding is None
        }),
        c.device_profile.container_profiles@.len() == 0,
        c.device_profile.codec_profiles@.len() == 0,
        c.device_profile.subtitle_profiles@.len() == 1,
        ({
            let s = c.device_profile.subtitle_profiles@[0];
            &&& s.format@ == "srt"@
            &&& s.method@ == "External"@
            &&& s.didl_mode is None
            &&& s.language is None
            &&& s.container is None
        }),
{
    let mut playable_media_types: Vec<String> = Vec::new();
    playable_media_types.push(owned("Audio"));
    let mut supported_commands: Vec<String> = Vec::new();
    supported_commands.push(owned("PlayNow"));
    supported_commands.push(owned("PlayNext"));
    supported_commands.push(owned("SetVolume"));
    supported_commands.push(owned("ToggleMute"));
    let mut direct_play_profiles: Vec<DirectPlayProfile> = Vec::new();
    direct_play_profiles.push(direct_play_profile("mp3", "mp3"));
    direct_play_profiles.push(direct_play_profile("flac", "flac"));
    direct_play_profiles.push(direct_play_profile("ogg", "vorbis"));
    let mut transcoding_profiles: Vec<TranscodingProfile> = Vec::new();
    transcoding_profiles.push(
        TranscodingProfile {
            container: owned("mp3"),
            profile_type: owned("Audio"),
            video_codec: None,
            audio_codec: Some(owned("mp3")),
            protocol: owned("http"),
            estimate_content_length: None,
            enable_mpegts_m2_ts_mode: None,
            transcode_seek_info: None,
            copy_timestamps: None,
            context: Some(owned("Streaming")),
            enable_subtitles_in_manifest: None,
            max_audio_channels: None,
            min_segments: None,
            segment_length: None,
            break_on_non_key_frames: None,
            conditions: Vec::new(),
            enable_audio_vbr_encoding: None,
        },
    );
    let mut subtitle_profiles: Vec<SubtitleProfile> = Vec::new();
    subtitle_profiles.push(
        SubtitleProfile {
            format: owned("srt"),
            method: owned("External"),
            didl_mode: None,
            language: None,
            container: None,
        },
    );
    let c = ClientCapabilities {
        playable_media_types,
        supported_commands,
        supports_media_control: true,
        supports_persistent_identifier: true,
        device_profile: DeviceProfile {
            name: Some(owned("Aurelia Audio Profile")),
            id: Some(device_id),
            max_streaming_bitrate: Some(140000000),
            max_static_bitrate: Some(140000000),
            music_streaming_transcoding_bitrate: Some(384000),
            max_static_music_bitrate: Some(4000000),
            direct_play_profiles,
            transcoding_profiles,
            container_profiles: Vec::new(),
            codec_profiles: Vec::new(),
            subtitle_profiles,
        },
        app_store_url: None,
        icon_url: None,
    };
    assert(views(c.playable_media_types@) =~= seq!["Audio"@]);
    assert(views(c.supported_commands@) =~= seq!["PlayNow"@, "PlayNext"@, "SetVolume"@, "ToggleMute"@]);
    c
}

} // verus!
