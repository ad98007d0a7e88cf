use vstd::prelude::*;

pub mod api_definition;
pub mod api_naming;
pub mod api_response;
pub mod cache;
pub mod convergence;
pub mod db;
pub mod discord_rpc;
pub mod domain;
pub mod image_cache;
pub mod jellyfin_items;
pub mod jellyfin_models;
pub mod jellyfin_playlists;
pub mod json;
pub mod jellyfin_urls;
pub mod lastfm;
pub mod lastfm_secret;
pub mod lyrics;
pub mod media_controls;
pub mod models;
pub mod navidrome;
pub mod order;
pub mod paging;
pub mod profile_storage;
pub mod related_artists;
pub mod session_reports;
pub mod smart_sync;
pub mod store;
pub mod table;
pub mod text;
pub mod tray_settings;
pub mod view_data;

verus! {
} // verus!
