use aurelia::models::{BackendProvider, Credentials};
use aurelia::profile_storage::{
    database_path, join, normalize_component, profile_data_dir, profile_storage_key,
    resolve_active_data_dir, trim_whitespace,
};
use std::collections::hash_map::DefaultHasher;
use std::hash::{Hash, Hasher};

fn creds(user: &str, server: &str) -> Credentials {
    Credentials {
        provider: BackendProvider::Jellyfin,
        server_url: server.to_string(),
        username: user.to_string(),
        token: "t".to_string(),
        user_id: "id".to_string(),
    }
}

#[test]
fn components_are_normalized() {
    assert_eq!(normalize_component("  John Doe  "), "john-doe");
    assert_eq!(normalize_component("https://Music.Example.com:8096/"), "https-music-example-com-8096");
    assert_eq!(normalize_component("--a__b--"), "a-b");
    assert_eq!(normalize_component("ÄBC"), "bc");
    assert_eq!(normalize_component("   "), "");
}

#[test]
fn trim_matches_std_trim() {
    for s in ["  a b \t\n", "\u{3000}x\u{2003}", "plain", "", " \u{85}y\u{a0}"] {
        assert_eq!(trim_whitespace(s), s.trim());
    }
}

#[test]
fn storage_key_has_slug_and_checksum() {
    let c = creds(" Alice ", "HTTP://Host/");
    let key = profile_storage_key(&c);
    let mut hasher = DefaultHasher::new();
    "jellyfin|alice|http://host/".to_string().hash(&mut hasher);
    let expected = format!("jellyfin-alice-http-host-{:016x}", hasher.finish());
    assert_eq!(key, expected);
}

#[test]
fn storage_key_ignores_case_and_surrounding_space() {
    assert_eq!(
        profile_storage_key(&creds("Alice", "http://host")),
        profile_storage_key(&creds("  alice\t", "HTTP://HOST "))
    );
    assert_ne!(
        profile_storage_key(&creds("alice", "http://host")),
        profile_storage_key(&creds("bob", "http://host"))
    );
}

#[test]
fn data_dirs_are_resolved() {
    let c = creds("u", "s");
    let key = profile_storage_key(&c);
    assert_eq!(profile_data_dir("/base", &c), format!("/base/profiles/{key}"));
    assert_eq!(resolve_active_data_dir("/base/", Some(&c)), format!("/base/profiles/{key}"));
    assert_eq!(resolve_active_data_dir("/base", None), "/base");
    assert_eq!(database_path("/base"), "/base/aurelia.redb");
    assert_eq!(join("", "x"), "x");
}
