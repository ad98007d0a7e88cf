use aurelia::lastfm::lastfm_response_error;
use aurelia::lastfm::lastfm_session;
use aurelia::lastfm::{
    build_api_signature, extract_lastfm_token, lastfm_authenticate_params, lastfm_clear_credentials,
    lastfm_complete_authentication, lastfm_is_authenticated, lastfm_scrobble_params,
    lastfm_set_api_secret, lastfm_set_credentials, lastfm_update_now_playing_params,
    sign_request_params, LastFmCredentials, LastFmState,
};
use aurelia::lastfm_secret::path;

fn pair(k: &str, v: &str) -> (String, String) {
    (k.to_string(), v.to_string())
}

#[test]
fn signature_is_md5_of_sorted_params_and_secret() {
    let params = vec![pair("method", "auth.getSession"), pair("api_key", "KEY"), pair("token", "T")];
    let sig = build_api_signature(&params, "SECRET");
    let expected = format!("{:x}", md5::compute("api_keyKEYmethodauth.getSessiontokenTSECRET"));
    assert_eq!(sig, expected);
    assert_eq!(sig.len(), 32);
    assert_eq!(build_api_signature(&[], "abc"), "900150983cd24fb0d6963f7d28e17f72");
}

#[test]
fn signed_params_exclude_format_and_end_with_json() {
    let params = vec![pair("format", "xml"), pair("b", "2"), pair("a", "1")];
    let signed = sign_request_params(params.clone(), "S");
    assert_eq!(signed.len(), 5);
    assert_eq!(&signed[..3], &params[..]);
    assert_eq!(signed[3].0, "api_sig");
    assert_eq!(signed[3].1, format!("{:x}", md5::compute("a1b2S")));
    assert_eq!(signed[4], pair("format", "json"));
}

#[test]
fn lastfm_state_transitions() {
    let mut state = LastFmState::new();
    assert!(!lastfm_is_authenticated(&state));
    lastfm_set_api_secret("sec".to_string(), &mut state);
    lastfm_set_credentials(
        LastFmCredentials { session_key: "sk".to_string(), username: "u".to_string(), api_key: None },
        &mut state,
    );
    assert!(lastfm_is_authenticated(&state));
    lastfm_clear_credentials(&mut state);
    assert!(!lastfm_is_authenticated(&state));
    assert!(state.api_secret.is_none());
}

#[test]
fn scrobble_needs_session_secret_and_key() {
    let mut state = LastFmState::new();
    let err = lastfm_scrobble_params("A".into(), "T".into(), None, None, 5, &state);
    assert_eq!(err, Err("Not authenticated with Last.fm".to_string()));
    lastfm_set_credentials(
        LastFmCredentials { session_key: "sk".to_string(), username: "u".to_string(), api_key: None },
        &mut state,
    );
    let err = lastfm_scrobble_params("A".into(), "T".into(), None, None, 5, &state);
    assert_eq!(err, Err("Last.fm API secret not available".to_string()));
    lastfm_set_api_secret("sec".to_string(), &mut state);
    let err = lastfm_update_now_playing_params("A".into(), "T".into(), None, &state);
    assert_eq!(err, Err("Last.fm API key not available".to_string()));
}

#[test]
fn scrobble_params_carry_track_and_timestamp() {
    let mut state = LastFmState::new();
    let creds = lastfm_complete_authentication(
        "KEY".to_string(),
        "sec".to_string(),
        "user".to_string(),
        "sk".to_string(),
        &mut state,
    );
    assert_eq!(creds.api_key.as_deref(), Some("KEY"));
    let params =
        lastfm_scrobble_params("Art".into(), "Song".into(), Some("Alb".into()), None, -42, &state).unwrap();
    let expected_base = vec![
        pair("api_key", "KEY"),
        pair("method", "track.scrobble"),
        pair("sk", "sk"),
        pair("artist", "Art"),
        pair("track", "Song"),
        pair("timestamp", "-42"),
        pair("album", "Alb"),
    ];
    assert_eq!(&params[..7], &expected_base[..]);
    assert_eq!(params[7].1, build_api_signature(&expected_base, "sec"));
    let with_ts =
        lastfm_scrobble_params("Art".into(), "Song".into(), None, Some(1700000000), 1, &state).unwrap();
    assert_eq!(with_ts[5], pair("timestamp", "1700000000"));
    let now_playing = lastfm_update_now_playing_params("Art".into(), "Song".into(), None, &state).unwrap();
    assert_eq!(now_playing[1], pair("method", "track.updateNowPlaying"));
    assert_eq!(now_playing.len(), 7);
}

#[test]
fn auth_params_are_signed() {
    let params = lastfm_authenticate_params("KEY".to_string(), "sec", "TOK".to_string());
    assert_eq!(params[0], pair("api_key", "KEY"));
    assert_eq!(params[1], pair("method", "auth.getSession"));
    assert_eq!(params[2], pair("token", "TOK"));
    assert_eq!(params[3].1, format!("{:x}", md5::compute("api_keyKEYmethodauth.getSessiontokenTOKsec")));
    assert_eq!(params[4], pair("format", "json"));
}

#[test]
fn token_is_read_from_the_first_line() {
    assert_eq!(
        extract_lastfm_token("GET /callback?token=abc123&x=1 HTTP/1.1\r\nHost: h\r\n").as_deref(),
        Some("abc123")
    );
    assert_eq!(extract_lastfm_token("GET /?token=zz HTTP/1.1").as_deref(), Some("zz"));
    assert_eq!(extract_lastfm_token("GET /?token=end").as_deref(), Some("end"));
    assert_eq!(extract_lastfm_token("GET / HTTP/1.1\r\n?token=no").as_deref(), None);
    assert_eq!(extract_lastfm_token(""), None);
    assert_eq!(extract_lastfm_token("token=\n").as_deref(), Some(""));
}

#[test]
fn lastfm_secret_path_joins_app_dir() {
    assert_eq!(path("/data/app"), "/data/app/lastfm_secret.json");
    assert_eq!(path("/data/app/"), "/data/app/lastfm_secret.json");
    assert_eq!(path(""), "lastfm_secret.json");
}

fn jnum(n: i64) -> aurelia::json::JsonValue {
    aurelia::json::JsonValue::Number { integer: Some(n), unsigned: if n >= 0 { Some(n as u64) } else { None }, float_bits: (n as f64).to_bits() }
}

fn jobj(members: Vec<(&str, aurelia::json::JsonValue)>) -> aurelia::json::JsonValue {
    aurelia::json::JsonValue::Object(members.into_iter().map(|(k, v)| (k.to_string(), v)).collect())
}

fn jstr(t: &str) -> aurelia::json::JsonValue {
    aurelia::json::JsonValue::Str(t.to_string())
}

#[test]
fn lastfm_errors_are_reported() {
    let err = jobj(vec![("error", jnum(9)), ("message", jstr("Invalid session key"))]);
    assert_eq!(lastfm_response_error(&err), Some("Last.fm error 9: Invalid session key".to_string()));
    let zero = jobj(vec![("error", jnum(0)), ("message", jstr("ok"))]);
    assert_eq!(lastfm_response_error(&zero), None);
    let no_message = jobj(vec![("error", jnum(4))]);
    assert_eq!(lastfm_response_error(&no_message), None);
    let as_list = aurelia::json::JsonValue::Array(vec![jnum(-2), jstr("odd")]);
    assert_eq!(lastfm_response_error(&as_list), Some("Last.fm error -2: odd".to_string()));
    let fine = jobj(vec![("scrobbles", jobj(vec![]))]);
    assert_eq!(lastfm_response_error(&fine), None);
}

#[test]
fn lastfm_session_is_read() {
    let json = jobj(vec![(
        "session",
        jobj(vec![("name", jstr("alice")), ("key", jstr("sk-1")), ("subscriber", jnum(0))]),
    )]);
    assert_eq!(lastfm_session(&json), Some(("alice".to_string(), "sk-1".to_string())));
    assert_eq!(lastfm_session(&jobj(vec![("session", jobj(vec![("name", jstr("a"))]))])), None);
    assert_eq!(lastfm_session(&jobj(vec![])), None);
}
